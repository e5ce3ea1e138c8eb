//! The desktop client's state: the commands and events that cross the boundary
//! between its window and its network side, and the folding of the durable event
//! stream into what is shown.

use crate::choices::{
    all_choices, choice_position, collect_choices, offered, position_of_choice, ModelChoice,
    ModelChoiceView,
};
use crate::config::{
    remembered, DefaultModel, DefaultModelView, DesktopSettings, DesktopSettingsView,
    ModelsSettings, ModelsSettingsView, SettingsFile, SettingsFileView,
};
use crate::labels::{can_shorten, short_id, shortened, title_from_message, title_of};
use crate::protocol::{
    Event, EventView, ModelRef, ModelRefView, PresetSummary, PresetSummaryView, ProviderSummary,
    ProviderSummaryView, ReasoningEffort, SessionSummary, SessionSummaryView, ToolCall,
    ToolCallView,
};
use crate::text::{
    concat, concat3, has_prefix, is_blank, opt_view, same, starts_with, trim, views, Text,
};
use vstd::prelude::*;

verus! {

/// The content of a [`UiCmd`].
#[verifier::ext_equal]
pub enum UiCmdView {
    Bootstrap,
    ListPresets,
    Send { workspace: Text, model: ModelRefView, preset: Option<Text>, effort: Option<ReasoningEffort>, text: Text },
    NewChat,
    ListSessions { workspace: Text },
    SwitchTo { session_id: Text },
}

/// What the window asks of the network side. `NewChat` detaches without creating
/// anything: the next message starts a chat. `SwitchTo` continues an existing one.
#[derive(Debug, Eq, PartialEq)]
pub enum UiCmd {
    Bootstrap,
    ListPresets,
    Send { workspace: String, model: ModelRef, preset: Option<String>, effort: Option<ReasoningEffort>, text: String },
    NewChat,
    ListSessions { workspace: String },
    SwitchTo { session_id: String },
}

impl View for UiCmd {
    type V = UiCmdView;

    open spec fn view(&self) -> UiCmdView {
        match self {
            UiCmd::Bootstrap => UiCmdView::Bootstrap,
            UiCmd::ListPresets => UiCmdView::ListPresets,
            UiCmd::Send { workspace, model, preset, effort, text } => UiCmdView::Send {
                workspace: workspace@,
                model: model@,
                preset: opt_view(*preset),
                effort: *effort,
                text: text@,
            },
            UiCmd::NewChat => UiCmdView::NewChat,
            UiCmd::ListSessions { workspace } => UiCmdView::ListSessions {
                workspace: workspace@,
            },
            UiCmd::SwitchTo { session_id } => UiCmdView::SwitchTo {
                session_id: session_id@,
            },
        }
    }
}

impl Clone for UiCmd {
    fn clone(&self) -> (r: Self)
        ensures
            r@ == self@,
    {
        let r = match self {
            UiCmd::Bootstrap => UiCmd::Bootstrap,
            UiCmd::ListPresets => UiCmd::ListPresets,
            UiCmd::Send { workspace, model, preset, effort, text } => UiCmd::Send {
                workspace: workspace.clone(),
                model: model.clone(),
                preset: preset.clone(),
                effort: *effort,
                text: text.clone(),
            },
            UiCmd::NewChat => UiCmd::NewChat,
            UiCmd::ListSessions { workspace } => UiCmd::ListSessions {
                workspace: workspace.clone(),
            },
            UiCmd::SwitchTo { session_id } => UiCmd::SwitchTo {
                session_id: session_id.clone(),
            },
        };
        assert(r@ =~~= self@);
        r
    }
}

/// The content of a [`NetEvent`].
#[verifier::ext_equal]
pub enum NetEventView {
    Providers(Seq<ProviderSummaryView>),
    Presets(Seq<PresetSummaryView>),
    Sessions { workspace: Text, sessions: Seq<SessionSummaryView> },
    SessionReady(Text),
    Switched(Text),
    Event(EventView),
    Detached,
    Notice(Text),
}

/// What the network side reports. `SessionReady` tells of a brand-new session for
/// this chat, `Switched` of an existing one that is about to be replayed.
#[derive(Debug, Eq, PartialEq)]
pub enum NetEvent {
    Providers(Vec<ProviderSummary>),
    Presets(Vec<PresetSummary>),
    Sessions { workspace: String, sessions: Vec<SessionSummary> },
    SessionReady(String),
    Switched(String),
    Event(Event),
    Detached,
    Notice(String),
}

impl View for NetEvent {
    type V = NetEventView;

    open spec fn view(&self) -> NetEventView {
        match self {
            NetEvent::Providers(item) => NetEventView::Providers(views(item@)),
            NetEvent::Presets(item) => NetEventView::Presets(views(item@)),
            NetEvent::Sessions { workspace, sessions } => NetEventView::Sessions {
                workspace: workspace@,
                sessions: views(sessions@),
            },
            NetEvent::SessionReady(item) => NetEventView::SessionReady(item@),
            NetEvent::Switched(item) => NetEventView::Switched(item@),
            NetEvent::Event(item) => NetEventView::Event(item@),
            NetEvent::Detached => NetEventView::Detached,
            NetEvent::Notice(item) => NetEventView::Notice(item@),
        }
    }
}

impl Clone for NetEvent {
    fn clone(&self) -> (r: Self)
        ensures
            r@ == self@,
    {
        let r = match self {
            NetEvent::Providers(item) => NetEvent::Providers(item.clone()),
            NetEvent::Presets(item) => NetEvent::Presets(item.clone()),
            NetEvent::Sessions { workspace, sessions } => NetEvent::Sessions {
                workspace: workspace.clone(),
                sessions: sessions.clone(),
            },
            NetEvent::SessionReady(item) => NetEvent::SessionReady(item.clone()),
            NetEvent::Switched(item) => NetEvent::Switched(item.clone()),
            NetEvent::Event(item) => NetEvent::Event(item.clone()),
            NetEvent::Detached => NetEvent::Detached,
            NetEvent::Notice(item) => NetEvent::Notice(item.clone()),
        };
        assert(r@ =~~= self@);
        r
    }
}

/// The content of a [`TranscriptEntry`].
#[verifier::ext_equal]
pub enum TranscriptEntryView {
    User { text: Text },
    Assistant { run_id: Text, text: Text, streaming: bool },
    Tool { call_id: Text, name: Text, arguments: Text, result: Option<Text>, failed: bool },
    Error { text: Text },
}

/// One entry of the transcript.
#[derive(Debug, Eq, PartialEq)]
pub enum TranscriptEntry {
    User { text: String },
    Assistant { run_id: String, text: String, streaming: bool },
    Tool { call_id: String, name: String, arguments: String, result: Option<String>, failed: bool },
    Error { text: String },
}

impl View for TranscriptEntry {
    type V = TranscriptEntryView;

    open spec fn view(&self) -> TranscriptEntryView {
        match self {
            TranscriptEntry::User { text } => TranscriptEntryView::User {
                text: text@,
            },
            TranscriptEntry::Assistant { run_id, text, streaming } => TranscriptEntryView::Assistant {
                run_id: run_id@,
                text: text@,
                streaming: *streaming,
            },
            TranscriptEntry::Tool { call_id, name, arguments, result, failed } => TranscriptEntryView::Tool {
                call_id: call_id@,
                name: name@,
                arguments: arguments@,
                result: opt_view(*result),
                failed: *failed,
            },
            TranscriptEntry::Error { text } => TranscriptEntryView::Error {
                text: text@,
            },
        }
    }
}

impl Clone for TranscriptEntry {
    fn clone(&self) -> (r: Self)
        ensures
            r@ == self@,
    {
        let r = match self {
            TranscriptEntry::User { text } => TranscriptEntry::User {
                text: text.clone(),
            },
            TranscriptEntry::Assistant { run_id, text, streaming } => TranscriptEntry::Assistant {
                run_id: run_id.clone(),
                text: text.clone(),
                streaming: *streaming,
            },
            TranscriptEntry::Tool { call_id, name, arguments, result, failed } => TranscriptEntry::Tool {
                call_id: call_id.clone(),
                name: name.clone(),
                arguments: arguments.clone(),
                result: result.clone(),
                failed: *failed,
            },
            TranscriptEntry::Error { text } => TranscriptEntry::Error {
                text: text.clone(),
            },
        };
        assert(r@ =~~= self@);
        r
    }
}

#[derive(Clone, Copy, Debug, Eq, PartialEq, Structural)]
pub enum RunState {
    Idle,
    Running,
    Failed,
}

#[derive(Clone, Copy, Debug, Eq, PartialEq, Structural)]
pub enum ActivityKind {
    User,
    Run,
    Tool,
    Done,
    Error,
}

/// The content of an [`ActivityLine`].
#[verifier::ext_equal]
pub struct ActivityLineView {
    pub kind: ActivityKind,
    pub text: Text,
}

/// One line of the activity log.
#[derive(Debug, Eq, PartialEq)]
pub struct ActivityLine {
    pub kind: ActivityKind,
    pub text: String,
}

impl View for ActivityLine {
    type V = ActivityLineView;

    open spec fn view(&self) -> ActivityLineView {
        ActivityLineView {
            kind: self.kind,
            text: self.text@,
        }
    }
}

impl Clone for ActivityLine {
    fn clone(&self) -> (r: Self)
        ensures
            r@ == self@,
    {
        let r = ActivityLine {
            kind: self.kind,
            text: self.text.clone(),
        };
        assert(r@ =~~= self@);
        r
    }
}

/// The content of a [`WorkspaceSessions`].
#[verifier::ext_equal]
pub struct WorkspaceSessionsView {
    pub workspace: Text,
    pub sessions: Seq<SessionSummaryView>,
}

/// The sessions opened before under one workspace, for the sidebar's tree.
#[derive(Debug, Eq, PartialEq)]
pub struct WorkspaceSessions {
    pub workspace: String,
    pub sessions: Vec<SessionSummary>,
}

impl View for WorkspaceSessions {
    type V = WorkspaceSessionsView;

    open spec fn view(&self) -> WorkspaceSessionsView {
        WorkspaceSessionsView {
            workspace: self.workspace@,
            sessions: views(self.sessions@),
        }
    }
}

impl Clone for WorkspaceSessions {
    fn clone(&self) -> (r: Self)
        ensures
            r@ == self@,
    {
        let r = WorkspaceSessions {
            workspace: self.workspace.clone(),
            sessions: self.sessions.clone(),
        };
        assert(r@ =~~= self@);
        r
    }
}

/// The content of a [`SessionTitle`].
#[verifier::ext_equal]
pub struct SessionTitleView {
    pub session_id: Text,
    pub title: Text,
}

/// The title given to a session.
#[derive(Debug, Eq, PartialEq)]
pub struct SessionTitle {
    pub session_id: String,
    pub title: String,
}

impl View for SessionTitle {
    type V = SessionTitleView;

    open spec fn view(&self) -> SessionTitleView {
        SessionTitleView {
            session_id: self.session_id@,
            title: self.title@,
        }
    }
}

impl Clone for SessionTitle {
    fn clone(&self) -> (r: Self)
        ensures
            r@ == self@,
    {
        let r = SessionTitle {
            session_id: self.session_id.clone(),
            title: self.title.clone(),
        };
        assert(r@ =~~= self@);
        r
    }
}

#[derive(Clone, Copy, Debug, Eq, PartialEq, Structural)]
pub enum SettingsTab {
    General,
    Models,
    Presets,
}

/// The content of an [`App`].
#[verifier::ext_equal]
pub struct AppView {
    pub choices: Seq<ModelChoiceView>,
    pub selected_model: usize,
    pub presets: Seq<PresetSummaryView>,
    pub selected_preset: Option<Text>,
    pub effort: Option<ReasoningEffort>,
    pub transcript: Seq<TranscriptEntryView>,
    pub activity: Seq<ActivityLineView>,
    pub sessions_by_workspace: Seq<WorkspaceSessionsView>,
    pub session_titles: Seq<SessionTitleView>,
    pub active_session: Option<Text>,
    pub run_state: RunState,
    pub notice: Option<Text>,
    pub draft: Text,
    pub connected: bool,
    pub workspace: Text,
    pub sidebar_filter: Text,
    pub sidebar_open: bool,
    pub activity_open: bool,
    pub settings_open: bool,
    pub settings_tab: SettingsTab,
    pub focus_composer: bool,
    pub model_filter: Text,
    pub focus_model_search: bool,
    pub models_settings: ModelsSettingsView,
    pub desktop_settings: DesktopSettingsView,
}

/// The desktop client's state.
#[derive(Debug)]
pub struct App {
    pub choices: Vec<ModelChoice>,
    pub selected_model: usize,
    pub presets: Vec<PresetSummary>,
    pub selected_preset: Option<String>,
    pub effort: Option<ReasoningEffort>,
    pub transcript: Vec<TranscriptEntry>,
    pub activity: Vec<ActivityLine>,
    pub sessions_by_workspace: Vec<WorkspaceSessions>,
    pub session_titles: Vec<SessionTitle>,
    pub active_session: Option<String>,
    pub run_state: RunState,
    pub notice: Option<String>,
    pub draft: String,
    pub connected: bool,
    /// The workspace a new chat will be created in; not necessarily the workspace
    /// of the currently open session.
    pub workspace: String,
    pub sidebar_filter: String,
    pub sidebar_open: bool,
    pub activity_open: bool,
    pub settings_open: bool,
    pub settings_tab: SettingsTab,
    pub focus_composer: bool,
    pub model_filter: String,
    pub focus_model_search: bool,
    pub models_settings: ModelsSettings,
    pub desktop_settings: DesktopSettings,
}

impl View for App {
    type V = AppView;

    open spec fn view(&self) -> AppView {
        AppView {
            choices: views(self.choices@),
            selected_model: self.selected_model,
            presets: views(self.presets@),
            selected_preset: opt_view(self.selected_preset),
            effort: self.effort,
            transcript: views(self.transcript@),
            activity: views(self.activity@),
            sessions_by_workspace: views(self.sessions_by_workspace@),
            session_titles: views(self.session_titles@),
            active_session: opt_view(self.active_session),
            run_state: self.run_state,
            notice: opt_view(self.notice),
            draft: self.draft@,
            connected: self.connected,
            workspace: self.workspace@,
            sidebar_filter: self.sidebar_filter@,
            sidebar_open: self.sidebar_open,
            activity_open: self.activity_open,
            settings_open: self.settings_open,
            settings_tab: self.settings_tab,
            focus_composer: self.focus_composer,
            model_filter: self.model_filter@,
            focus_model_search: self.focus_model_search,
            models_settings: self.models_settings@,
            desktop_settings: self.desktop_settings@,
        }
    }
}

/// The content of a [`DesktopAction`].
#[verifier::ext_equal]
pub enum DesktopActionView {
    Save(SettingsFileView),
    Send(UiCmdView),
}

/// What a change of the state asks of the surroundings: writing the settings, or
/// a command for the network side.
#[derive(Debug, Eq, PartialEq)]
pub enum DesktopAction {
    Save(SettingsFile),
    Send(UiCmd),
}

impl View for DesktopAction {
    type V = DesktopActionView;

    open spec fn view(&self) -> DesktopActionView {
        match self {
            DesktopAction::Save(item) => DesktopActionView::Save(item@),
            DesktopAction::Send(item) => DesktopActionView::Send(item@),
        }
    }
}

impl Clone for DesktopAction {
    fn clone(&self) -> (r: Self)
        ensures
            r@ == self@,
    {
        let r = match self {
            DesktopAction::Save(item) => DesktopAction::Save(item.clone()),
            DesktopAction::Send(item) => DesktopAction::Send(item.clone()),
        };
        assert(r@ =~~= self@);
        r
    }
}

/// How many lines the activity log keeps.
pub const MAX_ACTIVITY: usize = 500;

/// The title of a session, if it has one.
pub open spec fn title_in(titles: Seq<SessionTitleView>, session: Text) -> Option<Text>
    decreases titles.len(),
{
    if titles.len() == 0 {
        None
    } else {
        match title_in(titles.drop_last(), session) {
            Some(title) => Some(title),
            None => if titles.last().session_id == session {
                Some(titles.last().title)
            } else {
                None
            },
        }
    }
}

/// Whether a transcript ends in an answer of a run that is still streamed.
pub open spec fn has_draft(transcript: Seq<TranscriptEntryView>, run: Text) -> bool {
    transcript.len() > 0 && (transcript.last() matches TranscriptEntryView::Assistant {
        run_id,
        streaming,
        ..
    } && run_id == run && streaming)
}

/// A transcript with streamed text added to the answer of a run.
pub open spec fn with_text(transcript: Seq<TranscriptEntryView>, run: Text, text: Text) -> Seq<
    TranscriptEntryView,
> {
    if has_draft(transcript, run) {
        transcript.drop_last().push(
            TranscriptEntryView::Assistant {
                run_id: run,
                text: transcript.last()->Assistant_text + text,
                streaming: true,
            },
        )
    } else {
        transcript.push(TranscriptEntryView::Assistant { run_id: run, text, streaming: true })
    }
}

/// Whether a transcript ends in an answer of a run.
pub open spec fn has_answer(transcript: Seq<TranscriptEntryView>, run: Text) -> bool {
    transcript.len() > 0 && (transcript.last() matches TranscriptEntryView::Assistant {
        run_id,
        ..
    } && run_id == run)
}

/// A transcript with the final text of an answer, in place of what was streamed
/// of it. An empty final text keeps what was streamed.
pub open spec fn with_answer(transcript: Seq<TranscriptEntryView>, run: Text, text: Text) -> Seq<
    TranscriptEntryView,
> {
    if has_answer(transcript, run) {
        transcript.drop_last().push(
            TranscriptEntryView::Assistant {
                run_id: run,
                text: if text.len() > 0 {
                    text
                } else {
                    transcript.last()->Assistant_text
                },
                streaming: false,
            },
        )
    } else if text.len() > 0 {
        transcript.push(TranscriptEntryView::Assistant { run_id: run, text, streaming: false })
    } else {
        transcript
    }
}

/// A transcript with the result on the latest card of a tool call.
pub open spec fn with_result(
    transcript: Seq<TranscriptEntryView>,
    call: Text,
    content: Text,
    is_error: bool,
) -> Seq<TranscriptEntryView>
    decreases transcript.len(),
{
    if transcript.len() == 0 {
        transcript
    } else {
        match transcript.last() {
            TranscriptEntryView::Tool { call_id, name, arguments, .. } if call_id == call => transcript.drop_last().push(
                TranscriptEntryView::Tool {
                    call_id,
                    name,
                    arguments,
                    result: Some(content),
                    failed: is_error,
                },
            ),
            entry => with_result(transcript.drop_last(), call, content, is_error).push(entry),
        }
    }
}

/// A transcript whose last answer is no longer streamed.
pub open spec fn with_settled_end(transcript: Seq<TranscriptEntryView>) -> Seq<TranscriptEntryView> {
    if transcript.len() > 0 {
        match transcript.last() {
            TranscriptEntryView::Assistant { run_id, text, .. } => transcript.drop_last().push(
                TranscriptEntryView::Assistant { run_id, text, streaming: false },
            ),
            _ => transcript,
        }
    } else {
        transcript
    }
}

/// An activity log with one more line; the oldest one goes when it is full.
pub open spec fn logged_line(activity: Seq<ActivityLineView>, line: ActivityLineView) -> Seq<
    ActivityLineView,
> {
    if activity.len() >= MAX_ACTIVITY {
        activity.push(line).skip(1)
    } else {
        activity.push(line)
    }
}

/// What a workspace's sessions become in the sidebar's tree.
pub open spec fn with_workspace_sessions(
    tree: Seq<WorkspaceSessionsView>,
    entry: WorkspaceSessionsView,
) -> Seq<WorkspaceSessionsView>
    decreases tree.len(),
{
    if tree.len() == 0 {
        seq![entry]
    } else if tree[0].workspace == entry.workspace {
        tree.update(0, entry)
    } else {
        seq![tree[0]] + with_workspace_sessions(tree.skip(1), entry)
    }
}

/// A list of workspaces without those that stand in it before.
pub open spec fn distinct_workspaces(first: Text, recent: Seq<Text>) -> Seq<Text>
    decreases recent.len(),
{
    if recent.len() == 0 {
        seq![first]
    } else {
        let before = distinct_workspaces(first, recent.drop_last());
        if before.contains(recent.last()) {
            before
        } else {
            before.push(recent.last())
        }
    }
}

/// What is shown for an effort in the activity log.
pub open spec fn effort_word(effort: Option<ReasoningEffort>) -> Text {
    match effort {
        Some(level) => level.spelling(),
        None => "default"@,
    }
}

impl AppView {
    /// What every reachable state keeps: the activity log is bounded, no
    /// session has two titles, and no workspace stands twice in the tree.
    pub open spec fn well_formed(self) -> bool {
        &&& self.activity.len() <= MAX_ACTIVITY
        &&& forall|i: int, j: int|
            0 <= i < j < self.session_titles.len() ==> (#[trigger] self.session_titles[i]).session_id
                != (#[trigger] self.session_titles[j]).session_id
        &&& forall|i: int, j: int|
            0 <= i < j < self.sessions_by_workspace.len() ==> (
            #[trigger] self.sessions_by_workspace[i]).workspace != (
            #[trigger] self.sessions_by_workspace[j]).workspace
    }

    pub open spec fn logging(self, kind: ActivityKind, text: Text) -> AppView {
        AppView {
            activity: logged_line(self.activity, ActivityLineView { kind, text }),
            ..self
        }
    }

    /// The state in which another thread can be shown.
    pub open spec fn with_cleared_thread(self) -> AppView {
        AppView {
            transcript: seq![],
            activity: seq![],
            run_state: RunState::Idle,
            focus_composer: true,
            ..self
        }
    }

    pub open spec fn noticing(self, notice: Text) -> AppView {
        AppView { notice: Some(notice), ..self }
    }

    /// The first message of a session gives it its title.
    pub open spec fn with_title(self, session: Text, message: Text) -> AppView {
        if title_in(self.session_titles, session) is Some {
            self
        } else {
            AppView {
                session_titles: self.session_titles.push(
                    SessionTitleView { session_id: session, title: title_of(message) },
                ),
                ..self
            }
        }
    }

    pub open spec fn with_logged_calls(self, calls: Seq<ToolCallView>) -> AppView
        decreases calls.len(),
    {
        if calls.len() == 0 {
            self
        } else {
            self.with_logged_calls(calls.drop_last()).logging(
                ActivityKind::Tool,
                calls.last().name + " "@ + calls.last().arguments,
            )
        }
    }

    /// The state after one entry of the session's stream.
    pub open spec fn applied(self, event: EventView) -> AppView {
        match event {
            EventView::Message { text, model, .. } => {
                let next = AppView {
                    transcript: self.transcript.push(TranscriptEntryView::User { text }),
                    ..self
                };
                let titled = match self.active_session {
                    Some(id) => next.with_title(id, text),
                    None => next,
                };
                titled.logging(
                    ActivityKind::User,
                    model.provider + " / "@ + model.id + ": "@ + text,
                )
            },
            EventView::RunStarted { model, reasoning_effort, .. } => AppView {
                run_state: RunState::Running,
                ..self
            }.logging(
                ActivityKind::Run,
                model.provider + " / "@ + model.id + " · "@ + effort_word(reasoning_effort),
            ),
            EventView::AssistantTextDelta { run_id, text, .. } => AppView {
                transcript: with_text(self.transcript, run_id, text),
                ..self
            },
            EventView::AssistantMessage { run_id, text, tool_calls, .. } => AppView {
                transcript: with_answer(self.transcript, run_id, text),
                ..self
            }.with_logged_calls(tool_calls),
            EventView::ToolCallStarted { call, .. } => AppView {
                transcript: self.transcript.push(
                    TranscriptEntryView::Tool {
                        call_id: call.id,
                        name: call.name,
                        arguments: call.arguments,
                        result: None,
                        failed: false,
                    },
                ),
                ..self
            }.logging(ActivityKind::Tool, call.name + " started"@),
            EventView::ToolCallCompleted { result, .. } => AppView {
                transcript: with_result(
                    self.transcript,
                    result.tool_call_id,
                    result.content,
                    result.is_error,
                ),
                ..self
            }.logging(
                ActivityKind::Tool,
                if result.is_error {
                    "tool failed"@
                } else {
                    "tool done"@
                },
            ),
            EventView::RunCompleted { .. } => AppView {
                run_state: RunState::Idle,
                transcript: with_settled_end(self.transcript),
                ..self
            }.logging(ActivityKind::Done, "run completed"@),
            EventView::RunFailed { error, .. } => AppView {
                run_state: RunState::Failed,
                transcript: self.transcript.push(TranscriptEntryView::Error { text: error }),
                ..self
            }.logging(ActivityKind::Error, error),
        }
    }

    /// The selected model, if there is one.
    pub open spec fn choice(self) -> Option<ModelChoiceView> {
        if self.selected_model < self.choices.len() {
            Some(self.choices[self.selected_model as int])
        } else {
            None
        }
    }

    /// The efforts that the selected model offers.
    pub open spec fn offered(self) -> Seq<ReasoningEffort> {
        match self.choice() {
            Some(choice) => offered(choice),
            None => seq![],
        }
    }

    /// The state with an effort that the selected model does not offer dropped.
    pub open spec fn clamped(self) -> AppView {
        AppView {
            effort: match self.effort {
                Some(level) if !self.offered().contains(level) => None,
                _ => self.effort,
            },
            ..self
        }
    }

    /// The settings as they are to be written.
    pub open spec fn settings(self) -> SettingsFileView {
        SettingsFileView { models: self.models_settings, desktop: self.desktop_settings }
    }

    pub open spec fn with_default_model(
        self,
        model: ModelRefView,
        effort: Option<ReasoningEffort>,
    ) -> AppView {
        AppView {
            models_settings: ModelsSettingsView {
                default: Some(DefaultModelView { provider: model.provider, model: model.id }),
                default_reasoning_effort: effort,
            },
            ..self
        }
    }

    /// The state with the current model and effort as the defaults, and what is
    /// to be written of it. Without a model nothing changes.
    pub open spec fn with_current_defaults(self) -> (AppView, Seq<DesktopActionView>) {
        match self.choice() {
            Some(choice) => {
                let next = self.with_default_model(
                    ModelRefView { provider: choice.provider_id, id: choice.model },
                    self.effort,
                );
                (next, seq![DesktopActionView::Save(next.settings())])
            },
            None => (self, seq![]),
        }
    }

    pub open spec fn with_model(self, index: usize) -> (AppView, Seq<DesktopActionView>) {
        if index < self.choices.len() {
            AppView { selected_model: index, ..self }.clamped().with_current_defaults()
        } else {
            (self, seq![])
        }
    }

    pub open spec fn with_effort(self, effort: Option<ReasoningEffort>) -> (
        AppView,
        Seq<DesktopActionView>,
    ) {
        if effort is None || self.offered().contains(effort->0) {
            AppView { effort, ..self }.with_current_defaults()
        } else {
            (self, seq![])
        }
    }

    pub open spec fn with_workspace(self, workspace: Text) -> (AppView, Seq<DesktopActionView>) {
        let next = AppView {
            workspace,
            desktop_settings: DesktopSettingsView {
                active_workspace: Some(workspace),
                recent_workspaces: remembered(self.desktop_settings.recent_workspaces, workspace),
                ..self.desktop_settings
            },
            ..self
        };
        (
            next,
            seq![
                DesktopActionView::Save(next.settings()),
                DesktopActionView::Send(UiCmdView::ListSessions { workspace }),
            ],
        )
    }

    pub open spec fn with_default_preset(self, preset: Option<Text>) -> (
        AppView,
        Seq<DesktopActionView>,
    ) {
        let next = AppView {
            desktop_settings: DesktopSettingsView {
                default_preset: preset,
                ..self.desktop_settings
            },
            ..self
        };
        (next, seq![DesktopActionView::Save(next.settings())])
    }

    /// The state at startup: nothing known yet, with the saved defaults selected.
    pub open spec fn started(workspace: Text, settings: SettingsFileView) -> AppView {
        AppView {
            choices: seq![],
            selected_model: 0,
            presets: seq![],
            selected_preset: settings.desktop.default_preset,
            effort: settings.models.default_reasoning_effort,
            transcript: seq![],
            activity: seq![],
            sessions_by_workspace: seq![],
            session_titles: seq![],
            active_session: None,
            run_state: RunState::Idle,
            notice: None,
            draft: seq![],
            connected: false,
            workspace,
            sidebar_filter: seq![],
            sidebar_open: true,
            activity_open: false,
            settings_open: false,
            settings_tab: SettingsTab::General,
            focus_composer: true,
            model_filter: seq![],
            focus_model_search: false,
            models_settings: settings.models,
            desktop_settings: settings.desktop,
        }
    }

    /// A preset that was picked is also the default from then on.
    pub open spec fn with_preset(self, preset: Option<Text>) -> (AppView, Seq<DesktopActionView>) {
        AppView { selected_preset: preset, ..self }.with_default_preset(preset)
    }

    /// The state once the providers are known: connected, with their models and
    /// the default one selected if it is among them.
    pub open spec fn with_providers(self, providers: Seq<ProviderSummaryView>) -> AppView {
        let choices = all_choices(providers);
        let preferred = match self.models_settings.default {
            Some(model) => choice_position(choices, model.provider, model.model),
            None => None,
        };
        AppView {
            connected: true,
            choices,
            selected_model: match preferred {
                Some(i) => i as usize,
                None => self.selected_model,
            },
            ..self
        }.clamped()
    }

    /// The state after a report of the network side. Events of another session
    /// than the active one are not shown.
    pub open spec fn received(self, event: NetEventView) -> AppView {
        match event {
            NetEventView::Providers(providers) => {
                let next = self.with_providers(providers);
                match next.notice {
                    Some(notice) if starts_with(notice, "Starting nexa-server"@) => AppView {
                        notice: None,
                        ..next
                    },
                    _ => next,
                }
            },
            NetEventView::Presets(presets) => AppView { presets, ..self },
            NetEventView::Sessions { workspace, sessions } => AppView {
                sessions_by_workspace: with_workspace_sessions(
                    self.sessions_by_workspace,
                    WorkspaceSessionsView { workspace, sessions },
                ),
                ..self
            },
            NetEventView::SessionReady(id) => AppView {
                active_session: Some(id),
                ..self
            }.logging(ActivityKind::Run, "chat started as "@ + shortened(id)),
            NetEventView::Switched(id) => AppView {
                active_session: Some(id),
                ..self
            }.with_cleared_thread().logging(ActivityKind::Run, "reopened "@ + shortened(id)),
            NetEventView::Event(event) => if self.active_session == Some(event.session_id()) {
                self.applied(event)
            } else {
                self
            },
            NetEventView::Detached => AppView {
                active_session: None,
                ..self
            }.with_cleared_thread(),
            NetEventView::Notice(notice) => self.noticing(notice),
        }
    }

    /// Whether the draft can be sent.
    pub open spec fn can_send(self) -> bool {
        trim(self.draft).len() > 0 && self.choice() is Some
    }

    /// The command that sends the draft.
    pub open spec fn draft_command(self) -> UiCmdView {
        let choice = self.choice()->0;
        UiCmdView::Send {
            workspace: self.workspace,
            model: ModelRefView { provider: choice.provider_id, id: choice.model },
            preset: self.selected_preset,
            effort: self.effort,
            text: self.draft,
        }
    }
}

/// Whether a report names only sessions whose ids can be shortened.
pub open spec fn showable(event: NetEventView) -> bool {
    match event {
        NetEventView::SessionReady(id) => can_shorten(id),
        NetEventView::Switched(id) => can_shorten(id),
        _ => true,
    }
}

fn one_action(action: DesktopAction) -> (r: Vec<DesktopAction>)
    ensures
        views(r@) == seq![action@],
{
    let ghost shown = action@;
    let mut list: Vec<DesktopAction> = Vec::new();
    list.push(action);
    assert(views(list@) =~= seq![shown]);
    list
}

fn no_action() -> (r: Vec<DesktopAction>)
    ensures
        views(r@) == Seq::<DesktopActionView>::empty(),
{
    let list: Vec<DesktopAction> = Vec::new();
    assert(views(list@) =~= Seq::<DesktopActionView>::empty());
    list
}

fn contains_name(list: &Vec<String>, name: &str) -> (r: bool)
    ensures
        r == views(list@).contains(name@),
{
    let mut i: usize = 0;
    while i < list.len()
        invariant
            i <= list@.len(),
            forall|k: int| 0 <= k < i ==> list@[k]@ != name@,
        decreases list@.len() - i,
    {
        if same(&list[i], name) {
            assert(views(list@)[i as int] == name@);
            return true;
        }
        i += 1;
    }
    assert forall|k: int| 0 <= k < list@.len() implies views(list@)[k] != name@ by {
        assert(views(list@)[k] == list@[k]@);
    }
    false
}

impl App {
    /// The state at startup.
    pub fn new(workspace: String, settings: SettingsFile) -> (r: App)
        ensures
            r@ == AppView::started(workspace@, settings@),
            r@.well_formed(),
    {
        let selected_preset = settings.desktop.default_preset.clone();
        let r = App {
            choices: Vec::new(),
            selected_model: 0,
            presets: Vec::new(),
            selected_preset,
            effort: settings.models.default_reasoning_effort,
            transcript: Vec::new(),
            activity: Vec::new(),
            sessions_by_workspace: Vec::new(),
            session_titles: Vec::new(),
            active_session: None,
            run_state: RunState::Idle,
            notice: None,
            draft: String::new(),
            connected: false,
            workspace,
            sidebar_filter: String::new(),
            sidebar_open: true,
            activity_open: false,
            settings_open: false,
            settings_tab: SettingsTab::General,
            focus_composer: true,
            model_filter: String::new(),
            focus_model_search: false,
            models_settings: settings.models,
            desktop_settings: settings.desktop,
        };
        assert(r@.choices =~= seq![]);
        assert(r@.presets =~= seq![]);
        assert(r@.transcript =~= seq![]);
        assert(r@.activity =~= seq![]);
        assert(r@.sessions_by_workspace =~= seq![]);
        assert(r@.session_titles =~= seq![]);
        assert(r@.draft =~= seq![]);
        assert(r@.sidebar_filter =~= seq![]);
        assert(r@.model_filter =~= seq![]);
        r
    }

    /// The active workspace plus every recently used one, most recent first.
    pub fn known_workspaces(&self) -> (r: Vec<String>)
        ensures
            views(r@) == distinct_workspaces(
                self@.workspace,
                self@.desktop_settings.recent_workspaces,
            ),
    {
        let ghost all = self@.desktop_settings.recent_workspaces;
        let recent = &self.desktop_settings.recent_workspaces;
        let mut known: Vec<String> = Vec::new();
        known.push(self.workspace.clone());
        let mut i: usize = 0;
        assert(all.take(0) =~= seq![]);
        assert(views(known@) =~= seq![self@.workspace]);
        while i < recent.len()
            invariant
                i <= recent@.len(),
                all == views(recent@),
                views(known@) == distinct_workspaces(self@.workspace, all.take(i as int)),
            decreases recent@.len() - i,
        {
            assert(all.take(i as int + 1).drop_last() =~= all.take(i as int));
            assert(all.take(i as int + 1).last() == recent@[i as int]@);
            if !contains_name(&known, &recent[i]) {
                let ghost before = views(known@);
                let workspace = recent[i].clone();
                let ghost added = workspace@;
                known.push(workspace);
                assert(views(known@) =~= before.push(added));
            }
            i += 1;
        }
        assert(all.take(recent@.len() as int) =~= all);
        known
    }

    /// The settings as they are to be written.
    pub fn settings(&self) -> (r: SettingsFile)
        ensures
            r@ == self@.settings(),
    {
        SettingsFile {
            models: self.models_settings.clone(),
            desktop: self.desktop_settings.clone(),
        }
    }

    /// Tells of settings that could not be written.
    pub fn save_failed(&mut self, error: &str)
        ensures
            final(self)@ == old(self)@.noticing("could not save settings: "@ + error@),
    {
        self.notice = Some(concat("could not save settings: ", error));
    }

    /// Switches which workspace the next new chat will be created in, remembers
    /// it, persists that choice, and refreshes its session list.
    pub fn select_workspace(&mut self, workspace: String) -> (r: Vec<DesktopAction>)
        ensures
            old(self)@.with_workspace(workspace@) == (final(self)@, views(r@)),
    {
        let ghost name = workspace@;
        self.workspace = workspace.clone();
        self.desktop_settings.active_workspace = Some(workspace.clone());
        self.desktop_settings.remember_workspace(workspace.clone());
        let mut actions = one_action(DesktopAction::Save(self.settings()));
        let ghost before = views(actions@);
        actions.push(DesktopAction::Send(UiCmd::ListSessions { workspace }));
        assert(views(actions@) =~= before.push(
            DesktopActionView::Send(UiCmdView::ListSessions { workspace: name }),
        ));
        assert(views(actions@) =~= old(self)@.with_workspace(name).1);
        actions
    }

    /// Persists the default model and effort chosen in the settings, alongside
    /// whatever else is tracked.
    pub fn set_default_model(&mut self, model: &ModelRef, effort: Option<ReasoningEffort>) -> (r: Vec<
        DesktopAction,
    >)
        ensures
            final(self)@ == old(self)@.with_default_model(model@, effort),
            views(r@) == seq![DesktopActionView::Save(final(self)@.settings())],
    {
        self.models_settings = ModelsSettings {
            default: Some(
                DefaultModel { provider: model.provider.clone(), model: model.id.clone() },
            ),
            default_reasoning_effort: effort,
        };
        one_action(DesktopAction::Save(self.settings()))
    }

    pub fn set_default_preset(&mut self, preset: Option<String>) -> (r: Vec<DesktopAction>)
        ensures
            old(self)@.with_default_preset(opt_view(preset)) == (final(self)@, views(r@)),
    {
        self.desktop_settings.default_preset = preset;
        one_action(DesktopAction::Save(self.settings()))
    }

    /// Selects a preset, or none, for new messages, and persists it as the
    /// default.
    pub fn select_preset(&mut self, preset: Option<String>) -> (r: Vec<DesktopAction>)
        ensures
            old(self)@.with_preset(opt_view(preset)) == (final(self)@, views(r@)),
    {
        self.selected_preset = preset.clone();
        self.set_default_preset(preset)
    }

    /// Persists the current model and effort as the defaults.
    pub fn persist_current_defaults(&mut self) -> (r: Vec<DesktopAction>)
        ensures
            old(self)@.with_current_defaults() == (final(self)@, views(r@)),
    {
        let model = match self.selected_choice() {
            Some(choice) => ModelRef {
                provider: choice.provider_id.clone(),
                id: choice.model.clone(),
            },
            None => {
                return no_action();
            },
        };
        let effort = self.effort;
        self.set_default_model(&model, effort)
    }

    /// Takes the providers, and selects the default model if it is among theirs.
    pub fn set_providers(&mut self, providers: Vec<ProviderSummary>)
        ensures
            final(self)@ == old(self)@.with_providers(views(providers@)),
    {
        self.connected = true;
        self.choices = collect_choices(&providers);
        if let Some(model) = &self.models_settings.default {
            if let Some(index) = position_of_choice(&self.choices, &model.provider, &model.model) {
                self.selected_model = index;
            }
        }
        self.clamp_effort();
    }

    /// Selects a model and persists the choice.
    pub fn select_model(&mut self, index: usize) -> (r: Vec<DesktopAction>)
        ensures
            old(self)@.with_model(index) == (final(self)@, views(r@)),
    {
        if index < self.choices.len() {
            self.selected_model = index;
            self.clamp_effort();
            self.persist_current_defaults()
        } else {
            no_action()
        }
    }

    /// Selects an effort that the model offers, or none, and persists it.
    pub fn select_effort(&mut self, effort: Option<ReasoningEffort>) -> (r: Vec<DesktopAction>)
        ensures
            old(self)@.with_effort(effort) == (final(self)@, views(r@)),
    {
        let accepted = match effort {
            None => true,
            Some(level) => self.offers(level),
        };
        if accepted {
            self.effort = effort;
            self.persist_current_defaults()
        } else {
            no_action()
        }
    }

    fn offers(&self, level: ReasoningEffort) -> (r: bool)
        ensures
            r == self@.offered().contains(level),
    {
        match self.selected_choice() {
            Some(choice) => choice.supports_effort(level),
            None => false,
        }
    }

    /// Drops an effort that the selected model does not offer.
    pub fn clamp_effort(&mut self)
        ensures
            final(self)@ == old(self)@.clamped(),
    {
        if let Some(level) = self.effort {
            if !self.offers(level) {
                self.effort = None;
            }
        }
    }

    /// The levels the current model actually accepts. A declared list is used as
    /// it is; an empty one hides the picker.
    pub fn offered_efforts(&self) -> (r: Vec<ReasoningEffort>)
        ensures
            r@ == self@.offered(),
    {
        match self.selected_choice() {
            Some(choice) => choice.offered_efforts(),
            None => {
                let none: Vec<ReasoningEffort> = Vec::new();
                assert(none@ =~= seq![]);
                none
            },
        }
    }

    pub fn effort_picker_visible(&self) -> (r: bool)
        ensures
            r == (self@.choice() is Some && self@.offered().len() > 0),
    {
        self.selected_choice().is_some() && self.offered_efforts().len() > 0
    }

    pub fn selected_effort(&self) -> (r: Option<ReasoningEffort>)
        ensures
            r == self@.effort,
    {
        self.effort
    }

    /// Adds a line to the activity log; the oldest one goes when it is full.
    pub fn log_activity(&mut self, kind: ActivityKind, text: String)
        requires
            old(self)@.well_formed(),
        ensures
            final(self)@ == old(self)@.logging(kind, text@),
            final(self)@.well_formed(),
    {
        let ghost before = self@.activity;
        let ghost line = ActivityLineView { kind, text: text@ };
        self.activity.push(ActivityLine { kind, text });
        assert(views(self.activity@) =~= before.push(line));
        if self.activity.len() > MAX_ACTIVITY {
            let _ = self.activity.remove(0);
            assert(views(self.activity@) =~= before.push(line).skip(1));
        }
        assert(self@.session_titles == old(self)@.session_titles);
    }

    /// Drops what is shown of the current thread.
    pub fn reset_thread(&mut self)
        ensures
            final(self)@ == old(self)@.with_cleared_thread(),
            old(self)@.well_formed() ==> final(self)@.well_formed(),
    {
        self.transcript = Vec::new();
        self.activity = Vec::new();
        self.run_state = RunState::Idle;
        self.focus_composer = true;
        assert(self@.transcript =~= seq![]);
        assert(self@.activity =~= seq![]);
    }

    fn push_entry(&mut self, entry: TranscriptEntry)
        ensures
            final(self)@ == (AppView {
                transcript: old(self)@.transcript.push(entry@),
                ..old(self)@
            }),
    {
        let ghost before = self@.transcript;
        let ghost added = entry@;
        self.transcript.push(entry);
        assert(self@.transcript =~= before.push(added));
    }

    fn append_assistant_delta(&mut self, run_id: &str, text: &str)
        ensures
            final(self)@ == (AppView {
                transcript: with_text(old(self)@.transcript, run_id@, text@),
                ..old(self)@
            }),
    {
        let ghost before = self@.transcript;
        let mut whole = text.to_owned();
        let size: usize = self.transcript.len();
        if size > 0 {
            assert(before.last() == self.transcript@[size - 1]@);
            let streamed = match &self.transcript[size - 1] {
                TranscriptEntry::Assistant { run_id: owner, text: shown, streaming } => {
                    if *streaming && same(owner, run_id) {
                        Some(shown.clone())
                    } else {
                        None
                    }
                },
                _ => None,
            };
            if let Some(shown) = streamed {
                let _ = self.transcript.pop();
                assert(views(self.transcript@) =~= before.drop_last());
                whole = concat(&shown, text);
            }
        }
        self.push_entry(
            TranscriptEntry::Assistant { run_id: run_id.to_owned(), text: whole, streaming: true },
        );
    }

    fn finalize_assistant(&mut self, run_id: &str, text: &str)
        ensures
            final(self)@ == (AppView {
                transcript: with_answer(old(self)@.transcript, run_id@, text@),
                ..old(self)@
            }),
    {
        let ghost before = self@.transcript;
        let size: usize = self.transcript.len();
        if size > 0 {
            assert(before.last() == self.transcript@[size - 1]@);
            let streamed = match &self.transcript[size - 1] {
                TranscriptEntry::Assistant { run_id: owner, text: shown, .. } => {
                    if same(owner, run_id) {
                        Some(shown.clone())
                    } else {
                        None
                    }
                },
                _ => None,
            };
            if let Some(shown) = streamed {
                let _ = self.transcript.pop();
                assert(views(self.transcript@) =~= before.drop_last());
                let whole = if text.is_empty() {
                    shown
                } else {
                    text.to_owned()
                };
                self.push_entry(
                    TranscriptEntry::Assistant {
                        run_id: run_id.to_owned(),
                        text: whole,
                        streaming: false,
                    },
                );
                return;
            }
        }
        if !text.is_empty() {
            self.push_entry(
                TranscriptEntry::Assistant {
                    run_id: run_id.to_owned(),
                    text: text.to_owned(),
                    streaming: false,
                },
            );
        }
    }

    fn finish_tool(&mut self, call: &str, content: &str, is_error: bool)
        ensures
            final(self)@ == (AppView {
                transcript: with_result(old(self)@.transcript, call@, content@, is_error),
                ..old(self)@
            }),
    {
        let ghost all = self@.transcript;
        let ghost target = with_result(all, call@, content@, is_error);
        let mut i: usize = self.transcript.len();
        assert(all.take(i as int) =~= all);
        assert(target =~= with_result(all.take(i as int), call@, content@, is_error) + all.skip(
            i as int,
        ));
        while i > 0
            invariant
                i <= self.transcript@.len(),
                all == self@.transcript,
                *self == *old(self),
                target == with_result(all, call@, content@, is_error),
                target == with_result(all.take(i as int), call@, content@, is_error) + all.skip(
                    i as int,
                ),
            decreases i,
        {
            let ghost front = all.take(i as int);
            assert(front.last() == self.transcript@[i - 1]@);
            assert(front.drop_last() =~= all.take(i - 1));
            let found = match &self.transcript[i - 1] {
                TranscriptEntry::Tool { call_id, name, arguments, .. } => {
                    if same(call_id, call) {
                        Some((call_id.clone(), name.clone(), arguments.clone()))
                    } else {
                        None
                    }
                },
                _ => None,
            };
            if let Some((call_id, name, arguments)) = found {
                let entry = TranscriptEntry::Tool {
                    call_id,
                    name,
                    arguments,
                    result: Some(content.to_owned()),
                    failed: is_error,
                };
                let ghost added = entry@;
                self.transcript.set(i - 1, entry);
                assert(self@.transcript =~= all.update(i - 1, added));
                assert(front.drop_last().push(added) + all.skip(i as int) =~= all.update(
                    i - 1,
                    added,
                ));
                return;
            }
            assert(with_result(front, call@, content@, is_error) + all.skip(i as int)
                =~= with_result(all.take(i - 1), call@, content@, is_error) + all.skip(i - 1));
            i -= 1;
        }
        assert(with_result(all.take(0), call@, content@, is_error) + all.skip(0) =~= all);
    }

    fn settle_end(&mut self)
        ensures
            final(self)@ == (AppView {
                transcript: with_settled_end(old(self)@.transcript),
                ..old(self)@
            }),
    {
        let ghost before = self@.transcript;
        let size: usize = self.transcript.len();
        if size == 0 {
            return;
        }
        assert(before.last() == self.transcript@[size - 1]@);
        let ended = match &self.transcript[size - 1] {
            TranscriptEntry::Assistant { run_id, text, .. } => Some((run_id.clone(), text.clone())),
            _ => None,
        };
        if let Some((run_id, text)) = ended {
            let _ = self.transcript.pop();
            assert(views(self.transcript@) =~= before.drop_last());
            self.push_entry(TranscriptEntry::Assistant { run_id, text, streaming: false });
        }
    }

    fn log_calls(&mut self, calls: &Vec<ToolCall>)
        requires
            old(self)@.well_formed(),
        ensures
            final(self)@ == old(self)@.with_logged_calls(views(calls@)),
            final(self)@.well_formed(),
    {
        let ghost all = views(calls@);
        let ghost start = self@;
        let mut i: usize = 0;
        assert(all.take(0) =~= seq![]);
        while i < calls.len()
            invariant
                i <= calls@.len(),
                all == views(calls@),
                start == old(self)@,
                self@ == start.with_logged_calls(all.take(i as int)),
                self@.well_formed(),
            decreases calls@.len() - i,
        {
            assert(all.take(i as int + 1).drop_last() =~= all.take(i as int));
            assert(all.take(i as int + 1).last() == calls@[i as int]@);
            self.log_activity(
                ActivityKind::Tool,
                concat3(&calls[i].name, " ", &calls[i].arguments),
            );
            i += 1;
        }
        assert(all.take(calls@.len() as int) =~= all);
    }

    fn show_message(&mut self, model: &ModelRef, text: &String)
        requires
            old(self)@.well_formed(),
        ensures
            final(self)@ == ({
                let next = AppView {
                    transcript: old(self)@.transcript.push(
                        TranscriptEntryView::User { text: text@ },
                    ),
                    ..old(self)@
                };
                let titled = match old(self)@.active_session {
                    Some(id) => next.with_title(id, text@),
                    None => next,
                };
                titled.logging(
                    ActivityKind::User,
                    model@.provider + " / "@ + model@.id + ": "@ + text@,
                )
            }),
            final(self)@.well_formed(),
    {
        self.push_entry(TranscriptEntry::User { text: text.clone() });
        let active = self.active_session.clone();
        if let Some(id) = active {
            self.remember_title(&id, text);
        }
        let mut line = concat3(&model.provider, " / ", &model.id);
        line.push_str(": ");
        line.push_str(text);
        self.log_activity(ActivityKind::User, line);
    }

    fn show_run_start(&mut self, model: &ModelRef, effort: Option<ReasoningEffort>)
        requires
            old(self)@.well_formed(),
        ensures
            final(self)@ == (AppView { run_state: RunState::Running, ..old(self)@ }).logging(
                ActivityKind::Run,
                model@.provider + " / "@ + model@.id + " · "@ + effort_word(effort),
            ),
            final(self)@.well_formed(),
    {
        self.run_state = RunState::Running;
        let mut line = concat3(&model.provider, " / ", &model.id);
        line.push_str(" · ");
        match effort {
            Some(level) => {
                line.push_str(level.as_str());
            },
            None => {
                line.push_str("default");
            },
        }
        self.log_activity(ActivityKind::Run, line);
    }

    fn show_call(&mut self, call: &ToolCall)
        requires
            old(self)@.well_formed(),
        ensures
            final(self)@ == (AppView {
                transcript: old(self)@.transcript.push(
                    TranscriptEntryView::Tool {
                        call_id: call@.id,
                        name: call@.name,
                        arguments: call@.arguments,
                        result: None,
                        failed: false,
                    },
                ),
                ..old(self)@
            }).logging(ActivityKind::Tool, call@.name + " started"@),
            final(self)@.well_formed(),
    {
        self.push_entry(
            TranscriptEntry::Tool {
                call_id: call.id.clone(),
                name: call.name.clone(),
                arguments: call.arguments.clone(),
                result: None,
                failed: false,
            },
        );
        self.log_activity(ActivityKind::Tool, concat(&call.name, " started"));
    }

    /// Shows one entry of the session's stream.
    #[verifier::spinoff_prover]
    #[verifier::rlimit(50)]
    pub fn apply_event(&mut self, event: &Event)
        requires
            old(self)@.well_formed(),
        ensures
            final(self)@ == old(self)@.applied(event@),
            final(self)@.well_formed(),
    {
        match event {
            Event::Message { text, model, .. } => {
                self.show_message(model, text);
            },
            Event::RunStarted { model, reasoning_effort, .. } => {
                self.show_run_start(model, *reasoning_effort);
            },
            Event::AssistantTextDelta { run_id, text, .. } => {
                self.append_assistant_delta(run_id, text);
            },
            Event::AssistantMessage { run_id, text, tool_calls, .. } => {
                self.finalize_assistant(run_id, text);
                self.log_calls(tool_calls);
            },
            Event::ToolCallStarted { call, .. } => {
                self.show_call(call);
            },
            Event::ToolCallCompleted { result, .. } => {
                self.finish_tool(&result.tool_call_id, &result.content, result.is_error);
                let line = if result.is_error {
                    "tool failed".to_owned()
                } else {
                    "tool done".to_owned()
                };
                self.log_activity(ActivityKind::Tool, line);
            },
            Event::RunCompleted { .. } => {
                self.run_state = RunState::Idle;
                self.settle_end();
                self.log_activity(ActivityKind::Done, "run completed".to_owned());
            },
            Event::RunFailed { error, .. } => {
                self.run_state = RunState::Failed;
                self.push_entry(TranscriptEntry::Error { text: error.clone() });
                self.log_activity(ActivityKind::Error, error.clone());
            },
        }
    }

    fn find_title(&self, session_id: &str) -> (r: Option<usize>)
        ensures
            r is Some <==> title_in(self@.session_titles, session_id@) is Some,
            r matches Some(i) ==> i < self.session_titles@.len() && title_in(
                self@.session_titles,
                session_id@,
            ) == Some(self@.session_titles[i as int].title),
            r is None ==> forall|k: int|
                0 <= k < self@.session_titles.len() ==> (
                #[trigger] self@.session_titles[k]).session_id != session_id@,
    {
        let ghost all = self@.session_titles;
        let mut i: usize = 0;
        let mut found: Option<usize> = None;
        assert(all.take(0) =~= seq![]);
        while i < self.session_titles.len()
            invariant
                i <= self.session_titles@.len(),
                all == self@.session_titles,
                found is Some <==> title_in(all.take(i as int), session_id@) is Some,
                found matches Some(k) ==> k < i && title_in(all.take(i as int), session_id@)
                    == Some(all[k as int].title),
                found is None ==> forall|k: int|
                    0 <= k < i ==> (#[trigger] all[k]).session_id != session_id@,
            decreases self.session_titles@.len() - i,
        {
            assert(all.take(i as int + 1).drop_last() =~= all.take(i as int));
            assert(all.take(i as int + 1).last() == self.session_titles@[i as int]@);
            assert(all[i as int] == self.session_titles@[i as int]@);
            if found.is_none() && same(&self.session_titles[i].session_id, session_id) {
                found = Some(i);
            }
            i += 1;
        }
        assert(all.take(all.len() as int) =~= all);
        found
    }

    fn remember_title(&mut self, session_id: &str, text: &str)
        requires
            old(self)@.well_formed(),
        ensures
            final(self)@ == old(self)@.with_title(session_id@, text@),
            final(self)@.well_formed(),
    {
        if self.find_title(session_id).is_none() {
            let ghost before = self@.session_titles;
            let added = SessionTitle {
                session_id: session_id.to_owned(),
                title: title_from_message(text),
            };
            let ghost row = added@;
            self.session_titles.push(added);
            assert(self@.session_titles =~= before.push(row));
        }
    }

    /// The title of a session.
    pub fn session_title(&self, session_id: &str) -> (r: String)
        ensures
            r@ == match title_in(self@.session_titles, session_id@) {
                Some(title) => title,
                None => "New chat"@,
            },
    {
        match self.find_title(session_id) {
            Some(i) => self.session_titles[i].title.clone(),
            None => "New chat".to_owned(),
        }
    }

    /// The title of the open thread.
    pub fn thread_title(&self) -> (r: String)
        ensures
            r@ == match self@.active_session {
                Some(id) => match title_in(self@.session_titles, id) {
                    Some(title) => title,
                    None => "New chat"@,
                },
                None => "New chat"@,
            },
    {
        match &self.active_session {
            Some(id) => self.session_title(id),
            None => "New chat".to_owned(),
        }
    }

    pub fn selected_choice(&self) -> (r: Option<&ModelChoice>)
        ensures
            match r {
                Some(choice) => self@.choice() == Some(choice@),
                None => self@.choice() is None,
            },
    {
        if self.selected_model < self.choices.len() {
            Some(&self.choices[self.selected_model])
        } else {
            None
        }
    }

    pub fn has_streaming_assistant(&self) -> (r: bool)
        ensures
            r == (self@.transcript.len() > 0 && (
            self@.transcript.last() matches TranscriptEntryView::Assistant { streaming, .. }
                && streaming)),
    {
        let size: usize = self.transcript.len();
        if size == 0 {
            return false;
        }
        assert(self@.transcript.last() == self.transcript@[size - 1]@);
        match &self.transcript[size - 1] {
            TranscriptEntry::Assistant { streaming, .. } => *streaming,
            _ => false,
        }
    }

    /// Replaces or inserts the sessions of one workspace in the sidebar's tree.
    pub fn set_workspace_sessions(&mut self, workspace: String, sessions: Vec<SessionSummary>)
        requires
            old(self)@.well_formed(),
        ensures
            final(self)@ == (AppView {
                sessions_by_workspace: with_workspace_sessions(
                    old(self)@.sessions_by_workspace,
                    WorkspaceSessionsView { workspace: workspace@, sessions: views(sessions@) },
                ),
                ..old(self)@
            }),
            final(self)@.well_formed(),
    {
        let ghost all = self@.sessions_by_workspace;
        let ghost row = WorkspaceSessionsView {
            workspace: workspace@,
            sessions: views(sessions@),
        };
        let entry = WorkspaceSessions { workspace, sessions };
        let ghost target = with_workspace_sessions(all, row);
        let mut i: usize = 0;
        assert(all.skip(0) =~= all);
        assert(target =~= all.take(0) + with_workspace_sessions(all.skip(0), row));
        proof {
            tree_keeps_its_workspaces(all, row);
        }
        while i < self.sessions_by_workspace.len()
            invariant
                i <= self.sessions_by_workspace@.len(),
                all == self@.sessions_by_workspace,
                *self == *old(self),
                row == entry@,
                row == (WorkspaceSessionsView {
                    workspace: workspace@,
                    sessions: views(sessions@),
                }),
                old(self)@.well_formed(),
                target == with_workspace_sessions(all, row),
                target == all.take(i as int) + with_workspace_sessions(all.skip(i as int), row),
                forall|a: int, b: int|
                    0 <= a < b < target.len() ==> (#[trigger] target[a]).workspace != (
                    #[trigger] target[b]).workspace,
            decreases self.sessions_by_workspace@.len() - i,
        {
            assert(all.skip(i as int)[0] == self.sessions_by_workspace@[i as int]@);
            if same(&self.sessions_by_workspace[i].workspace, &entry.workspace) {
                self.sessions_by_workspace.set(i, entry);
                assert(self@.sessions_by_workspace =~= all.update(i as int, row));
                assert(all.take(i as int) + all.skip(i as int).update(0, row) =~= all.update(
                    i as int,
                    row,
                ));
                return;
            }
            assert(all.skip(i as int).skip(1) =~= all.skip(i as int + 1));
            assert(all.take(i as int) + (seq![all[i as int]] + with_workspace_sessions(
                all.skip(i as int + 1),
                row,
            )) =~= all.take(i as int + 1) + with_workspace_sessions(all.skip(i as int + 1), row));
            i += 1;
        }
        self.sessions_by_workspace.push(entry);
        assert(self@.sessions_by_workspace =~= all.push(row));
        assert(all.take(all.len() as int) + seq![row] =~= all.push(row));
    }

    fn receive_providers(&mut self, providers: Vec<ProviderSummary>)
        requires
            old(self)@.well_formed(),
        ensures
            final(self)@ == old(self)@.received(NetEventView::Providers(views(providers@))),
            final(self)@.well_formed(),
    {
        self.set_providers(providers);
        let started = match &self.notice {
            Some(notice) => has_prefix(notice, "Starting nexa-server"),
            None => false,
        };
        if started {
            self.notice = None;
        }
    }

    fn open_session(&mut self, id: String, replayed: bool)
        requires
            old(self)@.well_formed(),
            can_shorten(id@),
        ensures
            final(self)@ == old(self)@.received(
                if replayed {
                    NetEventView::Switched(id@)
                } else {
                    NetEventView::SessionReady(id@)
                },
            ),
            final(self)@.well_formed(),
    {
        let shown = short_id(&id);
        self.active_session = Some(id);
        let line = if replayed {
            self.reset_thread();
            concat("reopened ", &shown)
        } else {
            concat("chat started as ", &shown)
        };
        self.log_activity(ActivityKind::Run, line);
    }

    fn receive_event(&mut self, event: Event)
        requires
            old(self)@.well_formed(),
        ensures
            final(self)@ == old(self)@.received(NetEventView::Event(event@)),
            final(self)@.well_formed(),
    {
        let active = match &self.active_session {
            Some(id) => same(id, event.session_id()),
            None => false,
        };
        if active {
            self.apply_event(&event);
        }
    }

    /// Takes a report of the network side.
    #[verifier::spinoff_prover]
    #[verifier::rlimit(50)]
    pub fn receive(&mut self, event: NetEvent)
        requires
            old(self)@.well_formed(),
            showable(event@),
        ensures
            final(self)@ == old(self)@.received(event@),
            final(self)@.well_formed(),
    {
        match event {
            NetEvent::Providers(providers) => {
                self.receive_providers(providers);
            },
            NetEvent::Presets(presets) => {
                self.presets = presets;
            },
            NetEvent::Sessions { workspace, sessions } => {
                self.set_workspace_sessions(workspace, sessions);
            },
            NetEvent::SessionReady(id) => {
                self.open_session(id, false);
            },
            NetEvent::Switched(id) => {
                self.open_session(id, true);
            },
            NetEvent::Event(event) => {
                self.receive_event(event);
            },
            NetEvent::Detached => {
                self.active_session = None;
                self.reset_thread();
            },
            NetEvent::Notice(notice) => {
                self.notice = Some(notice);
            },
        }
    }

    /// Whether the draft can be sent.
    pub fn can_send(&self) -> (r: bool)
        ensures
            r == self@.can_send(),
    {
        !is_blank(&self.draft) && self.selected_choice().is_some()
    }

    /// Whether the composer sends the draft now: Enter without Shift and without
    /// the command key, or a click on the button, and a draft that can be sent.
    pub fn sends(&self, enter: bool, shift: bool, command: bool, clicked: bool) -> (r: bool)
        ensures
            r == (((enter && !shift && !command) || clicked) && self@.can_send()),
    {
        ((enter && !shift && !command) || clicked) && self.can_send()
    }

    /// Takes the draft out of the composer to send it.
    pub fn send_draft(&mut self) -> (r: UiCmd)
        requires
            old(self)@.choice() is Some,
        ensures
            r@ == old(self)@.draft_command(),
            final(self)@ == (AppView { draft: seq![], notice: None, ..old(self)@ }),
    {
        let choice = &self.choices[self.selected_model];
        let model = ModelRef { provider: choice.provider_id.clone(), id: choice.model.clone() };
        let mut text = String::new();
        assert(text@ =~= seq![]);
        core::mem::swap(&mut text, &mut self.draft);
        self.notice = None;
        UiCmd::Send {
            workspace: self.workspace.clone(),
            model,
            preset: self.selected_preset.clone(),
            effort: self.effort,
            text,
        }
    }
}

/// The tree keeps one entry for each workspace.
proof fn tree_keeps_its_workspaces(tree: Seq<WorkspaceSessionsView>, entry: WorkspaceSessionsView)
    requires
        forall|i: int, j: int|
            0 <= i < j < tree.len() ==> (#[trigger] tree[i]).workspace != (
            #[trigger] tree[j]).workspace,
    ensures
        ({
            let next = with_workspace_sessions(tree, entry);
            &&& forall|i: int, j: int|
                0 <= i < j < next.len() ==> (#[trigger] next[i]).workspace != (
                #[trigger] next[j]).workspace
            &&& forall|i: int|
                0 <= i < next.len() ==> (#[trigger] next[i]) == entry || tree.contains(next[i])
        }),
    decreases tree.len(),
{
    let next = with_workspace_sessions(tree, entry);
    if tree.len() > 0 {
        if tree[0].workspace == entry.workspace {
            assert forall|i: int| 0 <= i < next.len() implies (#[trigger] next[i]) == entry
                || tree.contains(next[i]) by {
                if i > 0 {
                    assert(next[i] == tree[i]);
                }
            }
        } else {
            let rest = tree.skip(1);
            tree_keeps_its_workspaces(rest, entry);
            let tail = with_workspace_sessions(rest, entry);
            assert forall|i: int| 0 <= i < next.len() implies (#[trigger] next[i]) == entry
                || tree.contains(next[i]) by {
                if i > 0 {
                    assert(next[i] == tail[i - 1]);
                    if tail[i - 1] != entry {
                        let k = choose|k: int| 0 <= k < rest.len() && rest[k] == tail[i - 1];
                        assert(tree[k + 1] == next[i]);
                    }
                } else {
                    assert(next[0] == tree[0]);
                }
            }
            assert forall|i: int, j: int| 0 <= i < j < next.len() implies (
            #[trigger] next[i]).workspace != (#[trigger] next[j]).workspace by {
                assert(next[j] == tail[j - 1]);
                if i > 0 {
                    assert(next[i] == tail[i - 1]);
                } else {
                    assert(next[0] == tree[0]);
                    if tail[j - 1] != entry {
                        let k = choose|k: int| 0 <= k < rest.len() && rest[k] == tail[j - 1];
                        assert(tree[k + 1] == tail[j - 1]);
                    }
                }
            }
        }
    }
}

/// A final answer takes the place of what was streamed of it: nothing is shown
/// twice, and the answer is no longer marked as streamed.
pub proof fn final_answers_replace_drafts(
    transcript: Seq<TranscriptEntryView>,
    run: Text,
    streamed: Text,
    text: Text,
)
    ensures
        ({
            let shown = with_text(transcript, run, streamed);
            let finished = with_answer(shown, run, text);
            &&& finished.len() == shown.len()
            &&& finished.drop_last() == shown.drop_last()
            &&& finished.last() matches TranscriptEntryView::Assistant {
                run_id,
                text: answer,
                streaming,
            }
            &&& run_id == run && !streaming
            &&& text.len() > 0 ==> answer == text
            &&& text.len() == 0 ==> answer == shown.last()->Assistant_text
        }),
{
    let shown = with_text(transcript, run, streamed);
    let finished = with_answer(shown, run, text);
    assert(finished.drop_last() =~= shown.drop_last());
}

/// It does not matter into how many pieces streamed text was cut.
pub proof fn streamed_pieces_join(
    transcript: Seq<TranscriptEntryView>,
    run: Text,
    first: Text,
    second: Text,
)
    ensures
        with_text(with_text(transcript, run, first), run, second) == with_text(
            transcript,
            run,
            first + second,
        ),
{
    let shown = with_text(transcript, run, first);
    if has_draft(transcript, run) {
        assert(shown.drop_last() =~= transcript.drop_last());
        let draft = transcript.last()->Assistant_text;
        assert(draft + first + second =~= draft + (first + second));
    } else {
        assert(shown.drop_last() =~= transcript);
    }
}

/// A finished tool call changes its own card alone.
pub proof fn tool_cards_are_updated_in_place(
    transcript: Seq<TranscriptEntryView>,
    call: Text,
    content: Text,
    is_error: bool,
)
    ensures
        with_result(transcript, call, content, is_error).len() == transcript.len(),
        forall|i: int|
            0 <= i < transcript.len() && !(transcript[i] matches TranscriptEntryView::Tool {
                call_id,
                ..
            } && call_id == call) ==> #[trigger] with_result(
                transcript,
                call,
                content,
                is_error,
            )[i] == transcript[i],
    decreases transcript.len(),
{
    if transcript.len() > 0 {
        tool_cards_are_updated_in_place(transcript.drop_last(), call, content, is_error);
        let result = with_result(transcript, call, content, is_error);
        assert forall|i: int|
            0 <= i < transcript.len() && !(transcript[i] matches TranscriptEntryView::Tool {
                call_id,
                ..
            } && call_id == call) implies #[trigger] result[i] == transcript[i] by {
            if i < transcript.len() - 1 {
                assert(transcript.drop_last()[i] == transcript[i]);
            }
        }
    }
}

proof fn logging_keeps_titles(app: AppView, calls: Seq<ToolCallView>)
    ensures
        app.with_logged_calls(calls).session_titles == app.session_titles,
    decreases calls.len(),
{
    if calls.len() > 0 {
        logging_keeps_titles(app, calls.drop_last());
    }
}

/// The first message of a session gives it its title, and no later event
/// changes it.
pub proof fn titles_stay(app: AppView, event: EventView, session: Text)
    ensures
        title_in(app.session_titles, session) is Some ==> title_in(
            app.applied(event).session_titles,
            session,
        ) == title_in(app.session_titles, session),
        event matches EventView::Message { text, .. } ==> (app.active_session == Some(session)
            && title_in(app.session_titles, session) is None ==> title_in(
            app.applied(event).session_titles,
            session,
        ) == Some(title_of(text))),
{
    match event {
        EventView::Message { text, .. } => {
            if let Some(id) = app.active_session {
                let titles = app.session_titles;
                let added = SessionTitleView { session_id: id, title: title_of(text) };
                assert(titles.push(added).drop_last() =~= titles);
            }
        },
        EventView::AssistantMessage { run_id, text, tool_calls, .. } => {
            let next = AppView {
                transcript: with_answer(app.transcript, run_id, text),
                ..app
            };
            logging_keeps_titles(next, tool_calls);
        },
        _ => {},
    }
}

/// Events of another session than the open one are not shown.
pub proof fn other_sessions_stay_hidden(app: AppView, event: EventView)
    requires
        app.active_session != Some(event.session_id()),
    ensures
        app.received(NetEventView::Event(event)) == app,
{
}

/// Whatever is picked, an effort that stays selected is one that the selected
/// model offers.
pub proof fn selected_efforts_are_offered(
    app: AppView,
    index: usize,
    effort: Option<ReasoningEffort>,
    providers: Seq<ProviderSummaryView>,
)
    ensures
        app.clamped().effort matches Some(level) ==> app.clamped().offered().contains(level),
        index < app.choices.len() ==> (app.with_model(index).0.effort matches Some(level)
            ==> app.with_model(index).0.offered().contains(level)),
        app.with_providers(providers).effort matches Some(level) ==> app.with_providers(
            providers,
        ).offered().contains(level),
        app.with_effort(effort).0.effort == app.effort || app.with_effort(effort).0.effort
            == effort && (effort matches Some(level) ==> app.offered().contains(level)),
{
}

proof fn position_names_its_choice(choices: Seq<ModelChoiceView>, provider: Text, model: Text)
    ensures
        match choice_position(choices, provider, model) {
            Some(i) => 0 <= i < choices.len() && choices[i].provider_id == provider
                && choices[i].model == model,
            None => forall|k: int|
                0 <= k < choices.len() ==> !((#[trigger] choices[k]).provider_id == provider
                    && choices[k].model == model),
        },
    decreases choices.len(),
{
    if choices.len() > 0 {
        position_names_its_choice(choices.drop_last(), provider, model);
        assert forall|k: int| 0 <= k < choices.len() - 1 implies choices[k]
            == choices.drop_last()[k] by {}
    }
}

/// A model that was picked is written to the settings, and a client started
/// with them selects it again as long as the providers still list it.
pub proof fn picked_models_survive_a_restart(
    app: AppView,
    index: usize,
    restarted: AppView,
    providers: Seq<ProviderSummaryView>,
)
    requires
        index < app.choices.len() <= usize::MAX,
        app.choices == all_choices(providers),
        restarted.models_settings == app.with_model(index).0.models_settings,
    ensures
        app.with_model(index).1 == seq![
            DesktopActionView::Save(app.with_model(index).0.settings()),
        ],
        restarted.with_providers(providers).choice() matches Some(choice) && choice.provider_id
            == app.choices[index as int].provider_id && choice.model
            == app.choices[index as int].model,
{
    let wanted = app.choices[index as int];
    position_names_its_choice(app.choices, wanted.provider_id, wanted.model);
}

/// A preset that was picked goes with the next messages, is written to the
/// settings, and is selected again by a client started with them.
pub proof fn picked_presets_survive_a_restart(app: AppView, preset: Option<Text>, workspace: Text)
    ensures
        ({
            let (next, actions) = app.with_preset(preset);
            &&& next.selected_preset == preset
            &&& actions == seq![DesktopActionView::Save(next.settings())]
            &&& AppView::started(workspace, next.settings()).selected_preset == preset
        }),
{
}

/// The known workspaces begin with the active one, name none twice, and hold
/// every recent one.
pub proof fn known_workspaces_are_distinct(first: Text, recent: Seq<Text>)
    ensures
        distinct_workspaces(first, recent).len() > 0,
        distinct_workspaces(first, recent)[0] == first,
        distinct_workspaces(first, recent).no_duplicates(),
        forall|i: int|
            0 <= i < recent.len() ==> distinct_workspaces(first, recent).contains(
                #[trigger] recent[i],
            ),
    decreases recent.len(),
{
    if recent.len() > 0 {
        let front = recent.drop_last();
        known_workspaces_are_distinct(first, front);
        let before = distinct_workspaces(first, front);
        let after = distinct_workspaces(first, recent);
        assert forall|i: int| 0 <= i < recent.len() implies after.contains(
            #[trigger] recent[i],
        ) by {
            if i < front.len() {
                assert(recent[i] == front[i]);
                let k = choose|k: int| 0 <= k < before.len() && before[k] == front[i];
                assert(after[k] == recent[i]);
            } else if !before.contains(recent.last()) {
                assert(after.last() == recent.last());
            }
        }
    }
}

/// What was typed goes out as it is, once, and only when a model is selected.
pub proof fn drafts_are_sent_as_typed(app: AppView)
    requires
        app.can_send(),
    ensures
        app.draft_command() matches UiCmdView::Send { workspace, text, effort, .. } && workspace
            == app.workspace && text == app.draft && effort == app.effort,
        !(AppView { draft: seq![], notice: None, ..app }).can_send(),
{
}

/// Switching projects never disturbs an open thread: only where the next new chat
/// is created changes, and what is remembered of it.
pub proof fn switching_projects_keeps_the_thread(app: AppView, workspace: Text)
    ensures
        ({
            let (next, actions) = app.with_workspace(workspace);
            &&& next.workspace == workspace
            &&& next.transcript == app.transcript
            &&& next.active_session == app.active_session
            &&& next.run_state == app.run_state
            &&& next.activity == app.activity
            &&& next.draft == app.draft
            &&& next.notice == app.notice
            &&& next.choice() == app.choice()
            &&& next.effort == app.effort
            &&& next.selected_preset == app.selected_preset
            &&& next.session_titles == app.session_titles
            &&& forall|i: int|
                0 <= i < actions.len() ==> (#[trigger] actions[i] is Save || actions[i]
                    == DesktopActionView::Send(UiCmdView::ListSessions { workspace }))
        }),
{
}

/// The workspace that the client starts in: the one that was active last, or
/// another one if none was.
pub open spec fn first_workspace(settings: SettingsFileView, fallback: Text) -> Text {
    match settings.desktop.active_workspace {
        Some(workspace) => workspace,
        None => fallback,
    }
}

/// The workspace that the client starts in.
pub fn starting_workspace(settings: &SettingsFile, fallback: String) -> (r: String)
    ensures
        r@ == first_workspace(settings@, fallback@),
{
    match &settings.desktop.active_workspace {
        Some(workspace) => workspace.clone(),
        None => fallback,
    }
}

/// A project that was switched to is the active one after a restart, and the most
/// recent one; what else was remembered stays.
pub proof fn projects_are_remembered(app: AppView, workspace: Text, fallback: Text)
    ensures
        ({
            let (next, actions) = app.with_workspace(workspace);
            let saved = next.settings();
            &&& actions[0] == DesktopActionView::Save(saved)
            &&& first_workspace(saved, fallback) == workspace
            &&& saved.desktop.recent_workspaces.len() > 0
            &&& saved.desktop.recent_workspaces[0] == workspace
            &&& saved.desktop.default_preset == app.settings().desktop.default_preset
            &&& saved.models == app.settings().models
        }),
{
}

/// A draft goes out with the workspace, the selected model, preset and effort and
/// the text just as they stand when it is sent.
pub proof fn drafts_carry_the_selection(app: AppView)
    requires
        app.can_send(),
    ensures
        app.selected_model < app.choices.len(),
        app.draft_command() == (UiCmdView::Send {
            workspace: app.workspace,
            model: ModelRefView {
                provider: app.choices[app.selected_model as int].provider_id,
                id: app.choices[app.selected_model as int].model,
            },
            preset: app.selected_preset,
            effort: app.effort,
            text: app.draft,
        }),
{
}

/// Whether two states hold the same selection, settings and draft.
pub open spec fn selects_the_same(app: AppView, other: AppView) -> bool {
    &&& app.choices == other.choices
    &&& app.selected_model == other.selected_model
    &&& app.presets == other.presets
    &&& app.selected_preset == other.selected_preset
    &&& app.effort == other.effort
    &&& app.draft == other.draft
    &&& app.workspace == other.workspace
    &&& app.models_settings == other.models_settings
    &&& app.desktop_settings == other.desktop_settings
    &&& app.sessions_by_workspace == other.sessions_by_workspace
    &&& app.active_session == other.active_session
    &&& app.connected == other.connected
    &&& app.notice == other.notice
}

proof fn logged_calls_change_the_log_alone(app: AppView, calls: Seq<ToolCallView>)
    ensures
        selects_the_same(app, app.with_logged_calls(calls)),
        app.with_logged_calls(calls).transcript == app.transcript,
        app.with_logged_calls(calls).run_state == app.run_state,
    decreases calls.len(),
{
    if calls.len() > 0 {
        logged_calls_change_the_log_alone(app, calls.drop_last());
    }
}

/// What a session tells is shown: a message, a started tool call and a failure
/// are added to the transcript as they are, streamed text goes behind what was
/// streamed of the same answer, and the end of a run keeps every text. None of it
/// touches what the user has selected or typed.
pub proof fn the_session_is_shown(app: AppView, event: EventView)
    ensures
        selects_the_same(app, app.applied(event)),
        event matches EventView::Message { text, .. } ==> app.applied(event).transcript
            == app.transcript.push(TranscriptEntryView::User { text }),
        event matches EventView::AssistantTextDelta { run_id, text, .. } ==> ({
            let shown = app.applied(event).transcript;
            let before = app.transcript;
            ||| shown == before.push(
                TranscriptEntryView::Assistant { run_id, text, streaming: true },
            ) && (before.len() > 0 ==> !(before.last() matches TranscriptEntryView::Assistant {
                run_id: other,
                streaming,
                ..
            } && other == run_id && streaming))
            ||| exists|earlier: Text|
                before.len() > 0 && before.last() == (TranscriptEntryView::Assistant {
                    run_id,
                    text: earlier,
                    streaming: true,
                }) && shown == #[trigger] before.drop_last().push(
                    TranscriptEntryView::Assistant {
                        run_id,
                        text: earlier + text,
                        streaming: true,
                    },
                )
        }),
        event matches EventView::ToolCallStarted { call, .. } ==> app.applied(event).transcript
            == app.transcript.push(
            TranscriptEntryView::Tool {
                call_id: call.id,
                name: call.name,
                arguments: call.arguments,
                result: None,
                failed: false,
            },
        ),
        event matches EventView::RunFailed { error, .. } ==> app.applied(event).transcript
            == app.transcript.push(TranscriptEntryView::Error { text: error }),
        event is RunStarted ==> app.applied(event).transcript == app.transcript,
        event is RunCompleted ==> ({
            let shown = app.applied(event).transcript;
            &&& shown.len() == app.transcript.len()
            &&& forall|i: int|
                0 <= i < shown.len() ==> #[trigger] shown[i] == app.transcript[i] || i
                    == shown.len() - 1 && (app.transcript[i] matches TranscriptEntryView::Assistant {
                    run_id,
                    text,
                    ..
                } && shown[i] == (TranscriptEntryView::Assistant {
                    run_id,
                    text,
                    streaming: false,
                }))
            &&& shown.len() > 0 && (shown.last() matches TranscriptEntryView::Assistant {
                streaming,
                ..
            } && streaming) ==> !(app.transcript.last() is Assistant)
        }),
{
    match event {
        EventView::AssistantMessage { run_id, text, tool_calls, .. } => {
            let next = AppView {
                transcript: with_answer(app.transcript, run_id, text),
                ..app
            };
            logged_calls_change_the_log_alone(next, tool_calls);
        },
        EventView::AssistantTextDelta { run_id, text, .. } => {
            if has_draft(app.transcript, run_id) {
                let earlier = app.transcript.last()->Assistant_text;
                assert(app.applied(event).transcript == app.transcript.drop_last().push(
                    TranscriptEntryView::Assistant {
                        run_id,
                        text: earlier + text,
                        streaming: true,
                    },
                ));
            }
        },
        _ => {},
    }
}

/// The run's state follows what is told of the run, and nothing else changes it.
pub proof fn the_run_is_followed(app: AppView, event: EventView)
    ensures
        app.applied(event).run_state == if event is RunStarted {
            RunState::Running
        } else if event is RunCompleted {
            RunState::Idle
        } else if event is RunFailed {
            RunState::Failed
        } else {
            app.run_state
        },
{
    if let EventView::AssistantMessage { run_id, text, tool_calls, .. } = event {
        let next = AppView { transcript: with_answer(app.transcript, run_id, text), ..app };
        logged_calls_change_the_log_alone(next, tool_calls);
    }
}

/// The final text of an answer is shown whether or not any of it was streamed, and
/// stands in the place of what was streamed.
pub proof fn final_answers_are_shown(app: AppView, event: EventView)
    requires
        event is AssistantMessage,
        event->AssistantMessage_text.len() > 0,
    ensures
        ({
            let run_id = event->AssistantMessage_run_id;
            let text = event->AssistantMessage_text;
            let shown = app.applied(event).transcript;
            let answer = TranscriptEntryView::Assistant { run_id, text, streaming: false };
            &&& shown.len() > 0
            &&& shown.last() == answer
            &&& shown == app.transcript.push(answer) || app.transcript.len() > 0 && shown
                == app.transcript.update(app.transcript.len() - 1, answer) && (
            app.transcript.last() matches TranscriptEntryView::Assistant { run_id: other, .. }
                && other == run_id)
        }),
{
    let run_id = event->AssistantMessage_run_id;
    let text = event->AssistantMessage_text;
    let next = AppView { transcript: with_answer(app.transcript, run_id, text), ..app };
    logged_calls_change_the_log_alone(next, event->AssistantMessage_tool_calls);
    if has_answer(app.transcript, run_id) {
        let answer = TranscriptEntryView::Assistant { run_id, text, streaming: false };
        assert(next.transcript =~= app.transcript.update(app.transcript.len() - 1, answer));
    }
}

/// The result of a tool call is put on the latest card of that call, with its
/// content and whether it failed; the card keeps its name and arguments.
pub proof fn tool_results_reach_their_card(
    app: AppView,
    event: EventView,
    position: int,
)
    requires
        event is ToolCallCompleted,
        0 <= position < app.transcript.len(),
        app.transcript[position] is Tool,
        app.transcript[position]->Tool_call_id == event->ToolCallCompleted_result.tool_call_id,
        forall|k: int|
            position < k < app.transcript.len() ==> !(#[trigger] app.transcript[k] is Tool)
                || app.transcript[k]->Tool_call_id
                != event->ToolCallCompleted_result.tool_call_id,
    ensures
        app.applied(event).transcript == app.transcript.update(
            position,
            TranscriptEntryView::Tool {
                call_id: app.transcript[position]->Tool_call_id,
                name: app.transcript[position]->Tool_name,
                arguments: app.transcript[position]->Tool_arguments,
                result: Some(event->ToolCallCompleted_result.content),
                failed: event->ToolCallCompleted_result.is_error,
            },
        ),
{
    let result = event->ToolCallCompleted_result;
    results_reach_the_latest_card(
        app.transcript,
        result.tool_call_id,
        result.content,
        result.is_error,
        position,
    );
}

proof fn results_reach_the_latest_card(
    transcript: Seq<TranscriptEntryView>,
    call: Text,
    content: Text,
    is_error: bool,
    position: int,
)
    requires
        0 <= position < transcript.len(),
        transcript[position] is Tool,
        transcript[position]->Tool_call_id == call,
        forall|k: int|
            position < k < transcript.len() ==> !(#[trigger] transcript[k] is Tool)
                || transcript[k]->Tool_call_id != call,
    ensures
        with_result(transcript, call, content, is_error) == transcript.update(
            position,
            TranscriptEntryView::Tool {
                call_id: call,
                name: transcript[position]->Tool_name,
                arguments: transcript[position]->Tool_arguments,
                result: Some(content),
                failed: is_error,
            },
        ),
    decreases transcript.len(),
{
    let card = TranscriptEntryView::Tool {
        call_id: call,
        name: transcript[position]->Tool_name,
        arguments: transcript[position]->Tool_arguments,
        result: Some(content),
        failed: is_error,
    };
    let front = transcript.drop_last();
    if position == transcript.len() - 1 {
        assert(front.push(card) =~= transcript.update(position, card));
    } else {
        assert(transcript.last() == transcript[transcript.len() - 1]);
        assert forall|k: int| position < k < front.len() implies !(#[trigger] front[k] is Tool)
            || front[k]->Tool_call_id != call by {
            assert(front[k] == transcript[k]);
        }
        results_reach_the_latest_card(front, call, content, is_error, position);
        assert(front.update(position, card).push(transcript.last()) =~= transcript.update(
            position,
            card,
        ));
    }
}

/// What is logged is the last line of the log; the lines before it stay in their
/// order, and only the oldest of a full log goes.
pub proof fn logged_lines_are_kept(app: AppView, kind: ActivityKind, text: Text)
    requires
        app.activity.len() <= MAX_ACTIVITY,
    ensures
        ({
            let log = app.logging(kind, text).activity;
            let all = app.activity.push(ActivityLineView { kind, text });
            &&& log.len() == if all.len() > MAX_ACTIVITY { MAX_ACTIVITY as nat } else { all.len() }
            &&& log == all.subrange(all.len() - log.len(), all.len() as int)
            &&& log.last() == (ActivityLineView { kind, text })
        }),
{
    let all = app.activity.push(ActivityLineView { kind, text });
    assert(all.skip(1) =~= all.subrange(1, all.len() as int));
    assert(all =~= all.subrange(0, all.len() as int));
}

/// The sessions of a workspace are shown as they were received, in the place
/// of what was shown for it; the other workspaces keep theirs.
pub proof fn sessions_are_shown_by_workspace(
    tree: Seq<WorkspaceSessionsView>,
    entry: WorkspaceSessionsView,
)
    ensures
        ({
            let shown = with_workspace_sessions(tree, entry);
            ||| shown == tree.push(entry) && forall|i: int|
                0 <= i < tree.len() ==> (#[trigger] tree[i]).workspace != entry.workspace
            ||| exists|i: int|
                0 <= i < tree.len() && (#[trigger] tree[i]).workspace == entry.workspace && shown
                    == tree.update(i, entry)
        }),
    decreases tree.len(),
{
    let shown = with_workspace_sessions(tree, entry);
    if tree.len() == 0 {
        assert(shown =~= tree.push(entry));
    } else if tree[0].workspace != entry.workspace {
        let rest = tree.skip(1);
        sessions_are_shown_by_workspace(rest, entry);
        let below = with_workspace_sessions(rest, entry);
        assert forall|i: int| 0 <= i < rest.len() implies #[trigger] rest[i] == tree[i + 1] by {}
        if below == rest.push(entry) && forall|i: int|
            0 <= i < rest.len() ==> (#[trigger] rest[i]).workspace != entry.workspace {
            assert(shown =~= tree.push(entry));
            assert forall|i: int| 0 <= i < tree.len() implies (#[trigger] tree[i]).workspace
                != entry.workspace by {
                if i > 0 {
                    assert(rest[i - 1] == tree[i]);
                }
            }
        } else {
            let i = choose|i: int|
                0 <= i < rest.len() && (#[trigger] rest[i]).workspace == entry.workspace && below
                    == rest.update(i, entry);
            assert(rest[i] == tree[i + 1]);
            assert(shown =~= tree.update(i + 1, entry));
        }
    }
}

/// What the network side reports is taken over as it is: the sessions and presets,
/// the session that is open now and a notice. An opened or left session starts
/// with an empty thread, a created one goes on with the thread that led to it.
pub proof fn reports_are_taken_over(
    app: AppView,
    presets: Seq<PresetSummaryView>,
    workspace: Text,
    sessions: Seq<SessionSummaryView>,
    id: Text,
    notice: Text,
)
    ensures
        app.received(NetEventView::Presets(presets)) == (AppView { presets, ..app }),
        app.received(NetEventView::Sessions { workspace, sessions }) == (AppView {
            sessions_by_workspace: app.received(
                NetEventView::Sessions { workspace, sessions },
            ).sessions_by_workspace,
            ..app
        }),
        exists|i: int|
            #![auto]
            0 <= i < app.received(
                NetEventView::Sessions { workspace, sessions },
            ).sessions_by_workspace.len() && app.received(
                NetEventView::Sessions { workspace, sessions },
            ).sessions_by_workspace[i] == (WorkspaceSessionsView { workspace, sessions }),
        app.received(NetEventView::SessionReady(id)) == (AppView {
            active_session: Some(id),
            activity: app.received(NetEventView::SessionReady(id)).activity,
            ..app
        }),
        app.received(NetEventView::Switched(id)) == (AppView {
            active_session: Some(id),
            transcript: seq![],
            activity: app.received(NetEventView::Switched(id)).activity,
            run_state: RunState::Idle,
            focus_composer: true,
            ..app
        }),
        app.received(NetEventView::Switched(id)).activity.len() == 1,
        app.received(NetEventView::Detached) == (AppView {
            active_session: None,
            transcript: seq![],
            activity: seq![],
            run_state: RunState::Idle,
            focus_composer: true,
            ..app
        }),
        app.received(NetEventView::Notice(notice)) == (AppView { notice: Some(notice), ..app }),
{
    let entry = WorkspaceSessionsView { workspace, sessions };
    let tree = app.sessions_by_workspace;
    sessions_are_shown_by_workspace(tree, entry);
    let shown = with_workspace_sessions(tree, entry);
    if shown == tree.push(entry) {
        assert(shown[tree.len() as int] == entry);
    } else {
        let i = choose|i: int|
            0 <= i < tree.len() && (#[trigger] tree[i]).workspace == entry.workspace && shown
                == tree.update(i, entry);
        assert(shown[i] == entry);
    }
}

/// Picking a model selects it and writes it with the effort as the default; the
/// effort stays where the model offers it.
pub proof fn picked_models_are_selected(app: AppView, index: usize)
    requires
        index < app.choices.len(),
    ensures
        ({
            let (next, actions) = app.with_model(index);
            &&& next.choice() == Some(app.choices[index as int])
            &&& next.effort == app.effort || next.effort is None
            &&& app.effort is Some && offered(app.choices[index as int]).contains(app.effort->0)
                ==> next.effort == app.effort
            &&& next.models_settings == (ModelsSettingsView {
                default: Some(
                    DefaultModelView {
                        provider: app.choices[index as int].provider_id,
                        model: app.choices[index as int].model,
                    },
                ),
                default_reasoning_effort: next.effort,
            })
            &&& actions == seq![
                DesktopActionView::Save(
                    SettingsFileView {
                        models: next.models_settings,
                        desktop: app.desktop_settings,
                    },
                ),
            ]
            &&& next == (AppView {
                selected_model: index,
                effort: next.effort,
                models_settings: next.models_settings,
                ..app
            })
        }),
{
}

/// Picking an effort that the selected model offers, or none, selects it and writes
/// it with the model as the default.
pub proof fn picked_efforts_are_selected(app: AppView, effort: Option<ReasoningEffort>)
    requires
        app.selected_model < app.choices.len(),
        effort is None || offered(app.choices[app.selected_model as int]).contains(effort->0),
    ensures
        ({
            let (next, actions) = app.with_effort(effort);
            let choice = app.choices[app.selected_model as int];
            &&& next == (AppView {
                effort,
                models_settings: ModelsSettingsView {
                    default: Some(
                        DefaultModelView { provider: choice.provider_id, model: choice.model },
                    ),
                    default_reasoning_effort: effort,
                },
                ..app
            })
            &&& actions == seq![
                DesktopActionView::Save(
                    SettingsFileView {
                        models: next.models_settings,
                        desktop: app.desktop_settings,
                    },
                ),
            ]
        }),
{
}

/// A client starts with the saved effort and preset, in its workspace, with the
/// settings it was started with and nothing to send.
pub proof fn clients_start_with_their_settings(workspace: Text, settings: SettingsFileView)
    ensures
        ({
            let app = AppView::started(workspace, settings);
            &&& app.workspace == workspace
            &&& app.effort == settings.models.default_reasoning_effort
            &&& app.selected_preset == settings.desktop.default_preset
            &&& app.settings() == settings
            &&& app.active_session is None
            &&& app.transcript.len() == 0
            &&& !app.can_send()
            &&& app.well_formed()
        }),
{
}

/// A session has the title of its first entry, and none where there is no entry.
pub proof fn titles_are_found(titles: Seq<SessionTitleView>, session: Text)
    ensures
        match title_in(titles, session) {
            Some(title) => exists|i: int|
                0 <= i < titles.len() && (#[trigger] titles[i]).session_id == session
                    && titles[i].title == title && forall|k: int|
                    0 <= k < i ==> (#[trigger] titles[k]).session_id != session,
            None => forall|k: int|
                0 <= k < titles.len() ==> (#[trigger] titles[k]).session_id != session,
        },
    decreases titles.len(),
{
    if titles.len() > 0 {
        let front = titles.drop_last();
        titles_are_found(front, session);
        assert forall|k: int| 0 <= k < front.len() implies #[trigger] front[k] == titles[k] by {}
        match title_in(front, session) {
            Some(title) => {
                let i = choose|i: int|
                    0 <= i < front.len() && (#[trigger] front[i]).session_id == session
                        && front[i].title == title && forall|k: int|
                        0 <= k < i ==> (#[trigger] front[k]).session_id != session;
                assert(titles[i].session_id == session);
                assert forall|k: int| 0 <= k < i implies (#[trigger] titles[k]).session_id
                    != session by {
                    assert(front[k].session_id != session);
                }
            },
            None => {
                assert forall|k: int| 0 <= k < front.len() implies (#[trigger] titles[k]).session_id
                    != session by {
                    assert(front[k].session_id != session);
                }
                if titles.last().session_id == session {
                    assert(titles[titles.len() - 1].session_id == session);
                }
            },
        }
    }
}

/// The known workspaces hold the active one and the recent ones and nothing else.
pub proof fn known_workspaces_were_used(first: Text, recent: Seq<Text>)
    ensures
        forall|i: int|
            0 <= i < distinct_workspaces(first, recent).len() ==> #[trigger] distinct_workspaces(
                first,
                recent,
            )[i] == first || recent.contains(distinct_workspaces(first, recent)[i]),
    decreases recent.len(),
{
    if recent.len() > 0 {
        let front = recent.drop_last();
        known_workspaces_were_used(first, front);
        let before = distinct_workspaces(first, front);
        let after = distinct_workspaces(first, recent);
        assert forall|i: int| 0 <= i < after.len() implies #[trigger] after[i] == first
            || recent.contains(after[i]) by {
            if i < before.len() {
                assert(after[i] == before[i]);
                if before[i] != first {
                    let k = choose|k: int| 0 <= k < front.len() && front[k] == before[i];
                    assert(recent[k] == before[i]);
                }
            } else {
                assert(after[i] == recent[recent.len() - 1]);
            }
        }
    }
}

/// Sending hands over the draft with the workspace, the model, the preset and the effort that
/// were selected, and leaves the composer empty and everything else as it was.
pub proof fn drafts_are_handed_over(app: &mut App, r: UiCmd)
    requires
        old(app)@.selected_model < old(app)@.choices.len(),
        call_ensures(App::send_draft, (app,), r),
    ensures
        r@ == (UiCmdView::Send {
            workspace: old(app)@.workspace,
            model: ModelRefView {
                provider: old(app)@.choices[old(app)@.selected_model as int].provider_id,
                id: old(app)@.choices[old(app)@.selected_model as int].model,
            },
            preset: old(app)@.selected_preset,
            effort: old(app)@.effort,
            text: old(app)@.draft,
        }),
        final(app)@ == (AppView { draft: seq![], notice: None, ..old(app)@ }),
{
}

/// The composer sends on Enter alone or on a click, and then only what is not blank and only where
/// a model is selected.
pub proof fn composers_send_on_request(
    app: App,
    enter: bool,
    shift: bool,
    command: bool,
    clicked: bool,
    r: bool,
)
    requires
        call_ensures(App::sends, (&app, enter, shift, command, clicked), r),
    ensures
        r ==> clicked || enter,
        r ==> trim(app@.draft).len() > 0 && app@.selected_model < app@.choices.len(),
        !clicked && (shift || command) ==> !r,
        trim(app@.draft).len() > 0 && app@.selected_model < app@.choices.len() && (clicked || enter
            && !shift && !command) ==> r,
{
}

/// What the client selects is what is selected from then on.
pub proof fn selections_are_taken(
    app: &mut App,
    index: usize,
    r: Vec<DesktopAction>,
)
    requires
        index < old(app)@.choices.len(),
        call_ensures(App::select_model, (app, index), r),
    ensures
        final(app)@.choice() == Some(old(app)@.choices[index as int]),
        views(r@) == seq![
            DesktopActionView::Save(
                SettingsFileView {
                    models: ModelsSettingsView {
                        default: Some(
                            DefaultModelView {
                                provider: old(app)@.choices[index as int].provider_id,
                                model: old(app)@.choices[index as int].model,
                            },
                        ),
                        default_reasoning_effort: final(app)@.effort,
                    },
                    desktop: old(app)@.desktop_settings,
                },
            ),
        ],
{
    picked_models_are_selected(old(app)@, index);
}

/// The title of the open thread is that of its session.
pub proof fn threads_show_their_title(app: App, id: &str, title: String, thread: String)
    requires
        call_ensures(App::session_title, (&app, id), title),
        call_ensures(App::thread_title, (&app,), thread),
    ensures
        app@.active_session == Some(id@) ==> thread@ == title@,
        title_in(app@.session_titles, id@) is Some ==> title_in(app@.session_titles, id@) == Some(
            title@,
        ),
        title_in(app@.session_titles, id@) is None ==> title@ == "New chat"@,
        app@.active_session is None ==> thread@ == "New chat"@,
{
}

/// Once the providers are known the client is connected and offers all of their models; the one
/// of the settings is selected where it is among them, and nothing that was typed or shown
/// changes.
pub proof fn providers_are_taken(app: AppView, providers: Seq<ProviderSummaryView>)
    ensures
        ({
            let next = app.received(NetEventView::Providers(providers));
            &&& next.connected
            &&& next.choices == all_choices(providers)
            &&& next == (AppView {
                connected: true,
                choices: next.choices,
                selected_model: next.selected_model,
                effort: next.effort,
                notice: next.notice,
                ..app
            })
            &&& next.notice == app.notice || next.notice is None
            &&& next.effort == app.effort || next.effort is None
            &&& app.models_settings.default is None ==> next.selected_model == app.selected_model
        }),
{
}

/// The activity log tells what happened: who was asked what, when a run began and with which effort,
/// which tool began and whether it failed, and how the run ended.
pub proof fn the_log_tells_what_happened(app: AppView, event: EventView)
    requires
        app.activity.len() <= MAX_ACTIVITY,
    ensures
        ({
            let log = app.applied(event).activity;
            match event {
                EventView::Message { text, model, .. } => log.len() > 0 && log.last() == (
                ActivityLineView {
                    kind: ActivityKind::User,
                    text: model.provider + " / "@ + model.id + ": "@ + text,
                }),
                EventView::RunStarted { model, reasoning_effort, .. } => log.len() > 0
                    && log.last() == (ActivityLineView {
                    kind: ActivityKind::Run,
                    text: model.provider + " / "@ + model.id + " · "@ + match reasoning_effort {
                        Some(level) => level.spelling(),
                        None => "default"@,
                    },
                }),
                EventView::AssistantTextDelta { .. } => log == app.activity,
                EventView::AssistantMessage { tool_calls, .. } => tool_calls.len() > 0
                    ==> log.len() > 0 && log.last() == (ActivityLineView {
                    kind: ActivityKind::Tool,
                    text: tool_calls.last().name + " "@ + tool_calls.last().arguments,
                }),
                EventView::ToolCallStarted { call, .. } => log.len() > 0 && log.last() == (
                ActivityLineView { kind: ActivityKind::Tool, text: call.name + " started"@ }),
                EventView::ToolCallCompleted { result, .. } => log.len() > 0 && log.last() == (
                ActivityLineView {
                    kind: ActivityKind::Tool,
                    text: if result.is_error {
                        "tool failed"@
                    } else {
                        "tool done"@
                    },
                }),
                EventView::RunCompleted { .. } => log.len() > 0 && log.last() == (
                ActivityLineView { kind: ActivityKind::Done, text: "run completed"@ }),
                EventView::RunFailed { error, .. } => log.len() > 0 && log.last() == (
                ActivityLineView { kind: ActivityKind::Error, text: error }),
            }
        }),
{
}

} // verus!
