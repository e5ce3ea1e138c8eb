//! The fullscreen terminal client: its presentation state, its keys and
//! commands, and the lines it shows.

use crate::choices::{
    all_choices, choice_position, choices_are_found, collect_choices, kept_effort, offered,
    position_of_choice, ModelChoice, ModelChoiceView,
};
use crate::protocol::{
    parse_effort, parse_inverts_spelling, Event, EventView, ModelRef, ModelRefView,
    ProviderSummary, ReasoningEffort, SessionSummary, SessionSummaryView,
};
use crate::text::{
    ascii_lower, ascii_lower_text, concat, concat3, debug_form, debug_text, from_chars, is_blank,
    lines, opt_list, opt_view, same, split_once, split_once_parts, split_once_text, to_chars, trim,
    trim_text, views, words, words_text, Text,
};
use vstd::prelude::*;

verus! {

/// The content of a [`TuiError`].
#[verifier::ext_equal]
pub enum TuiErrorView {
    Client(Text),
    Io(Text),
    NoModels,
    TerminalEventsClosed,
}

/// Why the terminal client stopped. `Client` and `Io` carry the text of the
/// underlying failure.
#[derive(Debug, Eq, PartialEq)]
pub enum TuiError {
    Client(String),
    Io(String),
    NoModels,
    TerminalEventsClosed,
}

impl View for TuiError {
    type V = TuiErrorView;

    open spec fn view(&self) -> TuiErrorView {
        match self {
            TuiError::Client(item) => TuiErrorView::Client(item@),
            TuiError::Io(item) => TuiErrorView::Io(item@),
            TuiError::NoModels => TuiErrorView::NoModels,
            TuiError::TerminalEventsClosed => TuiErrorView::TerminalEventsClosed,
        }
    }
}

impl Clone for TuiError {
    fn clone(&self) -> (r: Self)
        ensures
            r@ == self@,
    {
        let r = match self {
            TuiError::Client(item) => TuiError::Client(item.clone()),
            TuiError::Io(item) => TuiError::Io(item.clone()),
            TuiError::NoModels => TuiError::NoModels,
            TuiError::TerminalEventsClosed => TuiError::TerminalEventsClosed,
        };
        assert(r@ =~~= self@);
        r
    }
}

impl TuiErrorView {
    /// The text shown for an error.
    pub open spec fn message_text(self) -> Text {
        match self {
            TuiErrorView::Client(error) => error,
            TuiErrorView::Io(error) => error,
            TuiErrorView::NoModels => "the runtime has no configured models; run `nexa provider add` first"@,
            TuiErrorView::TerminalEventsClosed => "terminal event stream closed"@,
        }
    }
}

impl TuiError {
    pub fn message(&self) -> (r: String)
        ensures
            r@ == self@.message_text(),
    {
        match self {
            TuiError::Client(error) => error.clone(),
            TuiError::Io(error) => error.clone(),
            TuiError::NoModels => "the runtime has no configured models; run `nexa provider add` first".to_owned(),
            TuiError::TerminalEventsClosed => "terminal event stream closed".to_owned(),
        }
    }
}

#[derive(Clone, Copy, Debug, Eq, PartialEq, Structural)]
pub enum RunState {
    Idle,
    Running,
    Failed,
}

#[derive(Clone, Copy, Debug, Eq, PartialEq, Structural)]
pub enum ToolState {
    Running,
    Completed,
    Failed,
}

/// The content of a [`TranscriptItem`].
#[verifier::ext_equal]
pub enum TranscriptItemView {
    User(Text),
    Assistant { run_id: Text, text: Text, finalized: bool },
    Tool { call_id: Text, name: Text, state: ToolState },
    Error(Text),
}

/// One entry of the transcript.
#[derive(Debug, Eq, PartialEq)]
pub enum TranscriptItem {
    User(String),
    Assistant { run_id: String, text: String, finalized: bool },
    Tool { call_id: String, name: String, state: ToolState },
    Error(String),
}

impl View for TranscriptItem {
    type V = TranscriptItemView;

    open spec fn view(&self) -> TranscriptItemView {
        match self {
            TranscriptItem::User(item) => TranscriptItemView::User(item@),
            TranscriptItem::Assistant { run_id, text, finalized } => TranscriptItemView::Assistant {
                run_id: run_id@,
                text: text@,
                finalized: *finalized,
            },
            TranscriptItem::Tool { call_id, name, state } => TranscriptItemView::Tool {
                call_id: call_id@,
                name: name@,
                state: *state,
            },
            TranscriptItem::Error(item) => TranscriptItemView::Error(item@),
        }
    }
}

impl Clone for TranscriptItem {
    fn clone(&self) -> (r: Self)
        ensures
            r@ == self@,
    {
        let r = match self {
            TranscriptItem::User(item) => TranscriptItem::User(item.clone()),
            TranscriptItem::Assistant { run_id, text, finalized } => TranscriptItem::Assistant {
                run_id: run_id.clone(),
                text: text.clone(),
                finalized: *finalized,
            },
            TranscriptItem::Tool { call_id, name, state } => TranscriptItem::Tool {
                call_id: call_id.clone(),
                name: name.clone(),
                state: *state,
            },
            TranscriptItem::Error(item) => TranscriptItem::Error(item.clone()),
        };
        assert(r@ =~~= self@);
        r
    }
}

/// What came of sending a message.
#[derive(Debug)]
pub struct Submission {
    pub message: String,
    pub result: Result<(), String>,
}

/// The content of an [`App`].
#[verifier::ext_equal]
pub struct AppView {
    pub choices: Seq<ModelChoiceView>,
    pub selected_model: usize,
    pub picker_model: usize,
    pub picker_open: bool,
    pub effort: Option<ReasoningEffort>,
    pub sessions: Option<Seq<SessionSummaryView>>,
    pub sessions_cursor: usize,
    pub sessions_open: bool,
    pub transcript: Seq<TranscriptItemView>,
    pub input: Seq<char>,
    pub cursor: usize,
    pub run_state: RunState,
    pub submitting: bool,
    pub notice: Option<Text>,
    pub scroll: usize,
    pub follow_tail: bool,
}

/// The presentation state of the terminal client.
#[derive(Debug)]
pub struct App {
    pub choices: Vec<ModelChoice>,
    pub selected_model: usize,
    pub picker_model: usize,
    pub picker_open: bool,
    pub effort: Option<ReasoningEffort>,
    pub sessions: Option<Vec<SessionSummary>>,
    pub sessions_cursor: usize,
    pub sessions_open: bool,
    pub transcript: Vec<TranscriptItem>,
    pub input: Vec<char>,
    pub cursor: usize,
    pub run_state: RunState,
    pub submitting: bool,
    pub notice: Option<String>,
    pub scroll: usize,
    pub follow_tail: bool,
}

impl View for App {
    type V = AppView;

    open spec fn view(&self) -> AppView {
        AppView {
            choices: views(self.choices@),
            selected_model: self.selected_model,
            picker_model: self.picker_model,
            picker_open: self.picker_open,
            effort: self.effort,
            sessions: opt_list(self.sessions),
            sessions_cursor: self.sessions_cursor,
            sessions_open: self.sessions_open,
            transcript: views(self.transcript@),
            input: self.input@,
            cursor: self.cursor,
            run_state: self.run_state,
            submitting: self.submitting,
            notice: opt_view(self.notice),
            scroll: self.scroll,
            follow_tail: self.follow_tail,
        }
    }
}

/// How many choices have this model id.
pub open spec fn count_named(choices: Seq<ModelChoiceView>, model: Text) -> nat
    decreases choices.len(),
{
    if choices.len() == 0 {
        0
    } else {
        count_named(choices.drop_last(), model) + if choices.last().model == model {
            1nat
        } else {
            0nat
        }
    }
}

/// The last choice with this model id.
pub open spec fn last_named(choices: Seq<ModelChoiceView>, model: Text) -> Option<int>
    decreases choices.len(),
{
    if choices.len() == 0 {
        None
    } else if choices.last().model == model {
        Some(choices.len() - 1)
    } else {
        last_named(choices.drop_last(), model)
    }
}

/// The choice that a `/model` argument names: `provider-id/model-id`, or a bare
/// model id that occurs once.
pub open spec fn named_choice(choices: Seq<ModelChoiceView>, spec: Text) -> Option<int> {
    match split_once(spec, '/') {
        Some((provider, model)) => choice_position(choices, provider, model),
        None => if count_named(choices, spec) == 1 {
            last_named(choices, spec)
        } else {
            None
        },
    }
}

fn unique_choice(choices: &Vec<ModelChoice>, model: &str) -> (r: Option<usize>)
    ensures
        r is Some <==> count_named(views(choices@), model@) == 1,
        r matches Some(i) ==> i < choices@.len() && last_named(views(choices@), model@) == Some(
            i as int,
        ),
{
    let ghost all = views(choices@);
    let mut found: Option<usize> = None;
    let mut count: usize = 0;
    let mut i: usize = 0;
    assert(all.take(0) =~= seq![]);
    while i < choices.len()
        invariant
            i <= choices@.len(),
            all == views(choices@),
            count <= i,
            count == count_named(all.take(i as int), model@),
            found is Some <==> count > 0,
            found matches Some(k) ==> k < i && last_named(all.take(i as int), model@) == Some(
                k as int,
            ),
        decreases choices@.len() - i,
    {
        assert(all.take(i as int + 1).drop_last() =~= all.take(i as int));
        assert(all.take(i as int + 1).last() == choices@[i as int]@);
        if same(&choices[i].model, model) {
            found = Some(i);
            count += 1;
        }
        i += 1;
    }
    assert(all.take(choices@.len() as int) =~= all);
    if count == 1 {
        found
    } else {
        None
    }
}

/// What cycling goes through: no effort, then every offered level.
pub open spec fn cycle_levels(choice: ModelChoiceView) -> Seq<Option<ReasoningEffort>> {
    seq![None] + offered(choice).map_values(|level: ReasoningEffort| Some(level))
}

/// The first position of a level in what cycling goes through.
pub open spec fn level_position(
    levels: Seq<Option<ReasoningEffort>>,
    current: Option<ReasoningEffort>,
) -> Option<int>
    decreases levels.len(),
{
    if levels.len() == 0 {
        None
    } else {
        match level_position(levels.drop_last(), current) {
            Some(i) => Some(i),
            None => if levels.last() == current {
                Some(levels.len() - 1)
            } else {
                None
            },
        }
    }
}

/// The level behind the current one, starting over at the end; the first one
/// if the current level is not among them.
pub open spec fn next_level(
    levels: Seq<Option<ReasoningEffort>>,
    current: Option<ReasoningEffort>,
) -> Option<ReasoningEffort> {
    match level_position(levels, current) {
        Some(i) => levels[(i + 1) % levels.len() as int],
        None => levels[0],
    }
}

/// What is said of a selected effort.
pub open spec fn effort_notice(effort: Option<ReasoningEffort>) -> Text {
    match effort {
        Some(level) => "Reasoning effort: "@ + level.spelling() + "."@,
        None => "Reasoning effort: default."@,
    }
}

fn effort_notice_text(effort: Option<ReasoningEffort>) -> (r: String)
    ensures
        r@ == effort_notice(effort),
{
    match effort {
        Some(level) => concat3("Reasoning effort: ", level.as_str(), "."),
        None => "Reasoning effort: default.".to_owned(),
    }
}

impl AppView {
    /// What every reachable state keeps: a model is selected, the pickers and
    /// the cursor point at something, and an open session list is not empty.
    pub open spec fn well_formed(self) -> bool {
        &&& self.selected_model < self.choices.len()
        &&& self.picker_model < self.choices.len()
        &&& self.cursor <= self.input.len()
        &&& self.sessions matches Some(list) ==> self.sessions_cursor < list.len()
    }

    /// The state at startup: the preferred model if it can be chosen, otherwise
    /// the first one, and a question where there is more than one.
    pub open spec fn opened(
        choices: Seq<ModelChoiceView>,
        preferred_model: Option<ModelRefView>,
        preferred_effort: Option<ReasoningEffort>,
    ) -> AppView {
        let preferred = match preferred_model {
            Some(model) => choice_position(choices, model.provider, model.id),
            None => None,
        };
        AppView {
            choices,
            selected_model: match preferred {
                Some(i) => i as usize,
                None => 0,
            },
            picker_model: 0,
            picker_open: preferred is None && choices.len() > 1,
            effort: preferred_effort,
            sessions: None,
            sessions_cursor: 0,
            sessions_open: false,
            transcript: seq![],
            input: seq![],
            cursor: 0,
            run_state: RunState::Idle,
            submitting: false,
            notice: None,
            scroll: 0,
            follow_tail: true,
        }
    }

    pub open spec fn choice(self) -> ModelChoiceView {
        self.choices[self.selected_model as int]
    }

    pub open spec fn model(self) -> ModelRefView {
        ModelRefView { provider: self.choice().provider_id, id: self.choice().model }
    }

    pub open spec fn noticing(self, notice: Text) -> AppView {
        AppView { notice: Some(notice), ..self }
    }

    pub open spec fn with_model_picker(self) -> AppView {
        AppView { picker_model: self.selected_model, picker_open: true, ..self }
    }

    /// Selects a model and drops an effort that it does not offer.
    pub open spec fn selecting(self, index: usize) -> AppView {
        let next = AppView { selected_model: index, ..self };
        AppView { effort: kept_effort(next.choice(), self.effort), ..next }
    }

    pub open spec fn with_cleared_input(self) -> AppView {
        AppView { input: seq![], cursor: 0, ..self }
    }

    /// The state in which another session's transcript can be replayed.
    pub open spec fn for_session_switch(self) -> AppView {
        AppView {
            transcript: seq![],
            scroll: 0,
            follow_tail: true,
            submitting: false,
            run_state: RunState::Idle,
            notice: None,
            ..self
        }
    }

    pub open spec fn with_sessions(self, sessions: Seq<SessionSummaryView>) -> AppView {
        if sessions.len() == 0 {
            self.noticing("No saved sessions for this workspace yet."@)
        } else {
            AppView {
                sessions: Some(sessions),
                sessions_cursor: 0,
                sessions_open: true,
                ..self
            }
        }
    }

    /// The message that Enter would send, if any.
    pub open spec fn message_to_send(self) -> Option<Text> {
        if self.submitting || trim(self.input).len() == 0 {
            None
        } else {
            Some(self.input)
        }
    }

    pub open spec fn submitting_message(self) -> AppView {
        AppView { submitting: true, notice: None, ..self }.with_cleared_input()
    }

    /// The state after a submission came back. A failed message is put back
    /// into an empty composer.
    pub open spec fn after_submission(self, message: Text, error: Option<Text>) -> AppView {
        match error {
            None => AppView { submitting: false, follow_tail: true, ..self },
            Some(error) => {
                let next = AppView { submitting: false, notice: Some(error), ..self };
                if self.input.len() == 0 {
                    AppView { input: message, cursor: message.len() as usize, ..next }
                } else {
                    next
                }
            },
        }
    }

    pub open spec fn with_spec(self, spec: Text) -> AppView {
        match named_choice(self.choices, spec) {
            Some(index) => {
                let next = self.selecting(index as usize);
                next.noticing(
                    "Switched to "@ + next.choice().provider_name + " / "@ + next.choice().model
                        + "."@,
                )
            },
            None => self.noticing("No model matches "@ + debug_form(spec) + "."@),
        }
    }

    pub open spec fn with_next_effort(self) -> AppView {
        let effort = next_level(cycle_levels(self.choice()), self.effort);
        AppView { effort, ..self }.noticing(effort_notice(effort))
    }

    pub open spec fn with_effort(self, level: Text) -> AppView {
        match parse_effort(level) {
            Some(effort) => if offered(self.choice()).contains(effort) {
                AppView { effort: Some(effort), ..self }.noticing(effort_notice(Some(effort)))
            } else {
                self.noticing(
                    self.choice().model + " does not report supporting effort "@ + debug_form(
                        level,
                    ) + "."@,
                )
            },
            None => self.noticing(
                "Unknown effort "@ + debug_form(level) + ". Levels: "@
                    + "minimal, low, medium, high, xhigh, max"@ + "."@,
            ),
        }
    }

    /// The state after a command line that the application itself handles, and
    /// whether it ends the client.
    pub open spec fn commanded(self, raw: Text) -> (AppView, bool) {
        let parts = words(raw.skip(1));
        let name = if parts.len() > 0 {
            ascii_lower(parts[0])
        } else {
            seq![]
        };
        if name == "quit"@ || name == "exit"@ {
            (self, true)
        } else if name == "clear"@ {
            (
                AppView { transcript: seq![], scroll: 0, follow_tail: true, ..self }.noticing(
                    "Cleared the transcript view."@,
                ),
                false,
            )
        } else if name == "model"@ {
            (
                if parts.len() > 1 {
                    self.with_spec(parts[1])
                } else {
                    self.with_model_picker()
                },
                false,
            )
        } else if name == "reasoning"@ {
            (
                if parts.len() > 1 {
                    self.with_effort(parts[1])
                } else {
                    self.with_next_effort()
                },
                false,
            )
        } else if name.len() == 0 {
            (
                self.noticing(
                    "Usage: /new · /sessions · /model [provider/model] · /reasoning [effort] · /clear"@,
                ),
                false,
            )
        } else {
            (
                self.noticing(
                    "Unknown command /"@ + name
                        + ". Available: /new, /sessions, /model, /reasoning, /clear, /quit."@,
                ),
                false,
            )
        }
    }
}

impl App {
    /// The client's state at startup. A previously persisted default that still
    /// exists is selected silently; anything else is asked for when there is a
    /// choice to make.
    pub fn new(
        providers: Vec<ProviderSummary>,
        preferred_model: Option<ModelRef>,
        preferred_effort: Option<ReasoningEffort>,
    ) -> (r: Result<App, TuiError>)
        ensures
            r is Ok <==> all_choices(views(providers@)).len() > 0,
            r matches Err(error) ==> error@ == TuiErrorView::NoModels,
            r matches Ok(app) ==> app@.well_formed() && ({
                let choices = all_choices(views(providers@));
                let preferred = match preferred_model {
                    Some(model) => choice_position(choices, model@.provider, model@.id),
                    None => None,
                };
                app@ == (AppView {
                    choices,
                    selected_model: match preferred {
                        Some(i) => i as usize,
                        None => 0,
                    },
                    picker_model: 0,
                    picker_open: preferred is None && choices.len() > 1,
                    effort: preferred_effort,
                    sessions: None,
                    sessions_cursor: 0,
                    sessions_open: false,
                    transcript: seq![],
                    input: seq![],
                    cursor: 0,
                    run_state: RunState::Idle,
                    submitting: false,
                    notice: None,
                    scroll: 0,
                    follow_tail: true,
                })
            }),
            r matches Ok(app) ==> app@ == AppView::opened(
                all_choices(views(providers@)),
                opt_view(preferred_model),
                preferred_effort,
            ),
    {
        let choices = collect_choices(&providers);
        if choices.len() == 0 {
            return Err(TuiError::NoModels);
        }
        let preferred = match &preferred_model {
            Some(model) => position_of_choice(&choices, &model.provider, &model.id),
            None => None,
        };
        let picker_open = preferred.is_none() && choices.len() > 1;
        let selected_model = match preferred {
            Some(i) => i,
            None => 0,
        };
        let app = App {
            choices,
            selected_model,
            picker_model: 0,
            picker_open,
            effort: preferred_effort,
            sessions: None,
            sessions_cursor: 0,
            sessions_open: false,
            transcript: Vec::new(),
            input: Vec::new(),
            cursor: 0,
            run_state: RunState::Idle,
            submitting: false,
            notice: None,
            scroll: 0,
            follow_tail: true,
        };
        assert(app@.transcript =~= seq![]);
        assert(app@.input =~= seq![]);
        Ok(app)
    }

    pub fn model_choice(&self) -> (r: &ModelChoice)
        requires
            self@.well_formed(),
        ensures
            r@ == self@.choice(),
    {
        &self.choices[self.selected_model]
    }

    /// The selected model.
    pub fn model(&self) -> (r: ModelRef)
        requires
            self@.well_formed(),
        ensures
            r@ == self@.model(),
    {
        let choice = self.model_choice();
        ModelRef { provider: choice.provider_id.clone(), id: choice.model.clone() }
    }

    pub fn open_model_picker(&mut self)
        ensures
            final(self)@ == old(self)@.with_model_picker(),
    {
        self.picker_model = self.selected_model;
        self.picker_open = true;
    }

    pub fn previous_model(&mut self)
        requires
            old(self)@.well_formed(),
        ensures
            final(self)@ == (AppView {
                picker_model: previous_of(old(self)@.picker_model, old(self)@.choices.len()),
                ..old(self)@
            }),
            final(self)@.well_formed(),
    {
        if self.picker_model == 0 {
            self.picker_model = self.choices.len() - 1;
        } else {
            self.picker_model = self.picker_model - 1;
        }
    }

    pub fn next_model(&mut self)
        requires
            old(self)@.well_formed(),
        ensures
            final(self)@ == (AppView {
                picker_model: next_of(old(self)@.picker_model, old(self)@.choices.len()),
                ..old(self)@
            }),
            final(self)@.well_formed(),
    {
        let size: usize = self.choices.len();
        self.picker_model = (self.picker_model + 1) % size;
    }

    pub fn choose_model(&mut self)
        requires
            old(self)@.well_formed(),
        ensures
            final(self)@ == (AppView { picker_open: false, ..old(self)@ }).selecting(
                old(self)@.picker_model,
            ),
            final(self)@.well_formed(),
    {
        self.selected_model = self.picker_model;
        self.picker_open = false;
        self.drop_unsupported_effort();
    }

    /// Shows the sessions of the workspace, if there are any.
    pub fn open_sessions_overlay(&mut self, sessions: Vec<SessionSummary>)
        requires
            old(self)@.well_formed(),
        ensures
            final(self)@ == old(self)@.with_sessions(views(sessions@)),
            final(self)@.well_formed(),
    {
        if sessions.len() == 0 {
            self.notice = Some("No saved sessions for this workspace yet.".to_owned());
            return;
        }
        self.sessions_cursor = 0;
        self.sessions = Some(sessions);
        self.sessions_open = true;
    }

    pub fn previous_session(&mut self)
        requires
            old(self)@.well_formed(),
        ensures
            final(self)@ == old(self)@.at_previous_session(),
            final(self)@.well_formed(),
    {
        let size = match &self.sessions {
            Some(sessions) => sessions.len(),
            None => {
                return;
            },
        };
        if self.sessions_cursor == 0 {
            self.sessions_cursor = size - 1;
        } else {
            self.sessions_cursor = self.sessions_cursor - 1;
        }
    }

    pub fn next_session(&mut self)
        requires
            old(self)@.well_formed(),
        ensures
            final(self)@ == old(self)@.at_next_session(),
            final(self)@.well_formed(),
    {
        let size = match &self.sessions {
            Some(sessions) => sessions.len(),
            None => {
                return;
            },
        };
        self.sessions_cursor = (self.sessions_cursor + 1) % size;
    }

    /// Closes the session list and returns the session under its cursor.
    pub fn choose_session(&mut self) -> (r: Option<SessionSummary>)
        requires
            old(self)@.well_formed(),
        ensures
            final(self)@ == (AppView { sessions_open: false, ..old(self)@ }),
            opt_view(r) == old(self)@.chosen_session(),
            final(self)@.well_formed(),
    {
        let summary = match &self.sessions {
            Some(sessions) => Some(sessions[self.sessions_cursor].clone()),
            None => None,
        };
        self.sessions_open = false;
        summary
    }

    /// Drops presentation state so that a freshly subscribed stream can replay
    /// another session's transcript into a clean slate.
    pub fn reset_for_session_switch(&mut self)
        ensures
            final(self)@ == old(self)@.for_session_switch(),
    {
        self.transcript = Vec::new();
        self.scroll = 0;
        self.follow_tail = true;
        self.submitting = false;
        self.run_state = RunState::Idle;
        self.notice = None;
        assert(self@.transcript =~= seq![]);
    }

    /// The efforts selectable for the selected model.
    pub fn offered_efforts(&self) -> (r: Vec<ReasoningEffort>)
        requires
            self@.well_formed(),
        ensures
            r@ == offered(self@.choice()),
    {
        self.model_choice().offered_efforts()
    }

    pub fn supports_effort(&self, effort: ReasoningEffort) -> (r: bool)
        requires
            self@.well_formed(),
        ensures
            r == offered(self@.choice()).contains(effort),
    {
        self.model_choice().supports_effort(effort)
    }

    /// Drops the current effort when the selected model does not offer it.
    fn drop_unsupported_effort(&mut self)
        requires
            old(self)@.well_formed(),
        ensures
            final(self)@ == (AppView {
                effort: kept_effort(old(self)@.choice(), old(self)@.effort),
                ..old(self)@
            }),
    {
        if let Some(effort) = self.effort {
            if !self.supports_effort(effort) {
                self.effort = None;
            }
        }
    }

    pub fn input_text(&self) -> (r: String)
        ensures
            r@ == self@.input,
    {
        from_chars(&self.input)
    }

    /// The message that Enter would send, if any.
    pub fn message_to_send(&self) -> (r: Option<String>)
        ensures
            opt_view(r) == self@.message_to_send(),
    {
        if self.submitting {
            return None;
        }
        let message = self.input_text();
        if is_blank(&message) {
            None
        } else {
            Some(message)
        }
    }

    /// Takes the message out of the composer to send it to the selected model.
    pub fn begin_submission(&mut self) -> (r: Option<(ModelRef, String)>)
        requires
            old(self)@.well_formed(),
        ensures
            match old(self)@.message_to_send() {
                Some(message) => final(self)@ == old(self)@.submitting_message() && (r matches Some(
                    (model, text),
                ) && model@ == old(self)@.model() && text@ == message),
                None => r is None && final(self)@ == old(self)@,
            },
            final(self)@.well_formed(),
    {
        let message = match self.message_to_send() {
            Some(message) => message,
            None => {
                return None;
            },
        };
        let model = self.model();
        self.submitting = true;
        self.notice = None;
        self.clear_input();
        Some((model, message))
    }

    /// Takes what came of sending a message.
    pub fn finish_submission(&mut self, submission: Submission)
        requires
            old(self)@.well_formed(),
        ensures
            final(self)@ == old(self)@.after_submission(
                submission.message@,
                match submission.result {
                    Ok(_) => None,
                    Err(error) => Some(error@),
                },
            ),
            final(self)@.well_formed(),
    {
        self.submitting = false;
        match submission.result {
            Ok(()) => {
                self.follow_tail = true;
            },
            Err(error) => {
                if self.input.len() == 0 {
                    self.input = to_chars(&submission.message);
                    self.cursor = self.input.len();
                }
                self.notice = Some(error);
            },
        }
    }

    pub fn clear_input(&mut self)
        ensures
            final(self)@ == old(self)@.with_cleared_input(),
    {
        self.input = Vec::new();
        self.cursor = 0;
        assert(self@.input =~= seq![]);
    }

    /// Executes a `/command` line: what stands behind its first character, which
    /// is one byte long. Returns `true` when the client should exit.
    pub fn execute_command(&mut self, raw: &str) -> (r: bool)
        requires
            old(self)@.well_formed(),
            raw@.len() > 0,
            raw@[0] <= '\u{7f}',
        ensures
            old(self)@.commanded(raw@) == (final(self)@, r),
            final(self)@.well_formed(),
    {
        let chars = to_chars(raw);
        let size: usize = chars.len();
        let rest = crate::text::from_range(&chars, 1, size);
        assert(rest@ =~= raw@.skip(1));
        let parts = words_text(&rest);
        assert(parts@.len() == words(raw@.skip(1)).len());
        if parts.len() > 0 {
            assert(parts@[0]@ == words(raw@.skip(1))[0]);
        }
        if parts.len() > 1 {
            assert(parts@[1]@ == words(raw@.skip(1))[1]);
        }
        let name = if parts.len() > 0 {
            ascii_lower_text(&parts[0])
        } else {
            String::new()
        };
        assert(parts@.len() == 0 ==> name@ =~= Seq::<char>::empty());
        if same(&name, "quit") || same(&name, "exit") {
            true
        } else if same(&name, "clear") {
            self.transcript = Vec::new();
            self.scroll = 0;
            self.follow_tail = true;
            self.notice = Some("Cleared the transcript view.".to_owned());
            assert(self@.transcript =~= seq![]);
            false
        } else if same(&name, "model") {
            if parts.len() > 1 {
                self.select_model_by_spec(&parts[1]);
            } else {
                self.open_model_picker();
            }
            false
        } else if same(&name, "reasoning") {
            if parts.len() > 1 {
                self.set_effort(&parts[1]);
            } else {
                self.cycle_effort();
            }
            false
        } else if name.as_str().is_empty() {
            self.notice =
            Some(
                "Usage: /new · /sessions · /model [provider/model] · /reasoning [effort] · /clear".to_owned(),
            );
            false
        } else {
            self.notice =
            Some(
                concat3(
                    "Unknown command /",
                    &name,
                    ". Available: /new, /sessions, /model, /reasoning, /clear, /quit.",
                ),
            );
            false
        }
    }

    /// Switches models from a `provider-id/model-id` spec, falling back to a
    /// unique bare model-ID match.
    pub fn select_model_by_spec(&mut self, spec: &str)
        requires
            old(self)@.well_formed(),
        ensures
            final(self)@ == old(self)@.with_spec(spec@),
            final(self)@.well_formed(),
    {
        let position = match split_once_text(spec, '/') {
            Some((provider, model)) => position_of_choice(&self.choices, &provider, &model),
            None => unique_choice(&self.choices, spec),
        };
        match position {
            Some(index) => {
                let head = concat3(
                    "Switched to ",
                    &self.choices[index].provider_name,
                    " / ",
                );
                let notice = concat3(&head, &self.choices[index].model, ".");
                self.selected_model = index;
                self.drop_unsupported_effort();
                self.notice = Some(notice);
            },
            None => {
                self.notice = Some(concat3("No model matches ", &debug_text(spec), "."));
            },
        }
    }

    /// Steps through no effort and every effort level that the selected model
    /// offers.
    pub fn cycle_effort(&mut self)
        requires
            old(self)@.well_formed(),
        ensures
            final(self)@ == old(self)@.with_next_effort(),
            final(self)@.well_formed(),
    {
        let list = self.offered_efforts();
        let size: usize = list.len();
        let ghost levels = cycle_levels(self@.choice());
        assert(levels.len() == size + 1);
        let mut found: Option<usize> = None;
        if self.effort.is_none() {
            found = Some(0);
        }
        assert(levels.take(1).drop_last() =~= seq![]);
        assert(levels.take(1).last() == None::<ReasoningEffort>);
        proof {
            reveal_with_fuel(level_position, 2);
        }
        let mut i: usize = 0;
        while i < size
            invariant
                size == list@.len(),
                i <= size,
                levels == cycle_levels(old(self)@.choice()),
                list@ == offered(old(self)@.choice()),
                levels.len() == size + 1,
                *self == *old(self),
                found is Some <==> level_position(levels.take(i as int + 1), self.effort) is Some,
                found matches Some(k) ==> k <= i && level_position(
                    levels.take(i as int + 1),
                    self.effort,
                ) == Some(k as int),
            decreases size - i,
        {
            assert(levels.take(i as int + 2).drop_last() =~= levels.take(i as int + 1));
            assert(levels.take(i as int + 2).last() == Some(list@[i as int]));
            let here = match self.effort {
                Some(effort) => effort == list[i],
                None => false,
            };
            if found.is_none() && here {
                found = Some(i + 1);
            }
            i += 1;
        }
        assert(levels.take(size as int + 1) =~= levels);
        let next = match found {
            None => None,
            Some(k) => {
                if k == size {
                    assert((k as int + 1) % (size as int + 1) == 0) by (nonlinear_arith)
                        requires
                            k == size,
                    ;
                    None
                } else {
                    assert((k as int + 1) % (size as int + 1) == k as int + 1) by (nonlinear_arith)
                        requires
                            0 <= k < size,
                    ;
                    assert(levels[k as int + 1] == Some(list@[k as int]));
                    Some(list[k])
                }
            },
        };
        self.effort = next;
        self.notice = Some(effort_notice_text(next));
    }

    /// Selects an effort by its spelling, if the selected model offers it.
    pub fn set_effort(&mut self, raw_level: &str)
        requires
            old(self)@.well_formed(),
        ensures
            final(self)@ == old(self)@.with_effort(raw_level@),
            final(self)@.well_formed(),
    {
        match ReasoningEffort::parse(raw_level) {
            Some(effort) => {
                if self.supports_effort(effort) {
                    self.effort = Some(effort);
                    self.notice = Some(effort_notice_text(Some(effort)));
                } else {
                    let head = concat(
                        &self.model_choice().model,
                        " does not report supporting effort ",
                    );
                    let notice = concat3(&head, &debug_text(raw_level), ".");
                    self.notice = Some(notice);
                }
            },
            None => {
                let head = concat3("Unknown effort ", &debug_text(raw_level), ". Levels: ");
                let notice = concat3(&head, "minimal, low, medium, high, xhigh, max", ".");
                self.notice = Some(notice);
            },
        }
    }
}

/// The item before `cursor` in a list that starts over.
pub open spec fn previous_of(cursor: usize, size: nat) -> usize {
    if cursor == 0 {
        (size - 1) as usize
    } else {
        (cursor - 1) as usize
    }
}

/// The item behind `cursor` in a list that starts over.
pub open spec fn next_of(cursor: usize, size: nat) -> usize {
    ((cursor + 1) % size as int) as usize
}

impl AppView {
    pub open spec fn at_previous_session(self) -> AppView {
        match self.sessions {
            Some(list) => AppView {
                sessions_cursor: previous_of(self.sessions_cursor, list.len()),
                ..self
            },
            None => self,
        }
    }

    pub open spec fn at_next_session(self) -> AppView {
        match self.sessions {
            Some(list) => AppView {
                sessions_cursor: next_of(self.sessions_cursor, list.len()),
                ..self
            },
            None => self,
        }
    }

    pub open spec fn chosen_session(self) -> Option<SessionSummaryView> {
        match self.sessions {
            Some(list) => Some(list[self.sessions_cursor as int]),
            None => None,
        }
    }
}

/// Whether a transcript ends in an unfinished answer of a run.
pub open spec fn has_draft(transcript: Seq<TranscriptItemView>, run: Text) -> bool {
    transcript.len() > 0 && (transcript.last() matches TranscriptItemView::Assistant {
        run_id,
        finalized,
        ..
    } && run_id == run && !finalized)
}

/// A transcript with streamed text added to the answer of a run.
pub open spec fn with_text(transcript: Seq<TranscriptItemView>, run: Text, text: Text) -> Seq<
    TranscriptItemView,
> {
    if has_draft(transcript, run) {
        transcript.drop_last().push(
            TranscriptItemView::Assistant {
                run_id: run,
                text: transcript.last()->Assistant_text + text,
                finalized: false,
            },
        )
    } else {
        transcript.push(TranscriptItemView::Assistant { run_id: run, text, finalized: false })
    }
}

/// A transcript with the final text of an answer, in place of what was
/// streamed of it.
pub open spec fn with_answer(transcript: Seq<TranscriptItemView>, run: Text, text: Text) -> Seq<
    TranscriptItemView,
> {
    let answer = TranscriptItemView::Assistant { run_id: run, text, finalized: true };
    if has_draft(transcript, run) {
        transcript.drop_last().push(answer)
    } else {
        transcript.push(answer)
    }
}

/// A transcript with the latest row of a tool call in a new state.
pub open spec fn with_tool_state(
    transcript: Seq<TranscriptItemView>,
    call: Text,
    new_state: ToolState,
) -> Seq<TranscriptItemView>
    decreases transcript.len(),
{
    if transcript.len() == 0 {
        transcript
    } else {
        match transcript.last() {
            TranscriptItemView::Tool { call_id, name, .. } if call_id == call => transcript.drop_last().push(
                TranscriptItemView::Tool { call_id, name, state: new_state },
            ),
            item => with_tool_state(transcript.drop_last(), call, new_state).push(item),
        }
    }
}

impl AppView {
    /// The state after one entry of the session's stream.
    pub open spec fn applied(self, event: EventView) -> AppView {
        match event {
            EventView::Message { text, .. } => AppView {
                transcript: self.transcript.push(TranscriptItemView::User(text)),
                ..self
            },
            EventView::RunStarted { .. } => AppView { run_state: RunState::Running, ..self },
            EventView::AssistantTextDelta { run_id, text, .. } => AppView {
                transcript: with_text(self.transcript, run_id, text),
                ..self
            },
            EventView::AssistantMessage { run_id, text, .. } => AppView {
                transcript: with_answer(self.transcript, run_id, text),
                ..self
            },
            EventView::ToolCallStarted { call, .. } => AppView {
                transcript: self.transcript.push(
                    TranscriptItemView::Tool {
                        call_id: call.id,
                        name: call.name,
                        state: ToolState::Running,
                    },
                ),
                ..self
            },
            EventView::ToolCallCompleted { result, .. } => AppView {
                transcript: with_tool_state(
                    self.transcript,
                    result.tool_call_id,
                    if result.is_error {
                        ToolState::Failed
                    } else {
                        ToolState::Completed
                    },
                ),
                ..self
            },
            EventView::RunCompleted { .. } => AppView { run_state: RunState::Idle, ..self },
            EventView::RunFailed { error, .. } => AppView {
                run_state: RunState::Failed,
                transcript: self.transcript.push(TranscriptItemView::Error(error)),
                ..self
            },
        }
    }

    pub open spec fn inserting(self, character: char) -> AppView {
        AppView {
            input: self.input.insert(self.cursor as int, character),
            cursor: (self.cursor + 1) as usize,
            ..self
        }
    }

    pub open spec fn backspaced(self) -> AppView {
        if self.cursor > 0 {
            AppView {
                input: self.input.remove(self.cursor - 1),
                cursor: (self.cursor - 1) as usize,
                ..self
            }
        } else {
            self
        }
    }

    pub open spec fn deleted(self) -> AppView {
        if self.cursor < self.input.len() {
            AppView { input: self.input.remove(self.cursor as int), ..self }
        } else {
            self
        }
    }

    pub open spec fn moved_left(self) -> AppView {
        AppView {
            cursor: if self.cursor > 0 {
                (self.cursor - 1) as usize
            } else {
                0
            },
            ..self
        }
    }

    pub open spec fn moved_right(self) -> AppView {
        AppView {
            cursor: if self.cursor < self.input.len() {
                (self.cursor + 1) as usize
            } else {
                self.cursor
            },
            ..self
        }
    }

    pub open spec fn scrolled_up(self, lines: usize) -> AppView {
        AppView {
            scroll: if self.scroll >= lines {
                (self.scroll - lines) as usize
            } else {
                0
            },
            follow_tail: false,
            ..self
        }
    }

    pub open spec fn scrolled_down(self, lines: usize) -> AppView {
        AppView {
            scroll: if self.scroll + lines <= usize::MAX {
                (self.scroll + lines) as usize
            } else {
                usize::MAX
            },
            ..self
        }
    }
}

impl App {
    fn draft_of(&self, run_id: &str) -> (r: bool)
        ensures
            r == has_draft(self@.transcript, run_id@),
    {
        let size: usize = self.transcript.len();
        if size == 0 {
            return false;
        }
        assert(self@.transcript.last() == self.transcript@[size - 1]@);
        match &self.transcript[size - 1] {
            TranscriptItem::Assistant { run_id: owner, finalized, .. } => !*finalized && same(
                owner,
                run_id,
            ),
            _ => false,
        }
    }

    fn apply_text(&mut self, run_id: String, text: String)
        ensures
            final(self)@ == (AppView {
                transcript: with_text(old(self)@.transcript, run_id@, text@),
                ..old(self)@
            }),
    {
        let ghost before = self@.transcript;
        let mut whole = text;
        if self.draft_of(&run_id) {
            let last = self.transcript.pop();
            assert(views(self.transcript@) =~= before.drop_last());
            if let Some(TranscriptItem::Assistant { text: streamed, .. }) = last {
                let mut joined = streamed;
                joined.push_str(&whole);
                whole = joined;
            }
        }
        let ghost rest = views(self.transcript@);
        let item = TranscriptItem::Assistant { run_id, text: whole, finalized: false };
        let ghost added = item@;
        self.transcript.push(item);
        assert(self@.transcript =~= rest.push(added));
    }

    fn apply_answer(&mut self, run_id: String, text: String)
        ensures
            final(self)@ == (AppView {
                transcript: with_answer(old(self)@.transcript, run_id@, text@),
                ..old(self)@
            }),
    {
        let ghost before = self@.transcript;
        if self.draft_of(&run_id) {
            let _ = self.transcript.pop();
            assert(views(self.transcript@) =~= before.drop_last());
        }
        let ghost rest = views(self.transcript@);
        let item = TranscriptItem::Assistant { run_id, text, finalized: true };
        let ghost added = item@;
        self.transcript.push(item);
        assert(self@.transcript =~= rest.push(added));
    }

    fn apply_tool_state(&mut self, call: &str, new_state: ToolState)
        ensures
            final(self)@ == (AppView {
                transcript: with_tool_state(old(self)@.transcript, call@, new_state),
                ..old(self)@
            }),
    {
        let ghost all = self@.transcript;
        let mut i: usize = self.transcript.len();
        assert(all.take(i as int) =~= all);
        assert(all.skip(i as int) =~= seq![]);
        assert(with_tool_state(all, call@, new_state) =~= with_tool_state(
            all.take(i as int),
            call@,
            new_state,
        ) + all.skip(i as int));
        while i > 0
            invariant
                i <= self.transcript@.len(),
                all == self@.transcript,
                *self == *old(self),
                with_tool_state(all, call@, new_state) == with_tool_state(
                    all.take(i as int),
                    call@,
                    new_state,
                ) + all.skip(i as int),
            decreases i,
        {
            let ghost front = all.take(i as int);
            assert(front.last() == self.transcript@[i - 1]@);
            assert(front.drop_last() =~= all.take(i - 1));
            let found = match &self.transcript[i - 1] {
                TranscriptItem::Tool { call_id, name, .. } => {
                    if same(call_id, call) {
                        Some((call_id.clone(), name.clone()))
                    } else {
                        None
                    }
                },
                _ => None,
            };
            if let Some((call_id, name)) = found {
                let item = TranscriptItem::Tool { call_id, name, state: new_state };
                let ghost added = item@;
                self.transcript.set(i - 1, item);
                assert(self@.transcript =~= all.update(i - 1, added));
                assert(front.drop_last().push(added) + all.skip(i as int) =~= all.update(
                    i - 1,
                    added,
                ));
                return;
            }
            assert(with_tool_state(front, call@, new_state) == with_tool_state(
                all.take(i - 1),
                call@,
                new_state,
            ).push(front.last()));
            assert(with_tool_state(front, call@, new_state) + all.skip(i as int)
                =~= with_tool_state(all.take(i - 1), call@, new_state) + all.skip(i - 1));
            i -= 1;
        }
        assert(with_tool_state(all.take(0), call@, new_state) + all.skip(0) =~= all);
    }

    fn push_item(&mut self, item: TranscriptItem)
        ensures
            final(self)@ == (AppView {
                transcript: old(self)@.transcript.push(item@),
                ..old(self)@
            }),
    {
        let ghost before = self@.transcript;
        let ghost added = item@;
        self.transcript.push(item);
        assert(self@.transcript =~= before.push(added));
    }

    /// Shows one entry of the session's stream.
    pub fn apply(&mut self, event: Event)
        ensures
            final(self)@ == old(self)@.applied(event@),
            old(self)@.well_formed() ==> final(self)@.well_formed(),
    {
        match event {
            Event::Message { text, .. } => {
                self.push_item(TranscriptItem::User(text));
            },
            Event::RunStarted { .. } => {
                self.run_state = RunState::Running;
            },
            Event::AssistantTextDelta { run_id, text, .. } => {
                self.apply_text(run_id, text);
            },
            Event::AssistantMessage { run_id, text, .. } => {
                self.apply_answer(run_id, text);
            },
            Event::ToolCallStarted { call, .. } => {
                self.push_item(
                    TranscriptItem::Tool {
                        call_id: call.id,
                        name: call.name,
                        state: ToolState::Running,
                    },
                );
            },
            Event::ToolCallCompleted { result, .. } => {
                let new_state = if result.is_error {
                    ToolState::Failed
                } else {
                    ToolState::Completed
                };
                self.apply_tool_state(&result.tool_call_id, new_state);
            },
            Event::RunCompleted { .. } => {
                self.run_state = RunState::Idle;
            },
            Event::RunFailed { error, .. } => {
                self.run_state = RunState::Failed;
                self.push_item(TranscriptItem::Error(error));
            },
        }
    }

    pub fn insert(&mut self, character: char)
        requires
            old(self)@.well_formed(),
            old(self)@.input.len() < usize::MAX,
        ensures
            final(self)@ == old(self)@.inserting(character),
            final(self)@.well_formed(),
    {
        self.input.insert(self.cursor, character);
        self.cursor = self.cursor + 1;
    }

    pub fn backspace(&mut self)
        requires
            old(self)@.well_formed(),
        ensures
            final(self)@ == old(self)@.backspaced(),
            final(self)@.well_formed(),
    {
        if self.cursor > 0 {
            self.cursor = self.cursor - 1;
            let _ = self.input.remove(self.cursor);
        }
    }

    pub fn delete(&mut self)
        requires
            old(self)@.well_formed(),
        ensures
            final(self)@ == old(self)@.deleted(),
            final(self)@.well_formed(),
    {
        if self.cursor < self.input.len() {
            let _ = self.input.remove(self.cursor);
        }
    }

    pub fn move_left(&mut self)
        requires
            old(self)@.well_formed(),
        ensures
            final(self)@ == old(self)@.moved_left(),
            final(self)@.well_formed(),
    {
        self.cursor = self.cursor.saturating_sub(1);
    }

    pub fn move_right(&mut self)
        requires
            old(self)@.well_formed(),
        ensures
            final(self)@ == old(self)@.moved_right(),
            final(self)@.well_formed(),
    {
        if self.cursor < self.input.len() {
            self.cursor = self.cursor + 1;
        }
    }

    pub fn scroll_up(&mut self, lines: usize)
        ensures
            final(self)@ == old(self)@.scrolled_up(lines),
    {
        self.scroll = self.scroll.saturating_sub(lines);
        self.follow_tail = false;
    }

    pub fn scroll_down(&mut self, lines: usize)
        ensures
            final(self)@ == old(self)@.scrolled_down(lines),
    {
        self.scroll = self.scroll.saturating_add(lines);
    }
}

/// The keys that the client knows.
#[derive(Clone, Copy, Debug, Eq, PartialEq, Structural)]
pub enum KeyCode {
    Enter,
    Esc,
    Up,
    Down,
    Left,
    Right,
    Home,
    End,
    PageUp,
    PageDown,
    Backspace,
    Delete,
    F2,
    Char(char),
    Other,
}

/// A key press. `other` tells of modifiers besides control and shift.
#[derive(Clone, Copy, Debug, Eq, PartialEq, Structural)]
pub struct Key {
    pub code: KeyCode,
    pub control: bool,
    pub shift: bool,
    pub other: bool,
}

/// The content of a [`TuiAction`].
#[verifier::ext_equal]
pub enum TuiActionView {
    Stay,
    Quit,
    Switch(SessionSummaryView),
    Submit { model: ModelRefView, effort: Option<ReasoningEffort>, message: Text },
    Detach,
    ListSessions,
}

/// What a key asks of the surroundings: nothing, leaving, switching to a
/// session, sending a message, detaching from the session so that the next
/// message starts a new one, or fetching the sessions of the workspace.
#[derive(Debug, Eq, PartialEq)]
pub enum TuiAction {
    Stay,
    Quit,
    Switch(SessionSummary),
    Submit { model: ModelRef, effort: Option<ReasoningEffort>, message: String },
    Detach,
    ListSessions,
}

impl View for TuiAction {
    type V = TuiActionView;

    open spec fn view(&self) -> TuiActionView {
        match self {
            TuiAction::Stay => TuiActionView::Stay,
            TuiAction::Quit => TuiActionView::Quit,
            TuiAction::Switch(item) => TuiActionView::Switch(item@),
            TuiAction::Submit { model, effort, message } => TuiActionView::Submit {
                model: model@,
                effort: *effort,
                message: message@,
            },
            TuiAction::Detach => TuiActionView::Detach,
            TuiAction::ListSessions => TuiActionView::ListSessions,
        }
    }
}

impl Clone for TuiAction {
    fn clone(&self) -> (r: Self)
        ensures
            r@ == self@,
    {
        let r = match self {
            TuiAction::Stay => TuiAction::Stay,
            TuiAction::Quit => TuiAction::Quit,
            TuiAction::Switch(item) => TuiAction::Switch(item.clone()),
            TuiAction::Submit { model, effort, message } => TuiAction::Submit {
                model: model.clone(),
                effort: *effort,
                message: message.clone(),
            },
            TuiAction::Detach => TuiAction::Detach,
            TuiAction::ListSessions => TuiAction::ListSessions,
        };
        assert(r@ =~~= self@);
        r
    }
}

impl AppView {
    /// The state and the action after a command line was entered.
    pub open spec fn entered_command(self, raw: Text) -> (AppView, TuiActionView) {
        let parts = words(raw.skip(1));
        let name = if parts.len() > 0 {
            ascii_lower(parts[0])
        } else {
            seq![]
        };
        if name == "new"@ {
            (
                self.noticing("Creating a new chat…"@).with_cleared_input(),
                TuiActionView::Detach,
            )
        } else if name == "sessions"@ {
            (self.with_cleared_input(), TuiActionView::ListSessions)
        } else {
            let (next, leave) = self.commanded(raw);
            (
                next,
                if leave {
                    TuiActionView::Quit
                } else {
                    TuiActionView::Stay
                },
            )
        }
    }

    /// The state and the action after Enter in the composer: a text that
    /// begins with a slash is a command, any other is a message.
    pub open spec fn entered(self) -> (AppView, TuiActionView) {
        let text = trim(self.input);
        if text.len() > 0 && text[0] == '/' {
            self.entered_command(text)
        } else {
            match self.message_to_send() {
                Some(message) => (
                    self.submitting_message(),
                    TuiActionView::Submit { model: self.model(), effort: self.effort, message },
                ),
                None => (self, TuiActionView::Stay),
            }
        }
    }

    /// The state and the action after a key. An open list takes the keys
    /// first; Ctrl+C always leaves.
    pub open spec fn pressed(self, key: Key) -> (AppView, TuiActionView) {
        if key.control && key.code == KeyCode::Char('c') {
            (self, TuiActionView::Quit)
        } else if self.sessions_open {
            match key.code {
                KeyCode::Up | KeyCode::Char('k') => (self.at_previous_session(), TuiActionView::Stay),
                KeyCode::Down | KeyCode::Char('j') => (self.at_next_session(), TuiActionView::Stay),
                KeyCode::Enter => (
                    AppView { sessions_open: false, ..self },
                    match self.chosen_session() {
                        Some(summary) => TuiActionView::Switch(summary),
                        None => TuiActionView::Stay,
                    },
                ),
                KeyCode::Esc => (AppView { sessions_open: false, ..self }, TuiActionView::Stay),
                _ => (self, TuiActionView::Stay),
            }
        } else if self.picker_open {
            match key.code {
                KeyCode::Up | KeyCode::Char('k') => (
                    AppView {
                        picker_model: previous_of(self.picker_model, self.choices.len()),
                        ..self
                    },
                    TuiActionView::Stay,
                ),
                KeyCode::Down | KeyCode::Char('j') => (
                    AppView {
                        picker_model: next_of(self.picker_model, self.choices.len()),
                        ..self
                    },
                    TuiActionView::Stay,
                ),
                KeyCode::Enter => (
                    AppView { picker_open: false, ..self }.selecting(self.picker_model),
                    TuiActionView::Stay,
                ),
                KeyCode::Esc => (AppView { picker_open: false, ..self }, TuiActionView::Stay),
                _ => (self, TuiActionView::Stay),
            }
        } else {
            match key.code {
                KeyCode::F2 => (self.with_model_picker(), TuiActionView::Stay),
                KeyCode::Enter => self.entered(),
                KeyCode::Char(character) => if character == 'u' && key.control {
                    (self.with_cleared_input(), TuiActionView::Stay)
                } else if !key.control && !key.other {
                    (self.inserting(character), TuiActionView::Stay)
                } else {
                    (self, TuiActionView::Stay)
                },
                KeyCode::Backspace => (self.backspaced(), TuiActionView::Stay),
                KeyCode::Delete => (self.deleted(), TuiActionView::Stay),
                KeyCode::Left => (self.moved_left(), TuiActionView::Stay),
                KeyCode::Right => (self.moved_right(), TuiActionView::Stay),
                KeyCode::Home => (AppView { cursor: 0, ..self }, TuiActionView::Stay),
                KeyCode::End => (
                    AppView { cursor: self.input.len() as usize, ..self },
                    TuiActionView::Stay,
                ),
                KeyCode::PageUp => (self.scrolled_up(8), TuiActionView::Stay),
                KeyCode::PageDown => (self.scrolled_down(8), TuiActionView::Stay),
                KeyCode::Up => (self.scrolled_up(1), TuiActionView::Stay),
                KeyCode::Down => (self.scrolled_down(1), TuiActionView::Stay),
                _ => (self, TuiActionView::Stay),
            }
        }
    }
}

/// What the terminal reports.
#[derive(Clone, Copy, Debug, Eq, PartialEq, Structural)]
pub enum TerminalInput {
    Press(Key),
    WheelUp,
    WheelDown,
    Ignored,
}

impl App {
    fn enter_command(&mut self, raw: &str) -> (r: TuiAction)
        requires
            old(self)@.well_formed(),
            raw@.len() > 0,
            raw@[0] == '/',
        ensures
            old(self)@.entered_command(raw@) == (final(self)@, r@),
            final(self)@.well_formed(),
    {
        let chars = to_chars(raw);
        let size: usize = chars.len();
        let rest = crate::text::from_range(&chars, 1, size);
        assert(rest@ =~= raw@.skip(1));
        let parts = words_text(&rest);
        assert(parts@.len() == words(raw@.skip(1)).len());
        if parts.len() > 0 {
            assert(parts@[0]@ == words(raw@.skip(1))[0]);
        }
        let name = if parts.len() > 0 {
            ascii_lower_text(&parts[0])
        } else {
            String::new()
        };
        assert(parts@.len() == 0 ==> name@ =~= Seq::<char>::empty());
        if same(&name, "new") {
            self.notice = Some("Creating a new chat…".to_owned());
            self.clear_input();
            TuiAction::Detach
        } else if same(&name, "sessions") {
            self.clear_input();
            TuiAction::ListSessions
        } else if self.execute_command(raw) {
            TuiAction::Quit
        } else {
            TuiAction::Stay
        }
    }

    fn enter(&mut self) -> (r: TuiAction)
        requires
            old(self)@.well_formed(),
        ensures
            old(self)@.entered() == (final(self)@, r@),
            final(self)@.well_formed(),
    {
        let text = trim_text(&self.input_text());
        let chars = to_chars(&text);
        if chars.len() > 0 && chars[0] == '/' {
            return self.enter_command(&text);
        }
        let effort = self.effort;
        match self.begin_submission() {
            Some((model, message)) => TuiAction::Submit { model, effort, message },
            None => TuiAction::Stay,
        }
    }

    fn session_key(&mut self, key: Key) -> (r: TuiAction)
        requires
            old(self)@.well_formed(),
            old(self)@.sessions_open,
            !(key.control && key.code == KeyCode::Char('c')),
        ensures
            old(self)@.pressed(key) == (final(self)@, r@),
            final(self)@.well_formed(),
    {
        match key.code {
            KeyCode::Up | KeyCode::Char('k') => {
                self.previous_session();
            },
            KeyCode::Down | KeyCode::Char('j') => {
                self.next_session();
            },
            KeyCode::Enter => {
                if let Some(summary) = self.choose_session() {
                    return TuiAction::Switch(summary);
                }
            },
            KeyCode::Esc => {
                self.sessions_open = false;
            },
            _ => {},
        }
        TuiAction::Stay
    }

    fn model_key(&mut self, key: Key) -> (r: TuiAction)
        requires
            old(self)@.well_formed(),
            old(self)@.picker_open,
            !old(self)@.sessions_open,
            !(key.control && key.code == KeyCode::Char('c')),
        ensures
            old(self)@.pressed(key) == (final(self)@, r@),
            final(self)@.well_formed(),
    {
        match key.code {
            KeyCode::Up | KeyCode::Char('k') => {
                self.previous_model();
            },
            KeyCode::Down | KeyCode::Char('j') => {
                self.next_model();
            },
            KeyCode::Enter => {
                self.choose_model();
            },
            KeyCode::Esc => {
                self.picker_open = false;
            },
            _ => {},
        }
        TuiAction::Stay
    }

    /// Takes a key and returns what it asks of the surroundings.
    pub fn handle_key(&mut self, key: Key) -> (r: TuiAction)
        requires
            old(self)@.well_formed(),
            old(self)@.input.len() < usize::MAX,
        ensures
            old(self)@.pressed(key) == (final(self)@, r@),
            final(self)@.well_formed(),
    {
        if key.control && key.code == KeyCode::Char('c') {
            return TuiAction::Quit;
        }
        if self.sessions_open {
            return self.session_key(key);
        }
        if self.picker_open {
            return self.model_key(key);
        }
        match key.code {
            KeyCode::F2 => {
                self.open_model_picker();
            },
            KeyCode::Enter => {
                return self.enter();
            },
            KeyCode::Char(character) => {
                if character == 'u' && key.control {
                    self.clear_input();
                } else if !key.control && !key.other {
                    self.insert(character);
                }
            },
            KeyCode::Backspace => {
                self.backspace();
            },
            KeyCode::Delete => {
                self.delete();
            },
            KeyCode::Left => {
                self.move_left();
            },
            KeyCode::Right => {
                self.move_right();
            },
            KeyCode::Home => {
                self.cursor = 0;
            },
            KeyCode::End => {
                self.cursor = self.input.len();
            },
            KeyCode::PageUp => {
                self.scroll_up(8);
            },
            KeyCode::PageDown => {
                self.scroll_down(8);
            },
            KeyCode::Up => {
                self.scroll_up(1);
            },
            KeyCode::Down => {
                self.scroll_down(1);
            },
            _ => {},
        }
        TuiAction::Stay
    }

    /// Takes what the terminal reports. The mouse wheel scrolls by three lines.
    pub fn handle_terminal_event(&mut self, input: TerminalInput) -> (r: TuiAction)
        requires
            old(self)@.well_formed(),
            old(self)@.input.len() < usize::MAX,
        ensures
            match input {
                TerminalInput::Press(key) => old(self)@.pressed(key) == (final(self)@, r@),
                TerminalInput::WheelUp => r@ is Stay && final(self)@ == old(self)@.scrolled_up(3),
                TerminalInput::WheelDown => r@ is Stay && final(self)@ == old(self)@.scrolled_down(
                    3,
                ),
                TerminalInput::Ignored => r@ is Stay && final(self)@ == old(self)@,
            },
            final(self)@.well_formed(),
    {
        match input {
            TerminalInput::Press(key) => self.handle_key(key),
            TerminalInput::WheelUp => {
                self.scroll_up(3);
                TuiAction::Stay
            },
            TerminalInput::WheelDown => {
                self.scroll_down(3);
                TuiAction::Stay
            },
            TerminalInput::Ignored => TuiAction::Stay,
        }
    }
}

/// The content of a [`Control`].
#[verifier::ext_equal]
pub enum ControlView {
    StreamReady { session_id: Text },
    Detached,
    Sessions(Seq<SessionSummaryView>),
    Failed(Text),
}

/// What background work reports back: a freshly subscribed event stream of a
/// session, a detached client, the sessions of the workspace, or a failure.
#[derive(Debug, Eq, PartialEq)]
pub enum Control {
    StreamReady { session_id: String },
    Detached,
    Sessions(Vec<SessionSummary>),
    Failed(String),
}

impl View for Control {
    type V = ControlView;

    open spec fn view(&self) -> ControlView {
        match self {
            Control::StreamReady { session_id } => ControlView::StreamReady {
                session_id: session_id@,
            },
            Control::Detached => ControlView::Detached,
            Control::Sessions(item) => ControlView::Sessions(views(item@)),
            Control::Failed(item) => ControlView::Failed(item@),
        }
    }
}

impl Clone for Control {
    fn clone(&self) -> (r: Self)
        ensures
            r@ == self@,
    {
        let r = match self {
            Control::StreamReady { session_id } => Control::StreamReady {
                session_id: session_id.clone(),
            },
            Control::Detached => Control::Detached,
            Control::Sessions(item) => Control::Sessions(item.clone()),
            Control::Failed(item) => Control::Failed(item.clone()),
        };
        assert(r@ =~~= self@);
        r
    }
}

/// The content of a [`ClientChange`].
#[verifier::ext_equal]
pub enum ClientChangeView {
    Keep,
    Select(Text),
    Clear,
}

/// What becomes of the session that the client is attached to.
#[derive(Debug, Eq, PartialEq)]
pub enum ClientChange {
    Keep,
    Select(String),
    Clear,
}

impl View for ClientChange {
    type V = ClientChangeView;

    open spec fn view(&self) -> ClientChangeView {
        match self {
            ClientChange::Keep => ClientChangeView::Keep,
            ClientChange::Select(item) => ClientChangeView::Select(item@),
            ClientChange::Clear => ClientChangeView::Clear,
        }
    }
}

impl Clone for ClientChange {
    fn clone(&self) -> (r: Self)
        ensures
            r@ == self@,
    {
        let r = match self {
            ClientChange::Keep => ClientChange::Keep,
            ClientChange::Select(item) => ClientChange::Select(item.clone()),
            ClientChange::Clear => ClientChange::Clear,
        };
        assert(r@ =~~= self@);
        r
    }
}

impl AppView {
    /// The state after background work reported, and what becomes of the
    /// attached session.
    pub open spec fn controlled(self, control: ControlView) -> (AppView, ClientChangeView) {
        match control {
            ControlView::StreamReady { session_id } => (
                self.for_session_switch(),
                ClientChangeView::Select(session_id),
            ),
            ControlView::Detached => (self.for_session_switch(), ClientChangeView::Clear),
            ControlView::Sessions(sessions) => (
                self.with_sessions(sessions),
                ClientChangeView::Keep,
            ),
            ControlView::Failed(error) => (self.noticing(error), ClientChangeView::Keep),
        }
    }
}

impl App {
    /// Takes a report of background work.
    pub fn handle_control(&mut self, control: Control) -> (r: ClientChange)
        requires
            old(self)@.well_formed(),
        ensures
            old(self)@.controlled(control@) == (final(self)@, r@),
            final(self)@.well_formed(),
    {
        match control {
            Control::StreamReady { session_id } => {
                self.reset_for_session_switch();
                ClientChange::Select(session_id)
            },
            Control::Detached => {
                self.reset_for_session_switch();
                ClientChange::Clear
            },
            Control::Sessions(sessions) => {
                self.open_sessions_overlay(sessions);
                ClientChange::Keep
            },
            Control::Failed(error) => {
                self.notice = Some(error);
                ClientChange::Keep
            },
        }
    }
}

/// However an answer was streamed, its final text takes the place of what was
/// shown of it: nothing is shown twice.
pub proof fn final_answers_replace_drafts(
    transcript: Seq<TranscriptItemView>,
    run: Text,
    streamed: Text,
    text: Text,
)
    ensures
        with_answer(with_text(transcript, run, streamed), run, text) == with_answer(
            transcript,
            run,
            text,
        ),
        with_answer(transcript, run, text).last() == (TranscriptItemView::Assistant {
            run_id: run,
            text,
            finalized: true,
        }),
        with_answer(transcript, run, text).len() <= transcript.len() + 1,
{
    let shown = with_text(transcript, run, streamed);
    if has_draft(transcript, run) {
        assert(shown.drop_last() =~= transcript.drop_last());
    } else {
        assert(shown.drop_last() =~= transcript);
    }
}

/// It does not matter into how many pieces streamed text was cut.
pub proof fn streamed_pieces_join(
    transcript: Seq<TranscriptItemView>,
    run: Text,
    first: Text,
    second: Text,
)
    ensures
        with_text(with_text(transcript, run, first), run, second) == with_text(
            transcript,
            run,
            first + second,
        ),
{
    let shown = with_text(transcript, run, first);
    if has_draft(transcript, run) {
        assert(shown.drop_last() =~= transcript.drop_last());
        let draft = transcript.last()->Assistant_text;
        assert(draft + first + second =~= draft + (first + second));
    } else {
        assert(shown.drop_last() =~= transcript);
    }
}

/// A finished answer is never written to again: what follows it, of the same
/// run or of another, gets an entry of its own.
pub proof fn finished_answers_stay(
    transcript: Seq<TranscriptItemView>,
    run: Text,
    text: Text,
    later_run: Text,
    later: Text,
)
    ensures
        with_text(with_answer(transcript, run, text), later_run, later) == with_answer(
            transcript,
            run,
            text,
        ).push(
            TranscriptItemView::Assistant { run_id: later_run, text: later, finalized: false },
        ),
{
}

/// A finished tool call changes its own row alone.
pub proof fn tool_rows_are_updated_in_place(
    transcript: Seq<TranscriptItemView>,
    call: Text,
    new_state: ToolState,
)
    ensures
        with_tool_state(transcript, call, new_state).len() == transcript.len(),
        forall|i: int|
            0 <= i < transcript.len() && !(transcript[i] matches TranscriptItemView::Tool {
                call_id,
                ..
            } && call_id == call) ==> #[trigger] with_tool_state(transcript, call, new_state)[i]
                == transcript[i],
    decreases transcript.len(),
{
    if transcript.len() > 0 {
        tool_rows_are_updated_in_place(transcript.drop_last(), call, new_state);
        let result = with_tool_state(transcript, call, new_state);
        assert forall|i: int|
            0 <= i < transcript.len() && !(transcript[i] matches TranscriptItemView::Tool {
                call_id,
                ..
            } && call_id == call) implies #[trigger] result[i] == transcript[i] by {
            if i < transcript.len() - 1 {
                assert(transcript.drop_last()[i] == transcript[i]);
            }
        }
    }
}

/// An effort that a command or a model choice selects is one that the selected
/// model offers, or none.
pub proof fn selected_efforts_are_offered(app: AppView, index: usize, level: Text)
    requires
        app.well_formed(),
        index < app.choices.len(),
    ensures
        app.selecting(index).effort matches Some(effort) ==> offered(
            app.selecting(index).choice(),
        ).contains(effort),
        app.with_next_effort().effort matches Some(effort) ==> offered(app.choice()).contains(
            effort,
        ),
        app.with_effort(level).effort == app.effort || (app.with_effort(level).effort matches Some(
            effort,
        ) && offered(app.choice()).contains(effort)),
{
    let cycle = cycle_levels(app.choice());
    let list = offered(app.choice());
    level_position_bounds(cycle, app.effort);
    let at = match level_position(cycle, app.effort) {
        Some(i) => (i + 1) % cycle.len() as int,
        None => 0,
    };
    assert(0 <= at < cycle.len());
    if at > 0 {
        assert(cycle[at] == Some(list[at - 1]));
        assert(list.contains(list[at - 1]));
    }
}

proof fn level_position_bounds(
    levels: Seq<Option<ReasoningEffort>>,
    current: Option<ReasoningEffort>,
)
    ensures
        match level_position(levels, current) {
            Some(i) => 0 <= i < levels.len() && levels[i] == current && forall|k: int|
                0 <= k < i ==> levels[k] != current,
            None => forall|k: int| 0 <= k < levels.len() ==> levels[k] != current,
        },
    decreases levels.len(),
{
    if levels.len() > 0 {
        level_position_bounds(levels.drop_last(), current);
        assert forall|k: int| 0 <= k < levels.len() - 1 implies levels[k]
            == levels.drop_last()[k] by {}
    }
}

/// Cycling goes through the default and every offered level in turn and then
/// starts over, whatever the list is, as long as it names no level twice.
pub proof fn cycling_visits_every_level(choice: ModelChoiceView, i: int)
    requires
        offered(choice).no_duplicates(),
        0 <= i < cycle_levels(choice).len(),
    ensures
        next_level(cycle_levels(choice), cycle_levels(choice)[i]) == cycle_levels(
            choice,
        )[(i + 1) % cycle_levels(choice).len() as int],
{
    let cycle = cycle_levels(choice);
    let list = offered(choice);
    level_position_bounds(cycle, cycle[i]);
    let at = level_position(cycle, cycle[i])->0;
    if at > 0 && i > 0 {
        assert(cycle[at] == Some(list[at - 1]));
        assert(cycle[i] == Some(list[i - 1]));
    } else if at > 0 {
        assert(cycle[at] == Some(list[at - 1]));
    } else if i > 0 {
        assert(cycle[i] == Some(list[i - 1]));
    }
}

/// `/clear` empties the transcript view and leaves the rest of the client as it
/// is: the session and its history are not touched.
pub proof fn clearing_touches_the_view_only(app: AppView, raw: Text)
    requires
        words(raw.skip(1)).len() > 0,
        ascii_lower(words(raw.skip(1))[0]) == "clear"@,
    ensures
        app.commanded(raw) == (
            AppView {
                transcript: seq![],
                scroll: 0,
                follow_tail: true,
                notice: Some("Cleared the transcript view."@),
                ..app
            },
            false,
        ),
{
    reveal_strlit("clear");
    reveal_strlit("quit");
    reveal_strlit("exit");
}

/// A message that could not be sent is back in the composer, as it was typed,
/// and can be sent again.
pub proof fn failed_messages_can_be_retried(app: AppView, message: Text, error: Text)
    requires
        app.well_formed(),
        app.message_to_send() == Some(message),
    ensures
        ({
            let again = app.submitting_message().after_submission(message, Some(error));
            &&& again.input == app.input
            &&& again.message_to_send() == Some(message)
            &&& again.notice == Some(error)
        }),
{
}

/// While a message is on its way, no second one is sent.
pub proof fn one_submission_at_a_time(app: AppView, key: Key)
    requires
        app.submitting,
    ensures
        !(app.pressed(key).1 is Submit),
{
}

/// A replayed session starts from a clean view but keeps what the user typed,
/// the model and the effort.
pub proof fn switching_keeps_the_composer(app: AppView, control: ControlView)
    requires
        control is StreamReady || control is Detached,
    ensures
        app.controlled(control).0.transcript.len() == 0,
        app.controlled(control).0.input == app.input,
        app.controlled(control).0.selected_model == app.selected_model,
        app.controlled(control).0.effort == app.effort,
{
}

/// Whenever a key asks to submit a message, it is Enter in the composer, and
/// what is submitted is what the client shows: the selected model, the selected
/// effort, and the text of the composer as it was typed. From then on the
/// composer is empty, and nothing else changes.
pub proof fn submissions_carry_the_selection(app: AppView, key: Key)
    requires
        app.well_formed(),
    ensures
        ({
            let (next, action) = app.pressed(key);
            action matches TuiActionView::Submit { model, effort, message } ==> {
                &&& key.code == KeyCode::Enter
                &&& !app.sessions_open && !app.picker_open && !app.submitting
                &&& model.provider == app.choices[app.selected_model as int].provider_id
                &&& model.id == app.choices[app.selected_model as int].model
                &&& effort == app.effort
                &&& message == app.input
                &&& next == (AppView {
                    input: seq![],
                    cursor: 0,
                    submitting: true,
                    notice: None,
                    ..app
                })
            }
        }),
{
}

/// Enter submits whatever was typed, unless it is blank or a command, or another
/// message is on its way.
pub proof fn enter_submits_what_was_typed(app: AppView, key: Key)
    requires
        app.well_formed(),
        key.code == KeyCode::Enter,
        !app.sessions_open,
        !app.picker_open,
        trim(app.input).len() > 0,
        trim(app.input)[0] != '/',
    ensures
        app.pressed(key).1 is Submit <==> !app.submitting,
        app.submitting ==> app.pressed(key) == (app, TuiActionView::Stay),
{
}

/// A client that is typed to.
pub open spec fn typed(app: AppView, text: Text) -> AppView
    decreases text.len(),
{
    if text.len() == 0 {
        app
    } else {
        typed(app, text.drop_last()).pressed(
            Key { code: KeyCode::Char(text.last()), control: false, shift: false, other: false },
        ).0
    }
}

/// What is typed stands in the composer, character for character, where the
/// cursor was, and nothing else changes.
pub proof fn typing_writes_at_the_cursor(app: AppView, text: Text)
    requires
        app.well_formed(),
        !app.sessions_open,
        !app.picker_open,
        app.input.len() + text.len() < usize::MAX,
    ensures
        typed(app, text) == (AppView {
            input: app.input.take(app.cursor as int) + text + app.input.skip(app.cursor as int),
            cursor: (app.cursor + text.len()) as usize,
            ..app
        }),
    decreases text.len(),
{
    let at = app.cursor as int;
    if text.len() == 0 {
        assert(app.input.take(at) + text + app.input.skip(at) =~= app.input);
    } else {
        typing_writes_at_the_cursor(app, text.drop_last());
        let before = app.input.take(at) + text.drop_last() + app.input.skip(at);
        assert(before.insert(at + text.len() - 1, text.last()) =~= app.input.take(at) + text
            + app.input.skip(at));
    }
}

/// Backspace takes back what was typed last; Delete takes the character behind
/// the cursor, so that going left first makes it the same.
pub proof fn typing_is_taken_back(app: AppView, c: char)
    requires
        app.well_formed(),
        app.input.len() < usize::MAX,
    ensures
        app.inserting(c).backspaced() == app,
        app.cursor > 0 ==> app.moved_left().deleted() == app.backspaced(),
        app.cursor > 0 ==> app.moved_left().moved_right() == app,
        app.cursor == 0 ==> app.backspaced() == app && app.moved_left() == app,
        app.cursor == app.input.len() ==> app.deleted() == app && app.moved_right() == app,
{
    assert(app.inserting(c).backspaced().input =~= app.input);
}

/// The keys of the composer edit its text and move its cursor; the model, the
/// effort and the transcript stay as they are.
pub proof fn editing_keeps_the_selection(app: AppView, key: Key)
    requires
        app.well_formed(),
        !app.sessions_open,
        !app.picker_open,
        key.code != KeyCode::Enter,
        key.code != KeyCode::F2,
    ensures
        ({
            let next = app.pressed(key).0;
            &&& next.selected_model == app.selected_model
            &&& next.choices == app.choices
            &&& next.effort == app.effort
            &&& next.transcript == app.transcript
            &&& next.submitting == app.submitting
            &&& app.pressed(key).1 is Stay || app.pressed(key).1 is Quit
        }),
{
}

/// The list of models goes round in both directions, and Enter selects the model
/// it points at. The effort stays if that model offers it.
pub proof fn the_model_list_selects(app: AppView, shift: bool)
    requires
        app.well_formed(),
        app.picker_open,
        !app.sessions_open,
        app.choices.len() < usize::MAX,
    ensures
        ({
            let press = |code: KeyCode|
                app.pressed(Key { code, control: false, shift, other: false }).0;
            &&& press(KeyCode::Enter).selected_model == app.picker_model
            &&& !press(KeyCode::Enter).picker_open
            &&& press(KeyCode::Enter).effort == (match app.effort {
                Some(level) if offered(app.choices[app.picker_model as int]).contains(level) => Some(
                    level,
                ),
                _ => None,
            })
            &&& press(KeyCode::Esc) == (AppView { picker_open: false, ..app })
            &&& press(KeyCode::Down).picker_model == (if app.picker_model + 1 == app.choices.len() {
                0
            } else {
                app.picker_model + 1
            })
            &&& press(KeyCode::Up).picker_model == (if app.picker_model == 0 {
                app.choices.len() - 1
            } else {
                app.picker_model - 1
            })
            &&& press(KeyCode::Down).selected_model == app.selected_model
            &&& press(KeyCode::Up).selected_model == app.selected_model
        }),
{
    let n = app.choices.len() as int;
    let i = app.picker_model + 1;
    if i < n {
        assert(i % n == i) by (nonlinear_arith)
            requires
                0 <= i < n,
        ;
    } else {
        assert(i % n == 0) by (nonlinear_arith)
            requires
                i == n,
                n > 0,
        ;
    }
}

/// The list of sessions goes round, and Enter switches to the session it points
/// at.
pub proof fn the_session_list_switches(app: AppView, list: Seq<SessionSummaryView>, shift: bool)
    requires
        app.well_formed(),
        app.sessions_open,
        app.sessions == Some(list),
        list.len() < usize::MAX,
    ensures
        ({
            let press = |code: KeyCode| app.pressed(Key { code, control: false, shift, other: false });
            &&& press(KeyCode::Enter).1 == TuiActionView::Switch(list[app.sessions_cursor as int])
            &&& !press(KeyCode::Enter).0.sessions_open
            &&& press(KeyCode::Esc) == (
                AppView { sessions_open: false, ..app },
                TuiActionView::Stay,
            )
            &&& press(KeyCode::Down).0.sessions_cursor == (if app.sessions_cursor + 1
                == list.len() {
                0
            } else {
                app.sessions_cursor + 1
            })
            &&& press(KeyCode::Up).0.sessions_cursor == (if app.sessions_cursor == 0 {
                list.len() - 1
            } else {
                app.sessions_cursor - 1
            })
        }),
{
    let n = list.len() as int;
    let i = app.sessions_cursor + 1;
    if i < n {
        assert(i % n == i) by (nonlinear_arith)
            requires
                0 <= i < n,
        ;
    } else {
        assert(i % n == 0) by (nonlinear_arith)
            requires
                i == n,
                n > 0,
        ;
    }
}

/// `/reasoning` with a level selects that level if the model offers it, and
/// otherwise keeps the one there was; it changes nothing but the notice besides.
pub proof fn reasoning_commands_select_the_level(
    app: AppView,
    raw: Text,
    name: Text,
    level: Text,
    effort: ReasoningEffort,
)
    requires
        words(raw.skip(1)) == seq![name, level],
        ascii_lower(name) == "reasoning"@,
        ascii_lower(level) == effort.spelling(),
    ensures
        ({
            let (next, action) = app.entered_command(raw);
            &&& action is Stay
            &&& next.effort == (if offered(app.choices[app.selected_model as int]).contains(effort) {
                Some(effort)
            } else {
                app.effort
            })
            &&& next == (AppView { effort: next.effort, notice: next.notice, ..app })
        }),
{
    commands_differ();
    parse_inverts_spelling(level, effort);
}

/// `/model` with a provider and a model selects just that one, wherever it stands
/// in the list; a name that fits nothing selects nothing.
pub proof fn model_commands_select_the_model(
    app: AppView,
    raw: Text,
    name: Text,
    spec: Text,
    provider: Text,
    model: Text,
)
    requires
        app.well_formed(),
        app.choices.len() <= usize::MAX,
        words(raw.skip(1)) == seq![name, spec],
        ascii_lower(name) == "model"@,
        spec == provider + seq!['/'] + model,
        !provider.contains('/'),
    ensures
        ({
            let (next, action) = app.entered_command(raw);
            let listed = exists|k: int|
                0 <= k < app.choices.len() && (#[trigger] app.choices[k]).provider_id == provider
                    && app.choices[k].model == model;
            &&& action is Stay
            &&& listed ==> next.choices[next.selected_model as int].provider_id == provider
                && next.choices[next.selected_model as int].model == model
            &&& !listed ==> next.selected_model == app.selected_model && next.effort == app.effort
            &&& next.choices == app.choices
            &&& next.transcript == app.transcript
        }),
{
    commands_differ();
    choices_are_found(app.choices, provider, model);
    split_once_parts(spec, '/');
    assert(spec[provider.len() as int] == '/');
    assert(spec.contains('/'));
    let (head, tail) = split_once(spec, '/')->0;
    assert(head.push('/') + tail == spec);
    if head.len() < provider.len() {
        assert(spec[head.len() as int] == '/');
        assert(provider[head.len() as int] == '/');
    } else if head.len() > provider.len() {
        assert(head[provider.len() as int] == spec[provider.len() as int]);
        assert(head.contains('/'));
    }
    assert(head =~= provider) by {
        assert(head =~= spec.take(head.len() as int));
        assert(provider =~= spec.take(provider.len() as int));
    }
    assert(tail =~= model) by {
        assert(tail =~= spec.skip(head.len() as int + 1));
        assert(model =~= spec.skip(provider.len() as int + 1));
    }
}

proof fn commands_differ()
    ensures
        "reasoning"@ != "new"@ && "reasoning"@ != "sessions"@ && "reasoning"@ != "quit"@
            && "reasoning"@ != "exit"@ && "reasoning"@ != "clear"@ && "reasoning"@ != "model"@,
        "model"@ != "new"@ && "model"@ != "sessions"@ && "model"@ != "quit"@ && "model"@ != "exit"@
            && "model"@ != "clear"@,
{
    reveal_strlit("reasoning");
    reveal_strlit("model");
    reveal_strlit("new");
    reveal_strlit("sessions");
    reveal_strlit("quit");
    reveal_strlit("exit");
    reveal_strlit("clear");
    assert("reasoning"@[0] == 'r' && "model"@[0] == 'm' && "new"@[0] == 'n' && "sessions"@[0] == 's'
        && "quit"@[0] == 'q' && "exit"@[0] == 'e' && "clear"@[0] == 'c');
}

/// The transcript shows the session's stream: what the user said, what is
/// answered, each tool call from its start on, and failures, each behind what was
/// there before. A run is shown as running from its start to its end.
pub proof fn the_stream_is_shown(app: AppView, event: EventView)
    ensures
        match event {
            EventView::Message { text, .. } => app.applied(event) == (AppView {
                transcript: app.transcript.push(TranscriptItemView::User(text)),
                ..app
            }),
            EventView::RunStarted { .. } => app.applied(event) == (AppView {
                run_state: RunState::Running,
                ..app
            }),
            EventView::AssistantTextDelta { text, run_id, .. } => {
                let shown = app.applied(event).transcript;
                &&& shown.len() > 0
                &&& shown.last() matches TranscriptItemView::Assistant {
                    run_id: owner,
                    text: all,
                    finalized,
                } && owner == run_id && !finalized && all.len() >= text.len() && all.skip(
                    all.len() - text.len(),
                ) == text
                &&& app.transcript.len() <= shown.len() <= app.transcript.len() + 1
            },
            EventView::AssistantMessage { text, run_id, .. } => {
                let shown = app.applied(event).transcript;
                shown.len() > 0 && shown.last() == (TranscriptItemView::Assistant {
                    run_id,
                    text,
                    finalized: true,
                })
            },
            EventView::ToolCallStarted { call, .. } => app.applied(event).transcript
                == app.transcript.push(
                TranscriptItemView::Tool {
                    call_id: call.id,
                    name: call.name,
                    state: ToolState::Running,
                },
            ),
            EventView::ToolCallCompleted { .. } => app.applied(event).transcript.len()
                == app.transcript.len() && app.applied(event).run_state == app.run_state,
            EventView::RunCompleted { .. } => app.applied(event) == (AppView {
                run_state: RunState::Idle,
                ..app
            }),
            EventView::RunFailed { error, .. } => app.applied(event) == (AppView {
                run_state: RunState::Failed,
                transcript: app.transcript.push(TranscriptItemView::Error(error)),
                ..app
            }),
        },
{
    match event {
        EventView::AssistantTextDelta { text, run_id, .. } => {
            let shown = app.applied(event).transcript;
            let all = shown.last()->Assistant_text;
            assert(all.skip(all.len() - text.len()) =~= text);
        },
        EventView::ToolCallCompleted { result, .. } => {
            tool_rows_are_updated_in_place(
                app.transcript,
                result.tool_call_id,
                if result.is_error {
                    ToolState::Failed
                } else {
                    ToolState::Completed
                },
            );
        },
        _ => {},
    }
}

/// The result of a tool call is shown at its row, the latest one with its id: as
/// failed if it is an error, and as completed otherwise.
pub proof fn tool_results_reach_their_row(
    transcript: Seq<TranscriptItemView>,
    call: Text,
    new_state: ToolState,
    at: int,
)
    requires
        0 <= at < transcript.len(),
        transcript[at] matches TranscriptItemView::Tool { call_id, .. } && call_id == call,
        forall|i: int|
            at < i < transcript.len() ==> !((#[trigger] transcript[i]) matches TranscriptItemView::Tool {
                call_id,
                ..
            } && call_id == call),
    ensures
        with_tool_state(transcript, call, new_state)[at] == (TranscriptItemView::Tool {
            call_id: call,
            name: transcript[at]->Tool_name,
            state: new_state,
        }),
    decreases transcript.len(),
{
    let last = transcript.len() - 1;
    tool_rows_are_updated_in_place(transcript.drop_last(), call, new_state);
    if at < last {
        let front = transcript.drop_last();
        assert(!(transcript[last] matches TranscriptItemView::Tool { call_id, .. } && call_id
            == call));
        assert forall|i: int| at < i < front.len() implies !((
        #[trigger] front[i]) matches TranscriptItemView::Tool { call_id, .. } && call_id == call) by {
            assert(front[i] == transcript[i]);
        }
        tool_results_reach_their_row(front, call, new_state, at);
    }
}

/// Tool results change the state of their call, and say whether it failed.
pub proof fn tool_results_say_whether_they_failed(app: AppView, event: EventView)
    requires
        event is ToolCallCompleted,
    ensures
        app.applied(event).transcript == with_tool_state(
            app.transcript,
            event->ToolCallCompleted_result.tool_call_id,
            if event->ToolCallCompleted_result.is_error {
                ToolState::Failed
            } else {
                ToolState::Completed
            },
        ),
{
}

/// A client starts with the preferred model where it can be chosen, and with the
/// preferred effort; it asks for a model only where there is a choice to make.
pub proof fn clients_start_with_what_is_preferred(
    choices: Seq<ModelChoiceView>,
    preferred: ModelRefView,
    effort: Option<ReasoningEffort>,
)
    requires
        0 < choices.len() <= usize::MAX,
    ensures
        ({
            let app = AppView::opened(choices, Some(preferred), effort);
            let listed = exists|k: int|
                0 <= k < choices.len() && (#[trigger] choices[k]).provider_id == preferred.provider
                    && choices[k].model == preferred.id;
            &&& app.effort == effort
            &&& app.choices == choices
            &&& listed ==> !app.picker_open && app.choices[app.selected_model as int].provider_id
                == preferred.provider && app.choices[app.selected_model as int].model
                == preferred.id
            &&& !listed ==> app.selected_model == 0 && app.picker_open == (choices.len() > 1)
            &&& app.transcript.len() == 0 && app.input.len() == 0 && !app.submitting
        }),
{
    choices_are_found(choices, preferred.provider, preferred.id);
}

/// Scrolling moves the view by the lines it is asked for and stops at the top;
/// scrolling up and down again comes back, and looking up stops following.
pub proof fn scrolling_moves_the_view(app: AppView, lines: usize)
    requires
        lines <= app.scroll,
    ensures
        app.scrolled_up(lines).scroll == app.scroll - lines,
        !app.scrolled_up(lines).follow_tail,
        app.scrolled_up(lines).scrolled_down(lines).scroll == app.scroll,
{
}

/// A key that submits a message hands over what the client showed before it: the selected model,
/// the selected effort and the text of the composer.
pub proof fn keys_submit_what_is_shown(app: &mut App, key: Key, r: TuiAction)
    requires
        old(app)@.well_formed(),
        old(app)@.input.len() < usize::MAX,
        call_ensures(App::handle_key, (app, key), r),
    ensures
        r@ matches TuiActionView::Submit { model, effort, message } ==> {
            &&& model.provider == old(app)@.choices[old(app)@.selected_model as int].provider_id
            &&& model.id == old(app)@.choices[old(app)@.selected_model as int].model
            &&& effort == old(app)@.effort
            &&& message == old(app)@.input
            &&& final(app)@.input.len() == 0
        },
        key.code == KeyCode::Enter && !old(app)@.sessions_open && !old(app)@.picker_open
            && !old(app)@.submitting && trim(old(app)@.input).len() > 0 && trim(
            old(app)@.input,
        )[0] != '/' ==> r@ is Submit,
{
    submissions_carry_the_selection(old(app)@, key);
    if key.code == KeyCode::Enter && !old(app)@.sessions_open && !old(app)@.picker_open && trim(
        old(app)@.input,
    ).len() > 0 && trim(old(app)@.input)[0] != '/' {
        enter_submits_what_was_typed(old(app)@, key);
    }
}

/// The commands that leave, start a new chat or ask for the sessions do so, and one that is not
/// known changes nothing but the notice, which names it.
pub proof fn commands_are_carried_out(app: AppView, raw: Text)
    requires
        words(raw.skip(1)).len() > 0,
    ensures
        ({
            let name = ascii_lower(words(raw.skip(1))[0]);
            let (next, action) = app.entered_command(raw);
            &&& action is Quit <==> name == "quit"@ || name == "exit"@
            &&& action is Detach <==> name == "new"@
            &&& action is ListSessions <==> name == "sessions"@
            &&& !(action is Submit) && !(action is Switch)
            &&& action is Quit ==> next == app
            &&& action is ListSessions ==> next == (AppView { input: seq![], cursor: 0, ..app })
            &&& action is Detach ==> next == (AppView {
                input: seq![],
                cursor: 0,
                notice: next.notice,
                ..app
            })
            &&& name.len() > 0 && name != "quit"@ && name != "exit"@ && name != "new"@ && name
                != "sessions"@ && name != "clear"@ && name != "model"@ && name != "reasoning"@
                ==> action is Stay && next == (AppView {
                notice: Some(
                    "Unknown command /"@ + name
                        + ". Available: /new, /sessions, /model, /reasoning, /clear, /quit."@,
                ),
                ..app
            })
        }),
{
    reveal_strlit("quit");
    reveal_strlit("exit");
    reveal_strlit("new");
    reveal_strlit("sessions");
    reveal_strlit("clear");
    reveal_strlit("model");
    reveal_strlit("reasoning");
    assert("quit"@[0] == 'q' && "exit"@[0] == 'e' && "new"@[0] == 'n' && "sessions"@[0] == 's'
        && "clear"@[0] == 'c' && "model"@[0] == 'm' && "reasoning"@[0] == 'r');
}

/// Background work that reports a session attaches the client to just that session, a list of
/// sessions is shown as it came with its first entry marked, and a failure is told.
pub proof fn background_reports_are_taken(
    app: AppView,
    session_id: Text,
    sessions: Seq<SessionSummaryView>,
    error: Text,
)
    ensures
        app.controlled(ControlView::StreamReady { session_id }).1 == ClientChangeView::Select(
            session_id,
        ),
        app.controlled(ControlView::Detached).1 == ClientChangeView::Clear,
        sessions.len() > 0 ==> app.controlled(ControlView::Sessions(sessions)) == (
            AppView {
                sessions: Some(sessions),
                sessions_cursor: 0,
                sessions_open: true,
                ..app
            },
            ClientChangeView::Keep,
        ),
        sessions.len() == 0 ==> app.controlled(ControlView::Sessions(sessions)).0.sessions_open
            == app.sessions_open && app.controlled(ControlView::Sessions(sessions)).0.notice
            is Some,
        app.controlled(ControlView::Failed(error)) == (
            AppView { notice: Some(error), ..app },
            ClientChangeView::Keep,
        ),
{
}

/// A submission that came back frees the composer: one that arrived leaves it as it is, one that
/// failed puts its message back unless something else was typed meanwhile, and says why.
pub proof fn submissions_come_back(app: AppView, message: Text, error: Text)
    requires
        message.len() <= usize::MAX,
    ensures
        app.after_submission(message, None) == (AppView {
            submitting: false,
            follow_tail: true,
            ..app
        }),
        app.input.len() > 0 ==> app.after_submission(message, Some(error)) == (AppView {
            submitting: false,
            notice: Some(error),
            ..app
        }),
        app.input.len() == 0 ==> app.after_submission(message, Some(error)) == (AppView {
            submitting: false,
            notice: Some(error),
            input: message,
            cursor: message.len() as usize,
            ..app
        }),
{
}

/// The levels that are cycled through are the default and then every offered one, in order.
pub proof fn cycles_hold_every_level(choice: ModelChoiceView, i: int)
    requires
        0 <= i < offered(choice).len(),
    ensures
        cycle_levels(choice).len() == offered(choice).len() + 1,
        cycle_levels(choice)[0] is None,
        cycle_levels(choice)[i + 1] == Some(offered(choice)[i]),
{
}

proof fn names_are_counted(choices: Seq<ModelChoiceView>, model: Text, i: int, j: int)
    ensures
        (forall|k: int| 0 <= k < choices.len() ==> (#[trigger] choices[k]).model != model)
            ==> count_named(choices, model) == 0,
        0 <= i < choices.len() && choices[i].model == model ==> count_named(choices, model) >= 1,
        0 <= i < choices.len() && choices[i].model == model && (forall|k: int|
            0 <= k < choices.len() && k != i ==> (#[trigger] choices[k]).model != model)
            ==> count_named(choices, model) == 1 && last_named(choices, model) == Some(i),
        0 <= i < j < choices.len() && choices[i].model == model && choices[j].model == model
            ==> count_named(choices, model) >= 2,
    decreases choices.len(),
{
    if choices.len() > 0 {
        let front = choices.drop_last();
        let last = choices.len() - 1;
        names_are_counted(front, model, i, j);
        assert forall|k: int| 0 <= k < front.len() implies #[trigger] front[k] == choices[k] by {}
        assert(choices.last() == choices[last]);
        if forall|k: int| 0 <= k < choices.len() ==> (#[trigger] choices[k]).model != model {
            assert forall|k: int| 0 <= k < front.len() implies (#[trigger] front[k]).model
                != model by {
                assert(choices[k].model != model);
            }
        }
        if 0 <= i < choices.len() && choices[i].model == model && (forall|k: int|
            0 <= k < choices.len() && k != i ==> (#[trigger] choices[k]).model != model) {
            if i == last {
                assert forall|k: int| 0 <= k < front.len() implies (#[trigger] front[k]).model
                    != model by {
                    assert(choices[k].model != model);
                }
            } else {
                assert(choices[last].model != model);
                assert forall|k: int| 0 <= k < front.len() && k != i implies (
                #[trigger] front[k]).model != model by {
                    assert(choices[k].model != model);
                }
            }
        }
        if 0 <= i < j < choices.len() && choices[i].model == model && choices[j].model == model {
            assert(front[i].model == model);
        }
    }
}

/// `/model` with a bare model id selects the model where just one provider offers it, and changes no
/// selection where none does or more than one.
pub proof fn bare_names_select_a_unique_model(
    app: AppView,
    raw: Text,
    name: Text,
    model: Text,
    i: int,
    j: int,
)
    requires
        app.well_formed(),
        app.choices.len() <= usize::MAX,
        words(raw.skip(1)) == seq![name, model],
        ascii_lower(name) == "model"@,
        !model.contains('/'),
    ensures
        ({
            let (next, action) = app.entered_command(raw);
            &&& action is Stay
            &&& 0 <= i < app.choices.len() && app.choices[i].model == model && (forall|k: int|
                0 <= k < app.choices.len() && k != i ==> (#[trigger] app.choices[k]).model != model)
                ==> next.selected_model == i
            &&& 0 <= i < j < app.choices.len() && app.choices[i].model == model
                && app.choices[j].model == model ==> next.selected_model == app.selected_model
                && next.effort == app.effort
            &&& (forall|k: int|
                0 <= k < app.choices.len() ==> (#[trigger] app.choices[k]).model != model)
                ==> next.selected_model == app.selected_model && next.effort == app.effort
            &&& next.choices == app.choices
            &&& next.transcript == app.transcript
        }),
{
    commands_differ();
    names_are_counted(app.choices, model, i, j);
    split_once_parts(model, '/');
    assert(split_once(model, '/') is None) by {
        if let Some((head, tail)) = split_once(model, '/') {
            assert((head.push('/') + tail)[head.len() as int] == '/');
        }
    }
}

/// The model list opens on the selected model.
pub proof fn the_model_list_opens_on_the_selection(app: AppView, key: Key)
    requires
        key.code == KeyCode::F2,
        !app.sessions_open,
        !app.picker_open,
    ensures
        app.pressed(key) == (
            AppView { picker_open: true, picker_model: app.selected_model, ..app },
            TuiActionView::Stay,
        ),
        app.with_model_picker() == (AppView {
            picker_open: true,
            picker_model: app.selected_model,
            ..app
        }),
{
}

/// A client that is attached to another session, or to none, shows nothing of the one before: no
/// transcript, no run, no notice; what was typed and selected stays.
pub proof fn switched_clients_start_afresh(app: AppView, session_id: Text)
    ensures
        ({
            let fresh = AppView {
                transcript: seq![],
                scroll: 0,
                follow_tail: true,
                submitting: false,
                run_state: RunState::Idle,
                notice: None,
                ..app
            };
            &&& app.controlled(ControlView::StreamReady { session_id }).0 == fresh
            &&& app.controlled(ControlView::Detached).0 == fresh
        }),
{
}

} // verus!
