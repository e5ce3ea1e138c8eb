//! The network side of the clients: what each command asks of the runtime, step
//! by step, and what is reported back. Sessions are lazy: one comes into being
//! when the first message of a chat is sent.

use crate::desktop::{NetEvent, NetEventView, UiCmd, UiCmdView};
use crate::protocol::{
    ModelRef, ModelRefView, PresetSummary, PresetSummaryView, ProviderSummary, ProviderSummaryView,
    ReasoningEffort, SessionSummary, SessionSummaryView,
};
use crate::text::{opt_view, views, Text};
use vstd::prelude::*;

verus! {

/// The content of an [`Outgoing`].
#[verifier::ext_equal]
pub struct OutgoingView {
    pub workspace: Text,
    pub model: ModelRefView,
    pub preset: Option<Text>,
    pub effort: Option<ReasoningEffort>,
    pub text: Text,
}

/// A message on its way to the runtime.
#[derive(Debug, Eq, PartialEq)]
pub struct Outgoing {
    pub workspace: String,
    pub model: ModelRef,
    pub preset: Option<String>,
    pub effort: Option<ReasoningEffort>,
    pub text: String,
}

impl View for Outgoing {
    type V = OutgoingView;

    open spec fn view(&self) -> OutgoingView {
        OutgoingView {
            workspace: self.workspace@,
            model: self.model@,
            preset: opt_view(self.preset),
            effort: self.effort,
            text: self.text@,
        }
    }
}

impl Clone for Outgoing {
    fn clone(&self) -> (r: Self)
        ensures
            r@ == self@,
    {
        let r = Outgoing {
            workspace: self.workspace.clone(),
            model: self.model.clone(),
            preset: self.preset.clone(),
            effort: self.effort,
            text: self.text.clone(),
        };
        assert(r@ =~~= self@);
        r
    }
}

/// The content of a [`NetInput`].
#[verifier::ext_equal]
pub enum NetInputView {
    ServerReady,
    Providers(Seq<ProviderSummaryView>),
    Presets(Seq<PresetSummaryView>),
    Sessions(Seq<SessionSummaryView>),
    Created(Text),
    Subscribed,
    Sent,
    Failed(Text),
}

/// What came of a request. `Failed` carries the text of the error.
#[derive(Debug, Eq, PartialEq)]
pub enum NetInput {
    ServerReady,
    Providers(Vec<ProviderSummary>),
    Presets(Vec<PresetSummary>),
    Sessions(Vec<SessionSummary>),
    Created(String),
    Subscribed,
    Sent,
    Failed(String),
}

impl View for NetInput {
    type V = NetInputView;

    open spec fn view(&self) -> NetInputView {
        match self {
            NetInput::ServerReady => NetInputView::ServerReady,
            NetInput::Providers(item) => NetInputView::Providers(views(item@)),
            NetInput::Presets(item) => NetInputView::Presets(views(item@)),
            NetInput::Sessions(item) => NetInputView::Sessions(views(item@)),
            NetInput::Created(item) => NetInputView::Created(item@),
            NetInput::Subscribed => NetInputView::Subscribed,
            NetInput::Sent => NetInputView::Sent,
            NetInput::Failed(item) => NetInputView::Failed(item@),
        }
    }
}

impl Clone for NetInput {
    fn clone(&self) -> (r: Self)
        ensures
            r@ == self@,
    {
        let r = match self {
            NetInput::ServerReady => NetInput::ServerReady,
            NetInput::Providers(item) => NetInput::Providers(item.clone()),
            NetInput::Presets(item) => NetInput::Presets(item.clone()),
            NetInput::Sessions(item) => NetInput::Sessions(item.clone()),
            NetInput::Created(item) => NetInput::Created(item.clone()),
            NetInput::Subscribed => NetInput::Subscribed,
            NetInput::Sent => NetInput::Sent,
            NetInput::Failed(item) => NetInput::Failed(item.clone()),
        };
        assert(r@ =~~= self@);
        r
    }
}

/// The content of a [`NetAction`].
#[verifier::ext_equal]
pub enum NetActionView {
    EnsureServer,
    FetchProviders,
    FetchPresets,
    FetchSessions(Text),
    Create(Text),
    Select(Text),
    Clear,
    Subscribe,
    Post(OutgoingView),
    Report(NetEventView),
}

/// What is to be done: a request to the runtime, a change of the session that the
/// client is attached to, or a report to the window. `Subscribe` also forwards the
/// session's events to the window from then on.
#[derive(Debug, Eq, PartialEq)]
pub enum NetAction {
    EnsureServer,
    FetchProviders,
    FetchPresets,
    FetchSessions(String),
    Create(String),
    Select(String),
    Clear,
    Subscribe,
    Post(Outgoing),
    Report(NetEvent),
}

impl View for NetAction {
    type V = NetActionView;

    open spec fn view(&self) -> NetActionView {
        match self {
            NetAction::EnsureServer => NetActionView::EnsureServer,
            NetAction::FetchProviders => NetActionView::FetchProviders,
            NetAction::FetchPresets => NetActionView::FetchPresets,
            NetAction::FetchSessions(item) => NetActionView::FetchSessions(item@),
            NetAction::Create(item) => NetActionView::Create(item@),
            NetAction::Select(item) => NetActionView::Select(item@),
            NetAction::Clear => NetActionView::Clear,
            NetAction::Subscribe => NetActionView::Subscribe,
            NetAction::Post(item) => NetActionView::Post(item@),
            NetAction::Report(item) => NetActionView::Report(item@),
        }
    }
}

impl Clone for NetAction {
    fn clone(&self) -> (r: Self)
        ensures
            r@ == self@,
    {
        let r = match self {
            NetAction::EnsureServer => NetAction::EnsureServer,
            NetAction::FetchProviders => NetAction::FetchProviders,
            NetAction::FetchPresets => NetAction::FetchPresets,
            NetAction::FetchSessions(item) => NetAction::FetchSessions(item.clone()),
            NetAction::Create(item) => NetAction::Create(item.clone()),
            NetAction::Select(item) => NetAction::Select(item.clone()),
            NetAction::Clear => NetAction::Clear,
            NetAction::Subscribe => NetAction::Subscribe,
            NetAction::Post(item) => NetAction::Post(item.clone()),
            NetAction::Report(item) => NetAction::Report(item.clone()),
        };
        assert(r@ =~~= self@);
        r
    }
}

/// The content of a [`NetPhase`].
#[verifier::ext_equal]
pub enum NetPhaseView {
    Starting,
    Providers,
    Presets,
    Sessions(Text),
    Switching,
    Creating(OutgoingView),
    Subscribing(OutgoingView),
    Listing(OutgoingView),
    Posting,
    Done,
}

/// What a command waits for.
#[derive(Debug, Eq, PartialEq)]
pub enum NetPhase {
    Starting,
    Providers,
    Presets,
    Sessions(String),
    Switching,
    Creating(Outgoing),
    Subscribing(Outgoing),
    Listing(Outgoing),
    Posting,
    Done,
}

impl View for NetPhase {
    type V = NetPhaseView;

    open spec fn view(&self) -> NetPhaseView {
        match self {
            NetPhase::Starting => NetPhaseView::Starting,
            NetPhase::Providers => NetPhaseView::Providers,
            NetPhase::Presets => NetPhaseView::Presets,
            NetPhase::Sessions(item) => NetPhaseView::Sessions(item@),
            NetPhase::Switching => NetPhaseView::Switching,
            NetPhase::Creating(item) => NetPhaseView::Creating(item@),
            NetPhase::Subscribing(item) => NetPhaseView::Subscribing(item@),
            NetPhase::Listing(item) => NetPhaseView::Listing(item@),
            NetPhase::Posting => NetPhaseView::Posting,
            NetPhase::Done => NetPhaseView::Done,
        }
    }
}

impl Clone for NetPhase {
    fn clone(&self) -> (r: Self)
        ensures
            r@ == self@,
    {
        let r = match self {
            NetPhase::Starting => NetPhase::Starting,
            NetPhase::Providers => NetPhase::Providers,
            NetPhase::Presets => NetPhase::Presets,
            NetPhase::Sessions(item) => NetPhase::Sessions(item.clone()),
            NetPhase::Switching => NetPhase::Switching,
            NetPhase::Creating(item) => NetPhase::Creating(item.clone()),
            NetPhase::Subscribing(item) => NetPhase::Subscribing(item.clone()),
            NetPhase::Listing(item) => NetPhase::Listing(item.clone()),
            NetPhase::Posting => NetPhase::Posting,
            NetPhase::Done => NetPhase::Done,
        };
        assert(r@ =~~= self@);
        r
    }
}

/// The content of a [`NetJob`].
#[verifier::ext_equal]
pub struct NetJobView {
    pub phase: NetPhaseView,
}

/// The work on one command of the window.
#[derive(Debug, Eq, PartialEq)]
pub struct NetJob {
    pub phase: NetPhase,
}

impl View for NetJob {
    type V = NetJobView;

    open spec fn view(&self) -> NetJobView {
        NetJobView {
            phase: self.phase@,
        }
    }
}

impl Clone for NetJob {
    fn clone(&self) -> (r: Self)
        ensures
            r@ == self@,
    {
        let r = NetJob {
            phase: self.phase.clone(),
        };
        assert(r@ =~~= self@);
        r
    }
}

impl NetJobView {
    pub open spec fn at(phase: NetPhaseView) -> NetJobView {
        NetJobView { phase }
    }

    /// The end of a job with these actions.
    pub open spec fn ending(actions: Seq<NetActionView>) -> (NetJobView, Seq<NetActionView>) {
        (NetJobView::at(NetPhaseView::Done), actions)
    }

    pub open spec fn reporting(event: NetEventView) -> (NetJobView, Seq<NetActionView>) {
        NetJobView::ending(seq![NetActionView::Report(event)])
    }

    /// The beginning of the work on a command.
    pub open spec fn begun(command: UiCmdView, autostart: bool, attached: bool) -> (
        NetJobView,
        Seq<NetActionView>,
    ) {
        match command {
            UiCmdView::Bootstrap => if autostart {
                (NetJobView::at(NetPhaseView::Starting), seq![NetActionView::EnsureServer])
            } else {
                (NetJobView::at(NetPhaseView::Providers), seq![NetActionView::FetchProviders])
            },
            UiCmdView::ListPresets => (
                NetJobView::at(NetPhaseView::Presets),
                seq![NetActionView::FetchPresets],
            ),
            UiCmdView::ListSessions { workspace } => (
                NetJobView::at(NetPhaseView::Sessions(workspace)),
                seq![NetActionView::FetchSessions(workspace)],
            ),
            UiCmdView::NewChat => NetJobView::ending(
                seq![NetActionView::Clear, NetActionView::Report(NetEventView::Detached)],
            ),
            UiCmdView::SwitchTo { session_id } => (
                NetJobView::at(NetPhaseView::Switching),
                seq![
                    NetActionView::Select(session_id),
                    NetActionView::Report(NetEventView::Switched(session_id)),
                    NetActionView::Subscribe,
                ],
            ),
            UiCmdView::Send { workspace, model, preset, effort, text } => {
                let message = OutgoingView { workspace, model, preset, effort, text };
                if attached {
                    (NetJobView::at(NetPhaseView::Posting), seq![NetActionView::Post(message)])
                } else {
                    (
                        NetJobView::at(NetPhaseView::Creating(message)),
                        seq![NetActionView::Create(workspace)],
                    )
                }
            },
        }
    }

    /// The state and the actions after the outcome of a request. Outcomes of
    /// requests that were not made are ignored.
    pub open spec fn step(self, input: NetInputView) -> (NetJobView, Seq<NetActionView>) {
        match (self.phase, input) {
            (NetPhaseView::Starting, NetInputView::ServerReady) => (
                NetJobView::at(NetPhaseView::Providers),
                seq![NetActionView::FetchProviders],
            ),
            (NetPhaseView::Providers, NetInputView::Providers(providers)) => NetJobView::reporting(
                NetEventView::Providers(providers),
            ),
            (NetPhaseView::Presets, NetInputView::Presets(presets)) => NetJobView::reporting(
                NetEventView::Presets(presets),
            ),
            (NetPhaseView::Sessions(workspace), NetInputView::Sessions(sessions)) => NetJobView::reporting(
                NetEventView::Sessions { workspace, sessions },
            ),
            (NetPhaseView::Switching, NetInputView::Subscribed) => NetJobView::ending(seq![]),
            (NetPhaseView::Creating(message), NetInputView::Created(id)) => (
                NetJobView::at(NetPhaseView::Subscribing(message)),
                seq![
                    NetActionView::Select(id),
                    NetActionView::Report(NetEventView::SessionReady(id)),
                    NetActionView::Subscribe,
                ],
            ),
            (NetPhaseView::Subscribing(message), NetInputView::Subscribed) => (
                NetJobView::at(NetPhaseView::Listing(message)),
                seq![NetActionView::FetchSessions(message.workspace)],
            ),
            (NetPhaseView::Listing(message), NetInputView::Sessions(sessions)) => (
                NetJobView::at(NetPhaseView::Posting),
                seq![
                    NetActionView::Report(
                        NetEventView::Sessions { workspace: message.workspace, sessions },
                    ),
                    NetActionView::Post(message),
                ],
            ),
            (NetPhaseView::Listing(message), NetInputView::Failed(_)) => (
                NetJobView::at(NetPhaseView::Posting),
                seq![NetActionView::Post(message)],
            ),
            (NetPhaseView::Posting, NetInputView::Sent) => NetJobView::ending(seq![]),
            (NetPhaseView::Done, _) => (self, seq![]),
            (_, NetInputView::Failed(error)) => NetJobView::reporting(NetEventView::Notice(error)),
            _ => (self, seq![]),
        }
    }

    /// How many outcomes a job can still take at most.
    pub open spec fn steps_left(self) -> nat {
        match self.phase {
            NetPhaseView::Creating(_) => 4,
            NetPhaseView::Subscribing(_) => 3,
            NetPhaseView::Listing(_) => 2,
            NetPhaseView::Starting => 2,
            NetPhaseView::Done => 0,
            _ => 1,
        }
    }
}

fn one(action: NetAction) -> (r: Vec<NetAction>)
    ensures
        views(r@) == seq![action@],
{
    let ghost shown = action@;
    let mut list: Vec<NetAction> = Vec::new();
    list.push(action);
    assert(views(list@) =~= seq![shown]);
    list
}

fn two(first: NetAction, second: NetAction) -> (r: Vec<NetAction>)
    ensures
        views(r@) == seq![first@, second@],
{
    let ghost a = first@;
    let ghost b = second@;
    let mut list: Vec<NetAction> = Vec::new();
    list.push(first);
    list.push(second);
    assert(views(list@) =~= seq![a, b]);
    list
}

fn three(first: NetAction, second: NetAction, third: NetAction) -> (r: Vec<NetAction>)
    ensures
        views(r@) == seq![first@, second@, third@],
{
    let ghost a = first@;
    let ghost b = second@;
    let ghost c = third@;
    let mut list: Vec<NetAction> = Vec::new();
    list.push(first);
    list.push(second);
    list.push(third);
    assert(views(list@) =~= seq![a, b, c]);
    list
}

fn nothing() -> (r: Vec<NetAction>)
    ensures
        views(r@) == Seq::<NetActionView>::empty(),
{
    let list: Vec<NetAction> = Vec::new();
    assert(views(list@) =~= Seq::<NetActionView>::empty());
    list
}

impl NetJob {
    /// Begins the work on a command. `autostart` says whether the local server
    /// may be started, `attached` whether the client is attached to a session.
    pub fn begin(command: UiCmd, autostart: bool, attached: bool) -> (r: (NetJob, Vec<NetAction>))
        ensures
            NetJobView::begun(command@, autostart, attached) == (r.0@, views(r.1@)),
    {
        match command {
            UiCmd::Bootstrap => if autostart {
                (NetJob { phase: NetPhase::Starting }, one(NetAction::EnsureServer))
            } else {
                (NetJob { phase: NetPhase::Providers }, one(NetAction::FetchProviders))
            },
            UiCmd::ListPresets => (
                NetJob { phase: NetPhase::Presets },
                one(NetAction::FetchPresets),
            ),
            UiCmd::ListSessions { workspace } => (
                NetJob { phase: NetPhase::Sessions(workspace.clone()) },
                one(NetAction::FetchSessions(workspace)),
            ),
            UiCmd::NewChat => (
                NetJob { phase: NetPhase::Done },
                two(NetAction::Clear, NetAction::Report(NetEvent::Detached)),
            ),
            UiCmd::SwitchTo { session_id } => (
                NetJob { phase: NetPhase::Switching },
                three(
                    NetAction::Select(session_id.clone()),
                    NetAction::Report(NetEvent::Switched(session_id)),
                    NetAction::Subscribe,
                ),
            ),
            UiCmd::Send { workspace, model, preset, effort, text } => {
                if attached {
                    (
                        NetJob { phase: NetPhase::Posting },
                        one(NetAction::Post(Outgoing { workspace, model, preset, effort, text })),
                    )
                } else {
                    let target = workspace.clone();
                    let message = Outgoing { workspace, model, preset, effort, text };
                    (
                        NetJob { phase: NetPhase::Creating(message) },
                        one(NetAction::Create(target)),
                    )
                }
            },
        }
    }

    /// Whether nothing is left to do.
    pub fn is_done(&self) -> (r: bool)
        ensures
            r == (self@.phase is Done),
    {
        match &self.phase {
            NetPhase::Done => true,
            _ => false,
        }
    }

    /// Takes the outcome of a request and returns what is to be done next.
    pub fn step(&mut self, input: NetInput) -> (r: Vec<NetAction>)
        ensures
            old(self)@.step(input@) == (final(self)@, views(r@)),
    {
        let mut phase = NetPhase::Done;
        core::mem::swap(&mut phase, &mut self.phase);
        match (phase, input) {
            (NetPhase::Starting, NetInput::ServerReady) => {
                self.phase = NetPhase::Providers;
                one(NetAction::FetchProviders)
            },
            (NetPhase::Providers, NetInput::Providers(providers)) => one(
                NetAction::Report(NetEvent::Providers(providers)),
            ),
            (NetPhase::Presets, NetInput::Presets(presets)) => one(
                NetAction::Report(NetEvent::Presets(presets)),
            ),
            (NetPhase::Sessions(workspace), NetInput::Sessions(sessions)) => one(
                NetAction::Report(NetEvent::Sessions { workspace, sessions }),
            ),
            (NetPhase::Switching, NetInput::Subscribed) => nothing(),
            (NetPhase::Creating(message), NetInput::Created(id)) => {
                self.phase = NetPhase::Subscribing(message);
                three(
                    NetAction::Select(id.clone()),
                    NetAction::Report(NetEvent::SessionReady(id)),
                    NetAction::Subscribe,
                )
            },
            (NetPhase::Subscribing(message), NetInput::Subscribed) => {
                let workspace = message.workspace.clone();
                self.phase = NetPhase::Listing(message);
                one(NetAction::FetchSessions(workspace))
            },
            (NetPhase::Listing(message), NetInput::Sessions(sessions)) => {
                self.phase = NetPhase::Posting;
                two(
                    NetAction::Report(
                        NetEvent::Sessions { workspace: message.workspace.clone(), sessions },
                    ),
                    NetAction::Post(message),
                )
            },
            (NetPhase::Listing(message), NetInput::Failed(_)) => {
                self.phase = NetPhase::Posting;
                one(NetAction::Post(message))
            },
            (NetPhase::Posting, NetInput::Sent) => nothing(),
            (NetPhase::Done, _) => nothing(),
            (_, NetInput::Failed(error)) => one(NetAction::Report(NetEvent::Notice(error))),
            (other, _) => {
                self.phase = other;
                nothing()
            },
        }
    }
}

/// Work on a command ends: every outcome that is taken brings it nearer to its
/// end, whatever the requests come to.
pub proof fn jobs_end(job: NetJobView, input: NetInputView)
    ensures
        job.step(input).0 == job || job.step(input).0.steps_left() < job.steps_left(),
        input is Failed && !(job.phase is Done) ==> job.step(input).0.steps_left()
            < job.steps_left(),
{
}

/// A server that is not to be started by the client never is: nothing that is
/// asked for makes sure that it runs.
pub proof fn foreign_servers_are_left_alone(
    command: UiCmdView,
    attached: bool,
    job: NetJobView,
    input: NetInputView,
)
    ensures
        !NetJobView::begun(command, false, attached).1.contains(NetActionView::EnsureServer),
        !(NetJobView::begun(command, false, attached).0.phase is Starting),
        !job.step(input).1.contains(NetActionView::EnsureServer),
{
    let first = NetJobView::begun(command, false, attached).1;
    assert forall|i: int| 0 <= i < first.len() implies !(first[i] is EnsureServer) by {}
    let later = job.step(input).1;
    assert forall|i: int| 0 <= i < later.len() implies !(later[i] is EnsureServer) by {}
}

/// A new chat creates nothing: a session comes into being only for a message,
/// when the client is attached to none, in the workspace of that message.
pub proof fn sessions_are_lazy(
    command: UiCmdView,
    autostart: bool,
    attached: bool,
    job: NetJobView,
    input: NetInputView,
    workspace: Text,
)
    ensures
        NetJobView::begun(command, autostart, attached).1.contains(
            NetActionView::Create(workspace),
        ) ==> !attached && (command matches UiCmdView::Send { workspace: wanted, .. } && wanted
            == workspace),
        !job.step(input).1.contains(NetActionView::Create(workspace)),
{
    let actions = NetJobView::begun(command, autostart, attached).1;
    if actions.contains(NetActionView::Create(workspace)) {
        let i = choose|i: int|
            0 <= i < actions.len() && actions[i] == NetActionView::Create(workspace);
        assert(actions[i] is Create);
    }
    let later = job.step(input).1;
    assert forall|i: int| 0 <= i < later.len() implies !(later[i] is Create) by {}
}

/// A message is posted once its session is there and its events are forwarded,
/// and it is posted as it was typed.
pub proof fn messages_follow_their_session(job: NetJobView, input: NetInputView, message: OutgoingView)
    requires
        job.step(input).1.contains(NetActionView::Post(message)),
    ensures
        job.phase == NetPhaseView::Listing(message),
{
    let actions = job.step(input).1;
    let i = choose|i: int| 0 <= i < actions.len() && actions[i] == NetActionView::Post(message);
    assert(actions[i] is Post);
}

/// The content of a [`SubmitInput`].
#[verifier::ext_equal]
pub enum SubmitInputView {
    Created(Text),
    Subscribed,
    Sent,
    Failed(Text),
}

/// What came of a request.
#[derive(Debug, Eq, PartialEq)]
pub enum SubmitInput {
    Created(String),
    Subscribed,
    Sent,
    Failed(String),
}

impl View for SubmitInput {
    type V = SubmitInputView;

    open spec fn view(&self) -> SubmitInputView {
        match self {
            SubmitInput::Created(item) => SubmitInputView::Created(item@),
            SubmitInput::Subscribed => SubmitInputView::Subscribed,
            SubmitInput::Sent => SubmitInputView::Sent,
            SubmitInput::Failed(item) => SubmitInputView::Failed(item@),
        }
    }
}

impl Clone for SubmitInput {
    fn clone(&self) -> (r: Self)
        ensures
            r@ == self@,
    {
        let r = match self {
            SubmitInput::Created(item) => SubmitInput::Created(item.clone()),
            SubmitInput::Subscribed => SubmitInput::Subscribed,
            SubmitInput::Sent => SubmitInput::Sent,
            SubmitInput::Failed(item) => SubmitInput::Failed(item.clone()),
        };
        assert(r@ =~~= self@);
        r
    }
}

/// The content of a [`SubmitAction`].
#[verifier::ext_equal]
pub enum SubmitActionView {
    Create,
    Select(Text),
    Subscribe,
    StreamReady(Text),
    ReportFailure(Text),
    Post,
    Finish(Option<Text>),
}

/// What the submission of a message asks for. `StreamReady` hands the subscribed
/// stream of a session over, `Finish` tells how sending ended.
#[derive(Debug, Eq, PartialEq)]
pub enum SubmitAction {
    Create,
    Select(String),
    Subscribe,
    StreamReady(String),
    ReportFailure(String),
    Post,
    Finish(Option<String>),
}

impl View for SubmitAction {
    type V = SubmitActionView;

    open spec fn view(&self) -> SubmitActionView {
        match self {
            SubmitAction::Create => SubmitActionView::Create,
            SubmitAction::Select(item) => SubmitActionView::Select(item@),
            SubmitAction::Subscribe => SubmitActionView::Subscribe,
            SubmitAction::StreamReady(item) => SubmitActionView::StreamReady(item@),
            SubmitAction::ReportFailure(item) => SubmitActionView::ReportFailure(item@),
            SubmitAction::Post => SubmitActionView::Post,
            SubmitAction::Finish(item) => SubmitActionView::Finish(opt_view(*item)),
        }
    }
}

impl Clone for SubmitAction {
    fn clone(&self) -> (r: Self)
        ensures
            r@ == self@,
    {
        let r = match self {
            SubmitAction::Create => SubmitAction::Create,
            SubmitAction::Select(item) => SubmitAction::Select(item.clone()),
            SubmitAction::Subscribe => SubmitAction::Subscribe,
            SubmitAction::StreamReady(item) => SubmitAction::StreamReady(item.clone()),
            SubmitAction::ReportFailure(item) => SubmitAction::ReportFailure(item.clone()),
            SubmitAction::Post => SubmitAction::Post,
            SubmitAction::Finish(item) => SubmitAction::Finish(item.clone()),
        };
        assert(r@ =~~= self@);
        r
    }
}

/// The content of a [`SubmitPhase`].
#[verifier::ext_equal]
pub enum SubmitPhaseView {
    Creating,
    Subscribing(Text),
    Posting,
    Done,
}

/// What a submission waits for.
#[derive(Debug, Eq, PartialEq)]
pub enum SubmitPhase {
    Creating,
    Subscribing(String),
    Posting,
    Done,
}

impl View for SubmitPhase {
    type V = SubmitPhaseView;

    open spec fn view(&self) -> SubmitPhaseView {
        match self {
            SubmitPhase::Creating => SubmitPhaseView::Creating,
            SubmitPhase::Subscribing(item) => SubmitPhaseView::Subscribing(item@),
            SubmitPhase::Posting => SubmitPhaseView::Posting,
            SubmitPhase::Done => SubmitPhaseView::Done,
        }
    }
}

impl Clone for SubmitPhase {
    fn clone(&self) -> (r: Self)
        ensures
            r@ == self@,
    {
        let r = match self {
            SubmitPhase::Creating => SubmitPhase::Creating,
            SubmitPhase::Subscribing(item) => SubmitPhase::Subscribing(item.clone()),
            SubmitPhase::Posting => SubmitPhase::Posting,
            SubmitPhase::Done => SubmitPhase::Done,
        };
        assert(r@ =~~= self@);
        r
    }
}

/// The content of a [`SubmitJob`].
#[verifier::ext_equal]
pub struct SubmitJobView {
    pub phase: SubmitPhaseView,
}

/// The submission of one message of the terminal client. Whatever becomes of the
/// session's stream, the message is tried.
#[derive(Debug, Eq, PartialEq)]
pub struct SubmitJob {
    pub phase: SubmitPhase,
}

impl View for SubmitJob {
    type V = SubmitJobView;

    open spec fn view(&self) -> SubmitJobView {
        SubmitJobView {
            phase: self.phase@,
        }
    }
}

impl Clone for SubmitJob {
    fn clone(&self) -> (r: Self)
        ensures
            r@ == self@,
    {
        let r = SubmitJob {
            phase: self.phase.clone(),
        };
        assert(r@ =~~= self@);
        r
    }
}

impl SubmitJobView {
    pub open spec fn at(phase: SubmitPhaseView) -> SubmitJobView {
        SubmitJobView { phase }
    }

    pub open spec fn begun(attached: bool) -> (SubmitJobView, Seq<SubmitActionView>) {
        if attached {
            (SubmitJobView::at(SubmitPhaseView::Posting), seq![SubmitActionView::Post])
        } else {
            (SubmitJobView::at(SubmitPhaseView::Creating), seq![SubmitActionView::Create])
        }
    }

    pub open spec fn step(self, input: SubmitInputView) -> (SubmitJobView, Seq<SubmitActionView>) {
        match (self.phase, input) {
            (SubmitPhaseView::Creating, SubmitInputView::Created(id)) => (
                SubmitJobView::at(SubmitPhaseView::Subscribing(id)),
                seq![SubmitActionView::Select(id), SubmitActionView::Subscribe],
            ),
            (SubmitPhaseView::Subscribing(id), SubmitInputView::Subscribed) => (
                SubmitJobView::at(SubmitPhaseView::Posting),
                seq![SubmitActionView::StreamReady(id), SubmitActionView::Post],
            ),
            (SubmitPhaseView::Creating, SubmitInputView::Failed(error)) => (
                SubmitJobView::at(SubmitPhaseView::Posting),
                seq![SubmitActionView::ReportFailure(error), SubmitActionView::Post],
            ),
            (SubmitPhaseView::Subscribing(_), SubmitInputView::Failed(error)) => (
                SubmitJobView::at(SubmitPhaseView::Posting),
                seq![SubmitActionView::ReportFailure(error), SubmitActionView::Post],
            ),
            (SubmitPhaseView::Posting, SubmitInputView::Sent) => (
                SubmitJobView::at(SubmitPhaseView::Done),
                seq![SubmitActionView::Finish(None)],
            ),
            (SubmitPhaseView::Posting, SubmitInputView::Failed(error)) => (
                SubmitJobView::at(SubmitPhaseView::Done),
                seq![SubmitActionView::Finish(Some(error))],
            ),
            _ => (self, seq![]),
        }
    }
}

fn one_submit(action: SubmitAction) -> (r: Vec<SubmitAction>)
    ensures
        views(r@) == seq![action@],
{
    let ghost shown = action@;
    let mut list: Vec<SubmitAction> = Vec::new();
    list.push(action);
    assert(views(list@) =~= seq![shown]);
    list
}

fn two_submits(first: SubmitAction, second: SubmitAction) -> (r: Vec<SubmitAction>)
    ensures
        views(r@) == seq![first@, second@],
{
    let ghost a = first@;
    let ghost b = second@;
    let mut list: Vec<SubmitAction> = Vec::new();
    list.push(first);
    list.push(second);
    assert(views(list@) =~= seq![a, b]);
    list
}

impl SubmitJob {
    /// Begins a submission. `attached` says whether the client is attached to a
    /// session.
    pub fn begin(attached: bool) -> (r: (SubmitJob, Vec<SubmitAction>))
        ensures
            SubmitJobView::begun(attached) == (r.0@, views(r.1@)),
    {
        if attached {
            (SubmitJob { phase: SubmitPhase::Posting }, one_submit(SubmitAction::Post))
        } else {
            (SubmitJob { phase: SubmitPhase::Creating }, one_submit(SubmitAction::Create))
        }
    }

    /// Takes the outcome of a request and returns what is to be done next.
    pub fn step(&mut self, input: SubmitInput) -> (r: Vec<SubmitAction>)
        ensures
            old(self)@.step(input@) == (final(self)@, views(r@)),
    {
        let mut phase = SubmitPhase::Done;
        core::mem::swap(&mut phase, &mut self.phase);
        match (phase, input) {
            (SubmitPhase::Creating, SubmitInput::Created(id)) => {
                self.phase = SubmitPhase::Subscribing(id.clone());
                two_submits(SubmitAction::Select(id), SubmitAction::Subscribe)
            },
            (SubmitPhase::Subscribing(id), SubmitInput::Subscribed) => {
                self.phase = SubmitPhase::Posting;
                two_submits(SubmitAction::StreamReady(id), SubmitAction::Post)
            },
            (SubmitPhase::Creating, SubmitInput::Failed(error)) => {
                self.phase = SubmitPhase::Posting;
                two_submits(SubmitAction::ReportFailure(error), SubmitAction::Post)
            },
            (SubmitPhase::Subscribing(_), SubmitInput::Failed(error)) => {
                self.phase = SubmitPhase::Posting;
                two_submits(SubmitAction::ReportFailure(error), SubmitAction::Post)
            },
            (SubmitPhase::Posting, SubmitInput::Sent) => one_submit(SubmitAction::Finish(None)),
            (SubmitPhase::Posting, SubmitInput::Failed(error)) => one_submit(
                SubmitAction::Finish(Some(error)),
            ),
            (other, _) => {
                self.phase = other;
                let none: Vec<SubmitAction> = Vec::new();
                assert(views(none@) =~= seq![]);
                none
            },
        }
    }
}

/// A submission that runs its course posts the message exactly once and ends by
/// telling how that went, whether or not a session had to be created and
/// whatever became of it.
pub proof fn submissions_post_once(job: SubmitJobView, input: SubmitInputView)
    ensures
        job.step(input).0.phase is Done && !(job.phase is Done) <==> job.step(input).1.len() == 1
            && job.step(input).1[0] is Finish,
        job.step(input).0.phase is Posting && !(job.phase is Posting) <==> job.step(input).1.len()
            == 2 && job.step(input).1[1] is Post,
        job.phase is Posting ==> forall|i: int|
            0 <= i < job.step(input).1.len() ==> !(#[trigger] job.step(input).1[i] is Post),
        job.phase is Done ==> job.step(input) == (job, Seq::<SubmitActionView>::empty()),
{
}

/// A message goes out just as it was handed in, with its model, its preset, its
/// effort and its text: at once where the client is attached to a session, and
/// otherwise once a session was created in the message's workspace, selected,
/// told of, subscribed to and listed.
pub proof fn sent_messages_reach_their_session(
    message: OutgoingView,
    autostart: bool,
    id: Text,
    sessions: Seq<SessionSummaryView>,
)
    ensures
        ({
            let command = UiCmdView::Send {
                workspace: message.workspace,
                model: message.model,
                preset: message.preset,
                effort: message.effort,
                text: message.text,
            };
            let (creating, asked) = NetJobView::begun(command, autostart, false);
            let (subscribing, created) = creating.step(NetInputView::Created(id));
            let (listing, subscribed) = subscribing.step(NetInputView::Subscribed);
            let (posting, listed) = listing.step(NetInputView::Sessions(sessions));
            let (done, sent) = posting.step(NetInputView::Sent);
            &&& NetJobView::begun(command, autostart, true).1 == seq![NetActionView::Post(message)]
            &&& asked == seq![NetActionView::Create(message.workspace)]
            &&& created == seq![
                NetActionView::Select(id),
                NetActionView::Report(NetEventView::SessionReady(id)),
                NetActionView::Subscribe,
            ]
            &&& subscribed == seq![NetActionView::FetchSessions(message.workspace)]
            &&& listed == seq![
                NetActionView::Report(
                    NetEventView::Sessions { workspace: message.workspace, sessions },
                ),
                NetActionView::Post(message),
            ]
            &&& done.phase is Done
            &&& sent.len() == 0
        }),
{
}

/// What is asked for is fetched, and what was fetched is reported as it is.
pub proof fn what_is_fetched_is_reported(
    autostart: bool,
    attached: bool,
    providers: Seq<ProviderSummaryView>,
    presets: Seq<PresetSummaryView>,
    workspace: Text,
    sessions: Seq<SessionSummaryView>,
)
    ensures
        ({
            let start = NetJobView::begun(UiCmdView::Bootstrap, autostart, attached).0;
            let bootstrap = if autostart {
                start.step(NetInputView::ServerReady).0
            } else {
                start
            };
            let (presetting, wanted) = NetJobView::begun(
                UiCmdView::ListPresets,
                autostart,
                attached,
            );
            let (listing, asked) = NetJobView::begun(
                UiCmdView::ListSessions { workspace },
                autostart,
                attached,
            );
            &&& bootstrap.step(NetInputView::Providers(providers)).1 == seq![
                NetActionView::Report(NetEventView::Providers(providers)),
            ]
            &&& wanted == seq![NetActionView::FetchPresets]
            &&& presetting.step(NetInputView::Presets(presets)).1 == seq![
                NetActionView::Report(NetEventView::Presets(presets)),
            ]
            &&& asked == seq![NetActionView::FetchSessions(workspace)]
            &&& listing.step(NetInputView::Sessions(sessions)).1 == seq![
                NetActionView::Report(NetEventView::Sessions { workspace, sessions }),
            ]
        }),
{
}

/// Switching selects the session that was asked for and subscribes to it; a new
/// chat detaches the client and leaves every session as it is.
pub proof fn switching_follows_the_choice(autostart: bool, attached: bool, session_id: Text)
    ensures
        NetJobView::begun(UiCmdView::SwitchTo { session_id }, autostart, attached).1 == seq![
            NetActionView::Select(session_id),
            NetActionView::Report(NetEventView::Switched(session_id)),
            NetActionView::Subscribe,
        ],
        NetJobView::begun(UiCmdView::NewChat, autostart, attached).1 == seq![
            NetActionView::Clear,
            NetActionView::Report(NetEventView::Detached),
        ],
        NetJobView::begun(UiCmdView::NewChat, autostart, attached).0.phase is Done,
{
}

/// A request that fails is told with its error and ends the work; only a list of
/// sessions that could not be had does not keep a message from being sent.
pub proof fn failures_are_told(job: NetJobView, error: Text)
    requires
        !(job.phase is Done),
    ensures
        !(job.phase is Listing) ==> job.step(NetInputView::Failed(error)).1 == seq![
            NetActionView::Report(NetEventView::Notice(error)),
        ] && job.step(NetInputView::Failed(error)).0.phase is Done,
        job.phase matches NetPhaseView::Listing(message) ==> job.step(
            NetInputView::Failed(error),
        ).1 == seq![NetActionView::Post(message)],
{
}

/// A submission selects the session that was created for it, hands over the
/// stream of that session, and posts; it tells how posting ended.
pub proof fn submissions_use_their_session(id: Text, error: Text)
    ensures
        ({
            let (creating, asked) = SubmitJobView::begun(false);
            let (subscribing, created) = creating.step(SubmitInputView::Created(id));
            let (posting, subscribed) = subscribing.step(SubmitInputView::Subscribed);
            &&& SubmitJobView::begun(true).1 == seq![SubmitActionView::Post]
            &&& SubmitJobView::begun(true).0 == posting
            &&& asked == seq![SubmitActionView::Create]
            &&& created == seq![SubmitActionView::Select(id), SubmitActionView::Subscribe]
            &&& subscribed == seq![SubmitActionView::StreamReady(id), SubmitActionView::Post]
            &&& posting.step(SubmitInputView::Sent).1 == seq![SubmitActionView::Finish(None)]
            &&& posting.step(SubmitInputView::Failed(error)).1 == seq![
                SubmitActionView::Finish(Some(error)),
            ]
            &&& creating.step(SubmitInputView::Failed(error)).1 == seq![
                SubmitActionView::ReportFailure(error),
                SubmitActionView::Post,
            ]
        }),
{
}

/// A command of the client that sends a message while a session is attached posts just that
/// message.
pub proof fn commands_post_their_message(
    workspace: String,
    model: ModelRef,
    preset: Option<String>,
    effort: Option<ReasoningEffort>,
    text: String,
    autostart: bool,
    r: (NetJob, Vec<NetAction>),
)
    requires
        call_ensures(
            NetJob::begin,
            (UiCmd::Send { workspace, model, preset, effort, text }, autostart, true),
            r,
        ),
    ensures
        views(r.1@) == seq![
            NetActionView::Post(
                OutgoingView {
                    workspace: workspace@,
                    model: model@,
                    preset: opt_view(preset),
                    effort,
                    text: text@,
                },
            ),
        ],
{
}

} // verus!
