//! Bringing up the local server: probe it, start it as a detached process if
//! nothing answers, and wait until it is ready.

use crate::text::{concat3, opt_view, views, Text};
use vstd::prelude::*;

verus! {

/// Outcome of one readiness probe against the local server.
#[derive(Clone, Copy, Debug, Eq, PartialEq, Structural)]
pub enum ServerProbe {
    /// The server accepted a request.
    Ready,
    /// Nothing is listening yet.
    Connecting,
}

/// The content of a [`LocalServerError`].
#[verifier::ext_equal]
pub enum LocalServerErrorView {
    Io(Text),
    Failed(Text),
    TimedOut { status: Option<Text>, log_path: Text },
}

/// Failure to start the local server or to wait until it is ready. `status` is
/// how the server process ended, if it did.
#[derive(Debug, Eq, PartialEq)]
pub enum LocalServerError {
    Io(String),
    Failed(String),
    TimedOut { status: Option<String>, log_path: String },
}

impl View for LocalServerError {
    type V = LocalServerErrorView;

    open spec fn view(&self) -> LocalServerErrorView {
        match self {
            LocalServerError::Io(item) => LocalServerErrorView::Io(item@),
            LocalServerError::Failed(item) => LocalServerErrorView::Failed(item@),
            LocalServerError::TimedOut { status, log_path } => LocalServerErrorView::TimedOut {
                status: opt_view(*status),
                log_path: log_path@,
            },
        }
    }
}

impl Clone for LocalServerError {
    fn clone(&self) -> (r: Self)
        ensures
            r@ == self@,
    {
        let r = match self {
            LocalServerError::Io(item) => LocalServerError::Io(item.clone()),
            LocalServerError::Failed(item) => LocalServerError::Failed(item.clone()),
            LocalServerError::TimedOut { status, log_path } => LocalServerError::TimedOut {
                status: status.clone(),
                log_path: log_path.clone(),
            },
        };
        assert(r@ =~~= self@);
        r
    }
}

impl LocalServerErrorView {
    /// The text shown for an error.
    pub open spec fn message_text(self) -> Text {
        match self {
            LocalServerErrorView::Io(error) => error,
            LocalServerErrorView::Failed(message) => message,
            LocalServerErrorView::TimedOut { status, log_path } => (match status {
                None => "nexa-server did not become ready"@,
                Some(status) => "nexa-server exited with "@ + status
                    + " and no local server became ready"@,
            }) + "; see "@ + log_path,
        }
    }
}

impl LocalServerError {
    pub fn message(&self) -> (r: String)
        ensures
            r@ == self@.message_text(),
    {
        match self {
            LocalServerError::Io(error) => error.clone(),
            LocalServerError::Failed(message) => message.clone(),
            LocalServerError::TimedOut { status, log_path } => {
                let reason = match status {
                    None => "nexa-server did not become ready".to_owned(),
                    Some(status) => concat3(
                        "nexa-server exited with ",
                        status,
                        " and no local server became ready",
                    ),
                };
                concat3(&reason, "; see ", log_path)
            },
        }
    }
}

/// How often a started server is probed.
pub const MAX_PROBES: u64 = 50;

/// The pause between two probes, in milliseconds.
pub const PROBE_PAUSE_MS: u64 = 100;

/// The content of a [`StartInput`].
#[verifier::ext_equal]
pub enum StartInputView {
    Ready,
    Connecting,
    ProbeFailed(LocalServerErrorView),
    Spawned,
    SpawnFailed(Text),
    Running,
    Exited(Text),
    WaitFailed(Text),
    Slept,
}

/// What came of an action: of a probe, of starting the server, of looking whether
/// its process ended, or of a pause.
#[derive(Debug, Eq, PartialEq)]
pub enum StartInput {
    Ready,
    Connecting,
    ProbeFailed(LocalServerError),
    Spawned,
    SpawnFailed(String),
    Running,
    Exited(String),
    WaitFailed(String),
    Slept,
}

impl View for StartInput {
    type V = StartInputView;

    open spec fn view(&self) -> StartInputView {
        match self {
            StartInput::Ready => StartInputView::Ready,
            StartInput::Connecting => StartInputView::Connecting,
            StartInput::ProbeFailed(item) => StartInputView::ProbeFailed(item@),
            StartInput::Spawned => StartInputView::Spawned,
            StartInput::SpawnFailed(item) => StartInputView::SpawnFailed(item@),
            StartInput::Running => StartInputView::Running,
            StartInput::Exited(item) => StartInputView::Exited(item@),
            StartInput::WaitFailed(item) => StartInputView::WaitFailed(item@),
            StartInput::Slept => StartInputView::Slept,
        }
    }
}

impl Clone for StartInput {
    fn clone(&self) -> (r: Self)
        ensures
            r@ == self@,
    {
        let r = match self {
            StartInput::Ready => StartInput::Ready,
            StartInput::Connecting => StartInput::Connecting,
            StartInput::ProbeFailed(item) => StartInput::ProbeFailed(item.clone()),
            StartInput::Spawned => StartInput::Spawned,
            StartInput::SpawnFailed(item) => StartInput::SpawnFailed(item.clone()),
            StartInput::Running => StartInput::Running,
            StartInput::Exited(item) => StartInput::Exited(item.clone()),
            StartInput::WaitFailed(item) => StartInput::WaitFailed(item.clone()),
            StartInput::Slept => StartInput::Slept,
        };
        assert(r@ =~~= self@);
        r
    }
}

/// The content of a [`StartAction`].
#[verifier::ext_equal]
pub enum StartActionView {
    Probe,
    Announce,
    Spawn,
    CheckProcess,
    Sleep,
    Stop,
    Succeed,
    Fail(LocalServerErrorView),
}

/// What is to be done next. `Announce` lets a user interface say that the server is
/// coming up, `Stop` ends a server that never got ready.
#[derive(Debug, Eq, PartialEq)]
pub enum StartAction {
    Probe,
    Announce,
    Spawn,
    CheckProcess,
    Sleep,
    Stop,
    Succeed,
    Fail(LocalServerError),
}

impl View for StartAction {
    type V = StartActionView;

    open spec fn view(&self) -> StartActionView {
        match self {
            StartAction::Probe => StartActionView::Probe,
            StartAction::Announce => StartActionView::Announce,
            StartAction::Spawn => StartActionView::Spawn,
            StartAction::CheckProcess => StartActionView::CheckProcess,
            StartAction::Sleep => StartActionView::Sleep,
            StartAction::Stop => StartActionView::Stop,
            StartAction::Succeed => StartActionView::Succeed,
            StartAction::Fail(item) => StartActionView::Fail(item@),
        }
    }
}

impl Clone for StartAction {
    fn clone(&self) -> (r: Self)
        ensures
            r@ == self@,
    {
        let r = match self {
            StartAction::Probe => StartAction::Probe,
            StartAction::Announce => StartAction::Announce,
            StartAction::Spawn => StartAction::Spawn,
            StartAction::CheckProcess => StartAction::CheckProcess,
            StartAction::Sleep => StartAction::Sleep,
            StartAction::Stop => StartAction::Stop,
            StartAction::Succeed => StartAction::Succeed,
            StartAction::Fail(item) => StartAction::Fail(item.clone()),
        };
        assert(r@ =~~= self@);
        r
    }
}

/// How far the start has come.
#[derive(Clone, Copy, Debug, Eq, PartialEq, Structural)]
pub enum StartPhase {
    FirstProbe,
    Spawning,
    Checking,
    Probing,
    Sleeping,
    Done,
}

/// The content of a [`ServerStart`].
#[verifier::ext_equal]
pub struct ServerStartView {
    pub phase: StartPhase,
    pub probes: u64,
    pub exit_status: Option<Text>,
    pub log_path: Text,
}

/// The start of the local server. `probes` counts the probes of the started one.
#[derive(Debug, Eq, PartialEq)]
pub struct ServerStart {
    pub phase: StartPhase,
    pub probes: u64,
    pub exit_status: Option<String>,
    pub log_path: String,
}

impl View for ServerStart {
    type V = ServerStartView;

    open spec fn view(&self) -> ServerStartView {
        ServerStartView {
            phase: self.phase,
            probes: self.probes,
            exit_status: opt_view(self.exit_status),
            log_path: self.log_path@,
        }
    }
}

impl Clone for ServerStart {
    fn clone(&self) -> (r: Self)
        ensures
            r@ == self@,
    {
        let r = ServerStart {
            phase: self.phase,
            probes: self.probes,
            exit_status: self.exit_status.clone(),
            log_path: self.log_path.clone(),
        };
        assert(r@ =~~= self@);
        r
    }
}

impl ServerStartView {
    pub open spec fn ended(self, action: StartActionView) -> (ServerStartView, Seq<StartActionView>) {
        (ServerStartView { phase: StartPhase::Done, ..self }, seq![action])
    }

    /// The next attempt: a process that has not ended yet is looked at first.
    pub open spec fn attempting(self) -> (ServerStartView, Seq<StartActionView>) {
        if self.probes >= MAX_PROBES {
            (
                ServerStartView { phase: StartPhase::Done, ..self },
                seq![
                    StartActionView::Stop,
                    StartActionView::Fail(
                        LocalServerErrorView::TimedOut {
                            status: self.exit_status,
                            log_path: self.log_path,
                        },
                    ),
                ],
            )
        } else if self.exit_status is None {
            (
                ServerStartView { phase: StartPhase::Checking, ..self },
                seq![StartActionView::CheckProcess],
            )
        } else {
            (
                ServerStartView { phase: StartPhase::Probing, ..self },
                seq![StartActionView::Probe],
            )
        }
    }

    /// The state and the actions after an outcome. Outcomes of actions that were
    /// not asked for are ignored.
    pub open spec fn step(self, input: StartInputView) -> (ServerStartView, Seq<StartActionView>) {
        match (self.phase, input) {
            (StartPhase::FirstProbe, StartInputView::Ready) => self.ended(StartActionView::Succeed),
            (StartPhase::FirstProbe, StartInputView::ProbeFailed(error)) => self.ended(
                StartActionView::Fail(error),
            ),
            (StartPhase::FirstProbe, StartInputView::Connecting) => (
                ServerStartView { phase: StartPhase::Spawning, ..self },
                seq![StartActionView::Announce, StartActionView::Spawn],
            ),
            (StartPhase::Spawning, StartInputView::SpawnFailed(error)) => self.ended(
                StartActionView::Fail(LocalServerErrorView::Io(error)),
            ),
            (StartPhase::Spawning, StartInputView::Spawned) => self.attempting(),
            (StartPhase::Checking, StartInputView::WaitFailed(error)) => self.ended(
                StartActionView::Fail(LocalServerErrorView::Io(error)),
            ),
            (StartPhase::Checking, StartInputView::Running) => (
                ServerStartView { phase: StartPhase::Probing, ..self },
                seq![StartActionView::Probe],
            ),
            (StartPhase::Checking, StartInputView::Exited(status)) => (
                ServerStartView {
                    phase: StartPhase::Probing,
                    exit_status: Some(status),
                    ..self
                },
                seq![StartActionView::Probe],
            ),
            (StartPhase::Probing, StartInputView::Ready) => self.ended(StartActionView::Succeed),
            (StartPhase::Probing, StartInputView::ProbeFailed(error)) => self.ended(
                StartActionView::Fail(error),
            ),
            (StartPhase::Probing, StartInputView::Connecting) => (
                ServerStartView { phase: StartPhase::Sleeping, ..self },
                seq![StartActionView::Sleep],
            ),
            (StartPhase::Sleeping, StartInputView::Slept) => ServerStartView {
                probes: (self.probes + 1) as u64,
                ..self
            }.attempting(),
            _ => (self, seq![]),
        }
    }

    /// The start as it begins.
    pub open spec fn first(log_path: Text) -> ServerStartView {
        ServerStartView {
            phase: StartPhase::FirstProbe,
            probes: 0,
            exit_status: None,
            log_path,
        }
    }

    /// What every reachable state keeps: the probes are bounded.
    pub open spec fn well_formed(self) -> bool {
        &&& self.probes <= MAX_PROBES
        &&& self.phase is Sleeping ==> self.probes < MAX_PROBES
        &&& self.phase is Probing ==> self.probes < MAX_PROBES
        &&& self.phase is Checking ==> self.probes < MAX_PROBES
    }

    /// How many outcomes a start can still take at most.
    pub open spec fn steps_left(self) -> nat {
        let attempts = ((MAX_PROBES - self.probes) * 3) as nat;
        match self.phase {
            StartPhase::FirstProbe => attempts + 2,
            StartPhase::Spawning => attempts + 1,
            StartPhase::Checking => attempts,
            StartPhase::Probing => (attempts - 1) as nat,
            StartPhase::Sleeping => (attempts - 2) as nat,
            StartPhase::Done => 0,
        }
    }
}

fn one(action: StartAction) -> (r: Vec<StartAction>)
    ensures
        views(r@) == seq![action@],
{
    let ghost shown = action@;
    let mut list: Vec<StartAction> = Vec::new();
    list.push(action);
    assert(views(list@) =~= seq![shown]);
    list
}

fn both(first: StartAction, second: StartAction) -> (r: Vec<StartAction>)
    ensures
        views(r@) == seq![first@, second@],
{
    let ghost a = first@;
    let ghost b = second@;
    let mut list: Vec<StartAction> = Vec::new();
    list.push(first);
    list.push(second);
    assert(views(list@) =~= seq![a, b]);
    list
}

impl ServerStart {
    /// Begins the start: the first action is a probe.
    pub fn new(log_path: String) -> (r: (ServerStart, Vec<StartAction>))
        ensures
            r.0@ == ServerStartView::first(log_path@),
            r.0@.well_formed(),
            views(r.1@) == seq![StartActionView::Probe],
    {
        (
            ServerStart {
                phase: StartPhase::FirstProbe,
                probes: 0,
                exit_status: None,
                log_path,
            },
            one(StartAction::Probe),
        )
    }

    fn end(&mut self, action: StartAction) -> (r: Vec<StartAction>)
        ensures
            old(self)@.ended(action@) == (final(self)@, views(r@)),
    {
        self.phase = StartPhase::Done;
        one(action)
    }

    fn attempt(&mut self) -> (r: Vec<StartAction>)
        ensures
            old(self)@.attempting() == (final(self)@, views(r@)),
    {
        if self.probes >= MAX_PROBES {
            self.phase = StartPhase::Done;
            both(
                StartAction::Stop,
                StartAction::Fail(
                    LocalServerError::TimedOut {
                        status: self.exit_status.clone(),
                        log_path: self.log_path.clone(),
                    },
                ),
            )
        } else if self.exit_status.is_none() {
            self.phase = StartPhase::Checking;
            one(StartAction::CheckProcess)
        } else {
            self.phase = StartPhase::Probing;
            one(StartAction::Probe)
        }
    }

    /// Takes the outcome of an action and returns what is to be done next.
    pub fn step(&mut self, input: StartInput) -> (r: Vec<StartAction>)
        requires
            old(self)@.well_formed(),
        ensures
            old(self)@.step(input@) == (final(self)@, views(r@)),
            final(self)@.well_formed(),
    {
        match (self.phase, input) {
            (StartPhase::FirstProbe, StartInput::Ready) => self.end(StartAction::Succeed),
            (StartPhase::FirstProbe, StartInput::ProbeFailed(error)) => self.end(
                StartAction::Fail(error),
            ),
            (StartPhase::FirstProbe, StartInput::Connecting) => {
                self.phase = StartPhase::Spawning;
                both(StartAction::Announce, StartAction::Spawn)
            },
            (StartPhase::Spawning, StartInput::SpawnFailed(error)) => self.end(
                StartAction::Fail(LocalServerError::Io(error)),
            ),
            (StartPhase::Spawning, StartInput::Spawned) => self.attempt(),
            (StartPhase::Checking, StartInput::WaitFailed(error)) => self.end(
                StartAction::Fail(LocalServerError::Io(error)),
            ),
            (StartPhase::Checking, StartInput::Running) => {
                self.phase = StartPhase::Probing;
                one(StartAction::Probe)
            },
            (StartPhase::Checking, StartInput::Exited(status)) => {
                self.phase = StartPhase::Probing;
                self.exit_status = Some(status);
                one(StartAction::Probe)
            },
            (StartPhase::Probing, StartInput::Ready) => self.end(StartAction::Succeed),
            (StartPhase::Probing, StartInput::ProbeFailed(error)) => self.end(
                StartAction::Fail(error),
            ),
            (StartPhase::Probing, StartInput::Connecting) => {
                self.phase = StartPhase::Sleeping;
                one(StartAction::Sleep)
            },
            (StartPhase::Sleeping, StartInput::Slept) => {
                self.probes = self.probes + 1;
                self.attempt()
            },
            _ => {
                let none: Vec<StartAction> = Vec::new();
                assert(views(none@) =~= seq![]);
                none
            },
        }
    }
}

/// The start ends: every outcome that is taken brings it nearer to its end, and
/// at the end it has either succeeded or failed.
pub proof fn starting_ends(start: ServerStartView, input: StartInputView)
    requires
        start.well_formed(),
        start.step(input).1.len() > 0,
    ensures
        start.step(input).0.steps_left() < start.steps_left(),
        start.step(input).0.phase is Done <==> start.step(input).1.last() is Succeed
            || start.step(input).1.last() is Fail,
        start.phase !is Done,
{
}

/// A server is started at most once, only after the first probe found nothing
/// listening, and never without being announced.
pub proof fn a_server_is_started_once(start: ServerStartView, input: StartInputView)
    ensures
        start.step(input).1.contains(StartActionView::Spawn) ==> start.phase is FirstProbe
            && input is Connecting,
        start.step(input).1.contains(StartActionView::Announce) <==> start.step(input).1.contains(
            StartActionView::Spawn,
        ),
        !(start.step(input).0.phase is FirstProbe) || start.step(input).0 == start,
{
    let actions = start.step(input).1;
    if start.phase is FirstProbe && input is Connecting {
        assert(actions[0] is Announce);
        assert(actions[1] is Spawn);
    } else {
        assert forall|i: int| 0 <= i < actions.len() implies !(actions[i] is Spawn)
            && !(actions[i] is Announce) by {}
    }
}

/// A server that answers the first probe is used as it is, and a probe that
/// fails ends the start: in neither case is anything started.
pub proof fn an_answering_server_is_used(log_path: Text, error: LocalServerErrorView)
    ensures
        ServerStartView::first(log_path).step(StartInputView::Ready).1 == seq![
            StartActionView::Succeed,
        ],
        ServerStartView::first(log_path).step(StartInputView::ProbeFailed(error)).1 == seq![
            StartActionView::Fail(error),
        ],
{
}

/// A server that is not there is started and waited for: after every look at it that finds it still
/// starting there is a pause, and as soon as it answers the start has succeeded.
pub proof fn started_servers_are_waited_for(start: ServerStartView, status: Text)
    requires
        start.well_formed(),
        start.probes + 1 < MAX_PROBES,
    ensures
        ServerStartView::first(start.log_path).step(StartInputView::Connecting).1 == seq![
            StartActionView::Announce,
            StartActionView::Spawn,
        ],
        start.phase is Spawning ==> (start.step(StartInputView::Spawned).1.last() is CheckProcess
            || start.step(StartInputView::Spawned).1.last() is Probe),
        start.phase is Checking ==> start.step(StartInputView::Running).1 == seq![
            StartActionView::Probe,
        ] && start.step(StartInputView::Exited(status)).1 == seq![StartActionView::Probe]
            && start.step(StartInputView::Exited(status)).0.exit_status == Some(status),
        start.phase is Probing ==> start.step(StartInputView::Ready).1 == seq![
            StartActionView::Succeed,
        ] && start.step(StartInputView::Connecting).1 == seq![StartActionView::Sleep],
        start.phase is Sleeping ==> {
            let (next, actions) = start.step(StartInputView::Slept);
            &&& next.probes == start.probes + 1
            &&& start.exit_status is None ==> actions == seq![StartActionView::CheckProcess]
            &&& start.exit_status is Some ==> actions == seq![StartActionView::Probe]
        },
{
}

/// A server that does not answer in time is stopped, and the failure names how it ended and where
/// its log is.
pub proof fn silent_servers_are_stopped(start: ServerStartView)
    requires
        start.phase is Sleeping,
        start.probes + 1 == MAX_PROBES,
    ensures
        start.step(StartInputView::Slept).1 == seq![
            StartActionView::Stop,
            StartActionView::Fail(
                LocalServerErrorView::TimedOut {
                    status: start.exit_status,
                    log_path: start.log_path,
                },
            ),
        ],
        start.step(StartInputView::Slept).0.phase is Done,
{
}

/// What goes wrong with starting is what the start fails with.
pub proof fn start_faults_are_told(
    start: ServerStartView,
    error: Text,
    fault: LocalServerErrorView,
)
    ensures
        start.phase is Spawning ==> start.step(StartInputView::SpawnFailed(error)).1 == seq![
            StartActionView::Fail(LocalServerErrorView::Io(error)),
        ],
        start.phase is Checking ==> start.step(StartInputView::WaitFailed(error)).1 == seq![
            StartActionView::Fail(LocalServerErrorView::Io(error)),
        ],
        start.phase is Probing || start.phase is FirstProbe ==> start.step(
            StartInputView::ProbeFailed(fault),
        ).1 == seq![StartActionView::Fail(fault)],
{
}

} // verus!
