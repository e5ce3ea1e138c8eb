//! The authoritative session: one durable, ordered event log and the rules by
//! which commands, agent activity and subscribers meet it.
//!
//! [`Session::step`] is the whole decision procedure. The caller performs the
//! actions it returns (writing to the log file, asking the agent, sending
//! replies) and hands the outcome back as the next input.

use crate::protocol::{
    Event, EventView, ModelMessage, ModelMessageView, ModelRef, ModelRefView, ReasoningEffort,
    ToolCall, ToolCallView, ToolResult, ToolResultView,
};
use crate::text::{
    concat, concat3, debug_form, debug_text, decimal, decimal_text, decimals_are_read_back, first_line_is_read_back,
    is_line, lines, lines_text, opt_texts, opt_view, same, views, Text,
};
use vstd::prelude::*;

verus! {

/// The content of an [`AgentRequest`].
#[verifier::ext_equal]
pub struct AgentRequestView {
    pub model: ModelRefView,
    pub reasoning_effort: Option<ReasoningEffort>,
    pub allowed_tools: Option<Seq<Text>>,
    pub messages: Seq<ModelMessageView>,
}

/// What a run asks of the agent. `allowed_tools` scopes the run; `None` or an
/// empty list means every tool.
#[derive(Debug, Eq, PartialEq)]
pub struct AgentRequest {
    pub model: ModelRef,
    pub reasoning_effort: Option<ReasoningEffort>,
    pub allowed_tools: Option<Vec<String>>,
    pub messages: Vec<ModelMessage>,
}

impl View for AgentRequest {
    type V = AgentRequestView;

    open spec fn view(&self) -> AgentRequestView {
        AgentRequestView {
            model: self.model@,
            reasoning_effort: self.reasoning_effort,
            allowed_tools: opt_texts(self.allowed_tools),
            messages: views(self.messages@),
        }
    }
}

impl Clone for AgentRequest {
    fn clone(&self) -> (r: Self)
        ensures
            r@ == self@,
    {
        let r = AgentRequest {
            model: self.model.clone(),
            reasoning_effort: self.reasoning_effort,
            allowed_tools: self.allowed_tools.clone(),
            messages: self.messages.clone(),
        };
        assert(r@ =~~= self@);
        r
    }
}

/// The content of an [`AgentEvent`].
#[verifier::ext_equal]
pub enum AgentEventView {
    AssistantTextDelta(Text),
    AssistantMessage { text: Text, tool_calls: Seq<ToolCallView> },
    ToolCallStarted(ToolCallView),
    ToolCallCompleted(ToolResultView),
    Completed,
    Failed(Text),
}

/// What an agent reports while it works on a request.
#[derive(Debug, Eq, PartialEq)]
pub enum AgentEvent {
    AssistantTextDelta(String),
    AssistantMessage { text: String, tool_calls: Vec<ToolCall> },
    ToolCallStarted(ToolCall),
    ToolCallCompleted(ToolResult),
    Completed,
    Failed(String),
}

impl View for AgentEvent {
    type V = AgentEventView;

    open spec fn view(&self) -> AgentEventView {
        match self {
            AgentEvent::AssistantTextDelta(item) => AgentEventView::AssistantTextDelta(item@),
            AgentEvent::AssistantMessage { text, tool_calls } => AgentEventView::AssistantMessage {
                text: text@,
                tool_calls: views(tool_calls@),
            },
            AgentEvent::ToolCallStarted(item) => AgentEventView::ToolCallStarted(item@),
            AgentEvent::ToolCallCompleted(item) => AgentEventView::ToolCallCompleted(item@),
            AgentEvent::Completed => AgentEventView::Completed,
            AgentEvent::Failed(item) => AgentEventView::Failed(item@),
        }
    }
}

impl Clone for AgentEvent {
    fn clone(&self) -> (r: Self)
        ensures
            r@ == self@,
    {
        let r = match self {
            AgentEvent::AssistantTextDelta(item) => AgentEvent::AssistantTextDelta(item.clone()),
            AgentEvent::AssistantMessage { text, tool_calls } => AgentEvent::AssistantMessage {
                text: text.clone(),
                tool_calls: tool_calls.clone(),
            },
            AgentEvent::ToolCallStarted(item) => AgentEvent::ToolCallStarted(item.clone()),
            AgentEvent::ToolCallCompleted(item) => AgentEvent::ToolCallCompleted(item.clone()),
            AgentEvent::Completed => AgentEvent::Completed,
            AgentEvent::Failed(item) => AgentEvent::Failed(item.clone()),
        };
        assert(r@ =~~= self@);
        r
    }
}

/// The content of a [`SessionError`].
#[verifier::ext_equal]
pub enum SessionErrorView {
    Io(Text),
    InvalidModel(Text),
    Busy,
    Closed,
}

/// Why a session refused or lost a command. `Io` carries the text of the
/// underlying failure.
#[derive(Debug, Eq, PartialEq)]
pub enum SessionError {
    Io(String),
    InvalidModel(String),
    Busy,
    Closed,
}

impl View for SessionError {
    type V = SessionErrorView;

    open spec fn view(&self) -> SessionErrorView {
        match self {
            SessionError::Io(item) => SessionErrorView::Io(item@),
            SessionError::InvalidModel(item) => SessionErrorView::InvalidModel(item@),
            SessionError::Busy => SessionErrorView::Busy,
            SessionError::Closed => SessionErrorView::Closed,
        }
    }
}

impl Clone for SessionError {
    fn clone(&self) -> (r: Self)
        ensures
            r@ == self@,
    {
        let r = match self {
            SessionError::Io(item) => SessionError::Io(item.clone()),
            SessionError::InvalidModel(item) => SessionError::InvalidModel(item.clone()),
            SessionError::Busy => SessionError::Busy,
            SessionError::Closed => SessionError::Closed,
        };
        assert(r@ =~~= self@);
        r
    }
}

/// The content of a [`PendingMessage`].
#[verifier::ext_equal]
pub struct PendingMessageView {
    pub client_id: Text,
    pub model: ModelRefView,
    pub reasoning_effort: Option<ReasoningEffort>,
    pub allowed_tools: Option<Seq<Text>>,
    pub text: Text,
}

/// A user message as a client sent it.
#[derive(Debug, Eq, PartialEq)]
pub struct PendingMessage {
    pub client_id: String,
    pub model: ModelRef,
    pub reasoning_effort: Option<ReasoningEffort>,
    pub allowed_tools: Option<Vec<String>>,
    pub text: String,
}

impl View for PendingMessage {
    type V = PendingMessageView;

    open spec fn view(&self) -> PendingMessageView {
        PendingMessageView {
            client_id: self.client_id@,
            model: self.model@,
            reasoning_effort: self.reasoning_effort,
            allowed_tools: opt_texts(self.allowed_tools),
            text: self.text@,
        }
    }
}

impl Clone for PendingMessage {
    fn clone(&self) -> (r: Self)
        ensures
            r@ == self@,
    {
        let r = PendingMessage {
            client_id: self.client_id.clone(),
            model: self.model.clone(),
            reasoning_effort: self.reasoning_effort,
            allowed_tools: self.allowed_tools.clone(),
            text: self.text.clone(),
        };
        assert(r@ =~~= self@);
        r
    }
}

/// The content of a [`SessionInput`].
#[verifier::ext_equal]
pub enum SessionInputView {
    AppendMessage(PendingMessageView),
    ModelChecked(Option<Text>),
    Saved(Option<Text>),
    AgentEvent { run_id: Text, event: AgentEventView },
    Subscribe,
}

/// What reaches a session: a command, or the outcome of the action it last
/// asked for. `ModelChecked` and `Saved` carry the error, if there was one.
#[derive(Debug, Eq, PartialEq)]
pub enum SessionInput {
    AppendMessage(PendingMessage),
    ModelChecked(Option<String>),
    Saved(Option<String>),
    AgentEvent { run_id: String, event: AgentEvent },
    Subscribe,
}

impl View for SessionInput {
    type V = SessionInputView;

    open spec fn view(&self) -> SessionInputView {
        match self {
            SessionInput::AppendMessage(item) => SessionInputView::AppendMessage(item@),
            SessionInput::ModelChecked(item) => SessionInputView::ModelChecked(opt_view(*item)),
            SessionInput::Saved(item) => SessionInputView::Saved(opt_view(*item)),
            SessionInput::AgentEvent { run_id, event } => SessionInputView::AgentEvent {
                run_id: run_id@,
                event: event@,
            },
            SessionInput::Subscribe => SessionInputView::Subscribe,
        }
    }
}

impl Clone for SessionInput {
    fn clone(&self) -> (r: Self)
        ensures
            r@ == self@,
    {
        let r = match self {
            SessionInput::AppendMessage(item) => SessionInput::AppendMessage(item.clone()),
            SessionInput::ModelChecked(item) => SessionInput::ModelChecked(item.clone()),
            SessionInput::Saved(item) => SessionInput::Saved(item.clone()),
            SessionInput::AgentEvent { run_id, event } => SessionInput::AgentEvent {
                run_id: run_id.clone(),
                event: event.clone(),
            },
            SessionInput::Subscribe => SessionInput::Subscribe,
        };
        assert(r@ =~~= self@);
        r
    }
}

/// The content of a [`SessionAction`].
#[verifier::ext_equal]
pub enum SessionActionView {
    CheckModel(ModelRefView),
    Save(EventView),
    Broadcast(EventView),
    Accept(EventView),
    Refuse(SessionErrorView),
    StartAgent { request: AgentRequestView, run_id: Text },
    Replay(Seq<EventView>),
    Stop,
}

/// What a session asks of its surroundings. `Accept` and `Refuse` answer the
/// message that was sent; `Replay` answers a subscriber with everything so far;
/// `Broadcast` goes to every subscriber.
#[derive(Debug, Eq, PartialEq)]
pub enum SessionAction {
    CheckModel(ModelRef),
    Save(Event),
    Broadcast(Event),
    Accept(Event),
    Refuse(SessionError),
    StartAgent { request: AgentRequest, run_id: String },
    Replay(Vec<Event>),
    Stop,
}

impl View for SessionAction {
    type V = SessionActionView;

    open spec fn view(&self) -> SessionActionView {
        match self {
            SessionAction::CheckModel(item) => SessionActionView::CheckModel(item@),
            SessionAction::Save(item) => SessionActionView::Save(item@),
            SessionAction::Broadcast(item) => SessionActionView::Broadcast(item@),
            SessionAction::Accept(item) => SessionActionView::Accept(item@),
            SessionAction::Refuse(item) => SessionActionView::Refuse(item@),
            SessionAction::StartAgent { request, run_id } => SessionActionView::StartAgent {
                request: request@,
                run_id: run_id@,
            },
            SessionAction::Replay(item) => SessionActionView::Replay(views(item@)),
            SessionAction::Stop => SessionActionView::Stop,
        }
    }
}

impl Clone for SessionAction {
    fn clone(&self) -> (r: Self)
        ensures
            r@ == self@,
    {
        let r = match self {
            SessionAction::CheckModel(item) => SessionAction::CheckModel(item.clone()),
            SessionAction::Save(item) => SessionAction::Save(item.clone()),
            SessionAction::Broadcast(item) => SessionAction::Broadcast(item.clone()),
            SessionAction::Accept(item) => SessionAction::Accept(item.clone()),
            SessionAction::Refuse(item) => SessionAction::Refuse(item.clone()),
            SessionAction::StartAgent { request, run_id } => SessionAction::StartAgent {
                request: request.clone(),
                run_id: run_id.clone(),
            },
            SessionAction::Replay(item) => SessionAction::Replay(item.clone()),
            SessionAction::Stop => SessionAction::Stop,
        };
        assert(r@ =~~= self@);
        r
    }
}

/// The content of a [`Phase`].
#[verifier::ext_equal]
pub enum PhaseView {
    Ready,
    CheckingModel(PendingMessageView),
    SavingMessage { event: EventView, pending: PendingMessageView },
    SavingRun { message: EventView, run: EventView, run_id: Text, pending: PendingMessageView },
    SavingActivity { event: EventView, terminal: bool },
    Stopped,
}

/// What the session waits for. Only a ready session takes commands.
#[derive(Debug, Eq, PartialEq)]
pub enum Phase {
    Ready,
    CheckingModel(PendingMessage),
    SavingMessage { event: Event, pending: PendingMessage },
    SavingRun { message: Event, run: Event, run_id: String, pending: PendingMessage },
    SavingActivity { event: Event, terminal: bool },
    Stopped,
}

impl View for Phase {
    type V = PhaseView;

    open spec fn view(&self) -> PhaseView {
        match self {
            Phase::Ready => PhaseView::Ready,
            Phase::CheckingModel(item) => PhaseView::CheckingModel(item@),
            Phase::SavingMessage { event, pending } => PhaseView::SavingMessage {
                event: event@,
                pending: pending@,
            },
            Phase::SavingRun { message, run, run_id, pending } => PhaseView::SavingRun {
                message: message@,
                run: run@,
                run_id: run_id@,
                pending: pending@,
            },
            Phase::SavingActivity { event, terminal } => PhaseView::SavingActivity {
                event: event@,
                terminal: *terminal,
            },
            Phase::Stopped => PhaseView::Stopped,
        }
    }
}

impl Clone for Phase {
    fn clone(&self) -> (r: Self)
        ensures
            r@ == self@,
    {
        let r = match self {
            Phase::Ready => Phase::Ready,
            Phase::CheckingModel(item) => Phase::CheckingModel(item.clone()),
            Phase::SavingMessage { event, pending } => Phase::SavingMessage {
                event: event.clone(),
                pending: pending.clone(),
            },
            Phase::SavingRun { message, run, run_id, pending } => Phase::SavingRun {
                message: message.clone(),
                run: run.clone(),
                run_id: run_id.clone(),
                pending: pending.clone(),
            },
            Phase::SavingActivity { event, terminal } => Phase::SavingActivity {
                event: event.clone(),
                terminal: *terminal,
            },
            Phase::Stopped => Phase::Stopped,
        };
        assert(r@ =~~= self@);
        r
    }
}

/// The content of a [`Session`].
#[verifier::ext_equal]
pub struct SessionView {
    pub session_id: Text,
    pub has_agent: bool,
    pub log: Seq<EventView>,
    pub active_run: Option<Text>,
    pub phase: PhaseView,
}

/// The state of one session.
#[derive(Debug)]
pub struct Session {
    pub session_id: String,
    pub has_agent: bool,
    pub log: Vec<Event>,
    pub active_run: Option<String>,
    pub phase: Phase,
}

impl View for Session {
    type V = SessionView;

    open spec fn view(&self) -> SessionView {
        SessionView {
            session_id: self.session_id@,
            has_agent: self.has_agent,
            log: views(self.log@),
            active_run: opt_view(self.active_run),
            phase: self.phase@,
        }
    }
}

impl SessionErrorView {
    /// The text shown for an error.
    pub open spec fn message_text(self) -> Text {
        match self {
            SessionErrorView::Io(error) => error,
            SessionErrorView::InvalidModel(error) => error,
            SessionErrorView::Busy => "the session agent is already running"@,
            SessionErrorView::Closed => "session runtime closed"@,
        }
    }
}

impl SessionError {
    pub fn message(&self) -> (r: String)
        ensures
            r@ == self@.message_text(),
    {
        match self {
            SessionError::Io(error) => error.clone(),
            SessionError::InvalidModel(error) => error.clone(),
            SessionError::Busy => "the session agent is already running".to_owned(),
            SessionError::Closed => "session runtime closed".to_owned(),
        }
    }
}

/// Whether an agent event ends its run.
pub open spec fn is_terminal(event: AgentEventView) -> bool {
    event is Completed || event is Failed
}

impl AgentEvent {
    pub fn is_terminal(&self) -> (r: bool)
        ensures
            r == is_terminal(self@),
    {
        match self {
            AgentEvent::Completed => true,
            AgentEvent::Failed(_) => true,
            _ => false,
        }
    }
}

/// The log entry for an agent event.
pub open spec fn protocol_event_spec(
    session_id: Text,
    run_id: Text,
    event: AgentEventView,
    sequence: u64,
    created_at_ms: u64,
) -> EventView {
    match event {
        AgentEventView::AssistantTextDelta(text) => EventView::AssistantTextDelta {
            session_id,
            sequence,
            run_id,
            text,
            created_at_ms,
        },
        AgentEventView::AssistantMessage { text, tool_calls } => EventView::AssistantMessage {
            session_id,
            sequence,
            run_id,
            text,
            tool_calls,
            created_at_ms,
        },
        AgentEventView::ToolCallStarted(call) => EventView::ToolCallStarted {
            session_id,
            sequence,
            run_id,
            call,
            created_at_ms,
        },
        AgentEventView::ToolCallCompleted(result) => EventView::ToolCallCompleted {
            session_id,
            sequence,
            run_id,
            result,
            created_at_ms,
        },
        AgentEventView::Completed => EventView::RunCompleted {
            session_id,
            sequence,
            run_id,
            created_at_ms,
        },
        AgentEventView::Failed(error) => EventView::RunFailed {
            session_id,
            sequence,
            run_id,
            error,
            created_at_ms,
        },
    }
}

/// Turns an agent event into the log entry that records it.
pub fn protocol_event(
    session_id: &str,
    run_id: String,
    event: AgentEvent,
    sequence: u64,
    created_at_ms: u64,
) -> (r: Event)
    ensures
        r@ == protocol_event_spec(session_id@, run_id@, event@, sequence, created_at_ms),
{
    let session_id = session_id.to_owned();
    match event {
        AgentEvent::AssistantTextDelta(text) => Event::AssistantTextDelta {
            session_id,
            sequence,
            run_id,
            text,
            created_at_ms,
        },
        AgentEvent::AssistantMessage { text, tool_calls } => Event::AssistantMessage {
            session_id,
            sequence,
            run_id,
            text,
            tool_calls,
            created_at_ms,
        },
        AgentEvent::ToolCallStarted(call) => Event::ToolCallStarted {
            session_id,
            sequence,
            run_id,
            call,
            created_at_ms,
        },
        AgentEvent::ToolCallCompleted(result) => Event::ToolCallCompleted {
            session_id,
            sequence,
            run_id,
            result,
            created_at_ms,
        },
        AgentEvent::Completed => Event::RunCompleted { session_id, sequence, run_id, created_at_ms },
        AgentEvent::Failed(error) => Event::RunFailed {
            session_id,
            sequence,
            run_id,
            error,
            created_at_ms,
        },
    }
}

/// The part of the conversation one log entry contributes to the model's
/// context, if any.
pub open spec fn history_entry(event: EventView) -> Option<ModelMessageView> {
    match event {
        EventView::Message { text, .. } => Some(ModelMessageView::User { content: text }),
        EventView::AssistantMessage { text, tool_calls, .. } => Some(
            ModelMessageView::Assistant { content: text, tool_calls },
        ),
        EventView::ToolCallCompleted { result, .. } => Some(ModelMessageView::Tool(result)),
        _ => None,
    }
}

/// The conversation recorded by a log, in order.
pub open spec fn history(log: Seq<EventView>) -> Seq<ModelMessageView>
    decreases log.len(),
{
    if log.len() == 0 {
        seq![]
    } else {
        let rest = history(log.drop_last());
        match history_entry(log.last()) {
            Some(message) => rest.push(message),
            None => rest,
        }
    }
}

/// The messages a log contributes to the model's context, in order.
pub fn model_history(events: &Vec<Event>) -> (r: Vec<ModelMessage>)
    ensures
        views(r@) == history(views(events@)),
{
    let mut out: Vec<ModelMessage> = Vec::new();
    let mut i: usize = 0;
    let ghost all = views(events@);
    assert(all.take(0) =~= seq![]);
    assert(views(out@) =~= history(all.take(0)));
    while i < events.len()
        invariant
            i <= events@.len(),
            all == views(events@),
            views(out@) == history(all.take(i as int)),
        decreases events@.len() - i,
    {
        let ghost before = out@;
        assert(all.take(i as int + 1).drop_last() =~= all.take(i as int));
        assert(all.take(i as int + 1).last() == events@[i as int]@);
        match &events[i] {
            Event::Message { text, .. } => {
                out.push(ModelMessage::User { content: text.clone() });
                assert(views(out@) =~= views(before).push(out@.last()@));
            },
            Event::AssistantMessage { text, tool_calls, .. } => {
                let copied = tool_calls.clone();
                assert(views(copied@) =~= views(tool_calls@));
                out.push(ModelMessage::Assistant { content: text.clone(), tool_calls: copied });
                assert(views(out@) =~= views(before).push(out@.last()@));
            },
            Event::ToolCallCompleted { result, .. } => {
                out.push(ModelMessage::Tool(result.clone()));
                assert(views(out@) =~= views(before).push(out@.last()@));
            },
            _ => {},
        }
        i += 1;
    }
    assert(all.take(events@.len() as int) =~= all);
    out
}

impl SessionView {
    /// The number the next log entry gets.
    pub open spec fn next_sequence(self) -> u64 {
        (self.log.len() + 1) as u64
    }

    /// The session after an entry was recorded.
    pub open spec fn recorded(self, event: EventView) -> SessionView {
        SessionView { log: self.log.push(event), ..self }
    }

    pub open spec fn waiting(self, phase: PhaseView) -> SessionView {
        SessionView { phase, ..self }
    }

    /// The log entry for a user message.
    pub open spec fn message_event(self, pending: PendingMessageView, now: u64) -> EventView {
        EventView::Message {
            session_id: self.session_id,
            sequence: self.next_sequence(),
            client_id: pending.client_id,
            model: pending.model,
            text: pending.text,
            created_at_ms: now,
        }
    }

    /// The log entry that opens a run.
    pub open spec fn run_event(self, pending: PendingMessageView, run_id: Text, now: u64) -> EventView {
        EventView::RunStarted {
            session_id: self.session_id,
            sequence: self.next_sequence(),
            run_id,
            model: pending.model,
            reasoning_effort: pending.reasoning_effort,
            created_at_ms: now,
        }
    }

    /// What the agent is asked to do for a message.
    pub open spec fn request(self, pending: PendingMessageView) -> AgentRequestView {
        AgentRequestView {
            model: pending.model,
            reasoning_effort: pending.reasoning_effort,
            allowed_tools: pending.allowed_tools,
            messages: history(self.log),
        }
    }

    /// The transition of a session on one input at time `now`: the next state
    /// and the actions asked for, in order. An input that the session does not
    /// wait for changes nothing.
    pub open spec fn step(self, input: SessionInputView, now: u64) -> (SessionView, Seq<SessionActionView>) {
        match (self.phase, input) {
            (PhaseView::Ready, SessionInputView::AppendMessage(pending)) => if self.active_run is Some {
                (self, seq![SessionActionView::Refuse(SessionErrorView::Busy)])
            } else if self.has_agent {
                (
                    self.waiting(PhaseView::CheckingModel(pending)),
                    seq![SessionActionView::CheckModel(pending.model)],
                )
            } else {
                self.save_message(pending, now)
            },
            (PhaseView::Ready, SessionInputView::AgentEvent { run_id, event }) => if self.active_run
                == Some(run_id) {
                let entry = protocol_event_spec(
                    self.session_id,
                    run_id,
                    event,
                    self.next_sequence(),
                    now,
                );
                (
                    self.waiting(
                        PhaseView::SavingActivity { event: entry, terminal: is_terminal(event) },
                    ),
                    seq![SessionActionView::Save(entry)],
                )
            } else {
                (self, seq![])
            },
            (PhaseView::Ready, SessionInputView::Subscribe) => (
                self,
                seq![SessionActionView::Replay(self.log)],
            ),
            (PhaseView::CheckingModel(pending), SessionInputView::ModelChecked(outcome)) => match outcome {
                Some(error) => (
                    self.waiting(PhaseView::Ready),
                    seq![SessionActionView::Refuse(SessionErrorView::InvalidModel(error))],
                ),
                None => self.save_message(pending, now),
            },
            (PhaseView::SavingMessage { event, pending }, SessionInputView::Saved(outcome)) => match outcome {
                Some(error) => (
                    self.waiting(PhaseView::Ready),
                    seq![SessionActionView::Refuse(SessionErrorView::Io(error))],
                ),
                None => if self.has_agent {
                    let next = self.recorded(event);
                    let run_id = run_id_for(now, event.sequence());
                    let run = next.run_event(pending, run_id, now);
                    (
                        next.waiting(PhaseView::SavingRun { message: event, run, run_id, pending }),
                        seq![SessionActionView::Broadcast(event), SessionActionView::Save(run)],
                    )
                } else {
                    (
                        self.recorded(event).waiting(PhaseView::Ready),
                        seq![SessionActionView::Broadcast(event), SessionActionView::Accept(event)],
                    )
                },
            },
            (PhaseView::SavingRun { message, run, run_id, pending }, SessionInputView::Saved(outcome)) => match outcome {
                Some(error) => (
                    self.waiting(PhaseView::Ready),
                    seq![SessionActionView::Refuse(SessionErrorView::Io(error))],
                ),
                None => {
                    let next = self.recorded(run);
                    (
                        SessionView { active_run: Some(run_id), phase: PhaseView::Ready, ..next },
                        seq![
                            SessionActionView::Broadcast(run),
                            SessionActionView::StartAgent { request: next.request(pending), run_id },
                            SessionActionView::Accept(message),
                        ],
                    )
                },
            },
            (PhaseView::SavingActivity { event, terminal }, SessionInputView::Saved(outcome)) => match outcome {
                Some(_) => (self.waiting(PhaseView::Stopped), seq![SessionActionView::Stop]),
                None => {
                    let next = self.recorded(event).waiting(PhaseView::Ready);
                    (
                        SessionView {
                            active_run: if terminal {
                                None
                            } else {
                                self.active_run
                            },
                            ..next
                        },
                        seq![SessionActionView::Broadcast(event)],
                    )
                },
            },
            _ => (self, seq![]),
        }
    }

    /// Asks for a message to be written to the log.
    pub open spec fn save_message(self, pending: PendingMessageView, now: u64) -> (
        SessionView,
        Seq<SessionActionView>,
    ) {
        let event = self.message_event(pending, now);
        (
            self.waiting(PhaseView::SavingMessage { event, pending }),
            seq![SessionActionView::Save(event)],
        )
    }
}

/// The identifier of the run that answers the message with number `sequence`.
pub open spec fn run_id_for(now: u64, sequence: u64) -> Text {
    "run-"@ + decimal(now as nat) + "-"@ + decimal(sequence as nat)
}

fn make_run_id(now: u64, sequence: u64) -> (r: String)
    ensures
        r@ == run_id_for(now, sequence),
{
    let head = concat3("run-", &decimal_text(now), "-");
    concat(&head, &decimal_text(sequence))
}

/// The number of the next entry of a log.
pub fn next_sequence(events: &Vec<Event>) -> (r: u64)
    requires
        events@.len() < u64::MAX,
    ensures
        r == events@.len() + 1,
{
    events.len() as u64 + 1
}

impl Session {
    /// Opens a session on the log that was read for it.
    pub fn open(session_id: String, has_agent: bool, log: Vec<Event>) -> (r: Session)
        ensures
            r@ == (SessionView {
                session_id: session_id@,
                has_agent,
                log: views(log@),
                active_run: None,
                phase: PhaseView::Ready,
            }),
    {
        Session { session_id, has_agent, log, active_run: None, phase: Phase::Ready }
    }

    /// Takes one input at time `now` and returns the actions it asks for, in
    /// the order in which they are to be performed.
    pub fn step(&mut self, input: SessionInput, now: u64) -> (r: Vec<SessionAction>)
        requires
            old(self)@.log.len() + 1 < u64::MAX,
        ensures
            old(self)@.step(input@, now) == (final(self)@, views(r@)),
    {
        let ghost start = self@;
        let mut phase = Phase::Ready;
        core::mem::swap(&mut self.phase, &mut phase);
        let mut actions: Vec<SessionAction> = Vec::new();
        match (phase, input) {
            (Phase::Ready, SessionInput::AppendMessage(pending)) => {
                if self.active_run.is_some() {
                    actions.push(SessionAction::Refuse(SessionError::Busy));
                } else if self.has_agent {
                    actions.push(SessionAction::CheckModel(pending.model.clone()));
                    self.phase = Phase::CheckingModel(pending);
                } else {
                    self.begin_message(pending, now, &mut actions);
                }
            },
            (Phase::Ready, SessionInput::AgentEvent { run_id, event }) => {
                let current = match &self.active_run {
                    Some(active) => same(active, &run_id),
                    None => false,
                };
                if current {
                    let terminal = event.is_terminal();
                    let entry = protocol_event(
                        &self.session_id,
                        run_id,
                        event,
                        next_sequence(&self.log),
                        now,
                    );
                    actions.push(SessionAction::Save(entry.clone()));
                    self.phase = Phase::SavingActivity { event: entry, terminal };
                }
            },
            (Phase::Ready, SessionInput::Subscribe) => {
                let copied = self.log.clone();
                assert(views(copied@) =~= views(self.log@));
                actions.push(SessionAction::Replay(copied));
            },
            (Phase::CheckingModel(pending), SessionInput::ModelChecked(outcome)) => match outcome {
                Some(error) => {
                    actions.push(SessionAction::Refuse(SessionError::InvalidModel(error)));
                },
                None => {
                    self.begin_message(pending, now, &mut actions);
                },
            },
            (Phase::SavingMessage { event, pending }, SessionInput::Saved(outcome)) => match outcome {
                Some(error) => {
                    actions.push(SessionAction::Refuse(SessionError::Io(error)));
                },
                None => {
                    let ghost before = self.log@;
                    self.log.push(event.clone());
                    assert(views(self.log@) =~= views(before).push(event@));
                    actions.push(SessionAction::Broadcast(event.clone()));
                    if self.has_agent {
                        let run_id = make_run_id(now, event.sequence());
                        let run = Event::RunStarted {
                            session_id: self.session_id.clone(),
                            sequence: next_sequence(&self.log),
                            run_id: run_id.clone(),
                            model: pending.model.clone(),
                            reasoning_effort: pending.reasoning_effort,
                            created_at_ms: now,
                        };
                        actions.push(SessionAction::Save(run.clone()));
                        self.phase = Phase::SavingRun { message: event, run, run_id, pending };
                    } else {
                        actions.push(SessionAction::Accept(event));
                    }
                },
            },
            (Phase::SavingRun { message, run, run_id, pending }, SessionInput::Saved(outcome)) => match outcome {
                Some(error) => {
                    actions.push(SessionAction::Refuse(SessionError::Io(error)));
                },
                None => {
                    let ghost before = self.log@;
                    self.log.push(run.clone());
                    assert(views(self.log@) =~= views(before).push(run@));
                    actions.push(SessionAction::Broadcast(run));
                    let request = AgentRequest {
                        model: pending.model,
                        reasoning_effort: pending.reasoning_effort,
                        allowed_tools: pending.allowed_tools,
                        messages: model_history(&self.log),
                    };
                    self.active_run = Some(run_id.clone());
                    actions.push(SessionAction::StartAgent { request, run_id });
                    actions.push(SessionAction::Accept(message));
                },
            },
            (Phase::SavingActivity { event, terminal }, SessionInput::Saved(outcome)) => match outcome {
                Some(_) => {
                    self.phase = Phase::Stopped;
                    actions.push(SessionAction::Stop);
                },
                None => {
                    let ghost before = self.log@;
                    self.log.push(event.clone());
                    assert(views(self.log@) =~= views(before).push(event@));
                    actions.push(SessionAction::Broadcast(event));
                    if terminal {
                        self.active_run = None;
                    }
                },
            },
            (phase, _) => {
                self.phase = phase;
            },
        }
        assert(views(actions@) =~= start.step(input@, now).1);
        actions
    }

    fn begin_message(&mut self, pending: PendingMessage, now: u64, actions: &mut Vec<SessionAction>)
        requires
            old(self)@.log.len() < u64::MAX,
            old(actions)@.len() == 0,
        ensures
            old(self)@.save_message(pending@, now) == (final(self)@, views(final(actions)@)),
    {
        let event = Event::Message {
            session_id: self.session_id.clone(),
            sequence: next_sequence(&self.log),
            client_id: pending.client_id.clone(),
            model: pending.model.clone(),
            text: pending.text.clone(),
            created_at_ms: now,
        };
        actions.push(SessionAction::Save(event.clone()));
        self.phase = Phase::SavingMessage { event, pending };
        assert(views(actions@) =~= old(self)@.save_message(pending@, now).1);
    }
}

/// Whether entry number `i + 1` of a log is where it belongs.
pub open spec fn entry_in_place(log: Seq<EventView>, session_id: Text, i: int) -> bool {
    log[i].sequence() == i + 1 && log[i].session_id() == session_id
}

/// A log numbers its entries 1, 2, 3, … and belongs to one session.
pub open spec fn ordered(log: Seq<EventView>, session_id: Text) -> bool {
    forall|i: int| 0 <= i < log.len() ==> #[trigger] entry_in_place(log, session_id, i)
}

impl SessionView {
    /// The entry that waits to be written, if any.
    pub open spec fn unsaved(self) -> Option<EventView> {
        match self.phase {
            PhaseView::SavingMessage { event, .. } => Some(event),
            PhaseView::SavingRun { run, .. } => Some(run),
            PhaseView::SavingActivity { event, .. } => Some(event),
            _ => None,
        }
    }

    /// What every reachable session keeps: an ordered log, an unsaved entry
    /// that fits behind it, and at most one run, which only a session with an
    /// agent has and during which no message is accepted.
    pub open spec fn well_formed(self) -> bool {
        &&& ordered(self.log, self.session_id)
        &&& self.unsaved() matches Some(event) ==> event.sequence() == self.log.len() + 1
            && event.session_id() == self.session_id
        &&& self.active_run is Some ==> self.has_agent
        &&& match self.phase {
            PhaseView::CheckingModel(_) | PhaseView::SavingMessage { .. } => self.active_run is None,
            PhaseView::SavingRun { .. } => self.active_run is None && self.has_agent,
            PhaseView::SavingActivity { .. } => self.active_run is Some,
            _ => true,
        }
    }
}

/// A session opened on an ordered log is well formed.
pub proof fn opening_is_well_formed(session_id: Text, has_agent: bool, log: Seq<EventView>)
    requires
        ordered(log, session_id),
    ensures
        (SessionView { session_id, has_agent, log, active_run: None, phase: PhaseView::Ready }).well_formed(),
{
}

/// Every step keeps a session well formed, so the log stays numbered
/// 1, 2, 3, … without gaps whatever arrives.
pub proof fn step_keeps_the_log_ordered(s: SessionView, input: SessionInputView, now: u64)
    requires
        s.well_formed(),
        s.log.len() + 1 < u64::MAX,
    ensures
        s.step(input, now).0.well_formed(),
{
    let next = s.step(input, now).0;
    assert forall|i: int| 0 <= i < next.log.len() implies #[trigger] entry_in_place(
        next.log,
        next.session_id,
        i,
    ) by {
        if i < s.log.len() {
            assert(entry_in_place(s.log, s.session_id, i));
        }
    }
}

/// The log only grows, by at most one entry, and only by the entry whose
/// writing was just confirmed; that entry is what subscribers are told.
pub proof fn the_log_is_durable(s: SessionView, input: SessionInputView, now: u64)
    ensures
        ({
            let (next, actions) = s.step(input, now);
            ||| next.log == s.log && (forall|i: int|
                0 <= i < actions.len() ==> !(#[trigger] actions[i] is Broadcast))
            ||| input == SessionInputView::Saved(None) && s.unsaved() is Some && next.log
                == s.log.push(s.unsaved()->0) && actions.len() > 0 && actions[0]
                == SessionActionView::Broadcast(s.unsaved()->0) && (forall|i: int|
                0 < i < actions.len() ==> !(#[trigger] actions[i] is Broadcast))
        }),
{
}

/// A step that refuses a message changes neither the log nor the running run.
pub proof fn refusals_leave_no_trace(s: SessionView, input: SessionInputView, now: u64, i: int)
    requires
        0 <= i < s.step(input, now).1.len(),
        s.step(input, now).1[i] is Refuse,
    ensures
        s.step(input, now).0.log == s.log,
        s.step(input, now).0.active_run == s.active_run,
        s.step(input, now).0.phase is Ready,
        s.step(input, now).1.len() == 1,
{
}

/// While a run is active every message is refused as busy and nothing else
/// happens.
pub proof fn a_busy_session_refuses_messages(s: SessionView, pending: PendingMessageView, now: u64)
    requires
        s.phase is Ready,
        s.active_run is Some,
    ensures
        s.step(SessionInputView::AppendMessage(pending), now) == (
            s,
            seq![SessionActionView::Refuse(SessionErrorView::Busy)],
        ),
{
}

/// A model that the agent rejects is refused before anything is recorded.
pub proof fn an_unknown_model_is_never_recorded(
    s: SessionView,
    pending: PendingMessageView,
    error: Text,
    now: u64,
    later: u64,
)
    requires
        s.phase is Ready,
        s.active_run is None,
        s.has_agent,
    ensures
        ({
            let (checking, asked) = s.step(SessionInputView::AppendMessage(pending), now);
            let (done, answered) = checking.step(SessionInputView::ModelChecked(Some(error)), later);
            &&& asked == seq![SessionActionView::CheckModel(pending.model)]
            &&& done == s
            &&& answered == seq![SessionActionView::Refuse(SessionErrorView::InvalidModel(error))]
        }),
{
}

/// Activity of a run that is not the active one is ignored.
pub proof fn stale_runs_are_ignored(s: SessionView, run_id: Text, event: AgentEventView, now: u64)
    requires
        s.active_run != Some(run_id),
    ensures
        s.step(SessionInputView::AgentEvent { run_id, event }, now) == (
            s,
            Seq::<SessionActionView>::empty(),
        ),
{
}

/// A subscriber is handed the whole log, entry for entry.
pub proof fn replay_is_the_log(s: SessionView, now: u64)
    requires
        s.phase is Ready,
    ensures
        s.step(SessionInputView::Subscribe, now) == (s, seq![SessionActionView::Replay(s.log)]),
{
}

/// An accepted message on a session with an agent takes three steps: the
/// message and the opening of its run are recorded one behind the other, the
/// agent is started once with the whole conversation, and the session is then
/// busy with that run.
pub proof fn an_accepted_message_starts_one_run(
    s: SessionView,
    pending: PendingMessageView,
    asked_at: u64,
    checked_at: u64,
    saved_at: u64,
    started_at: u64,
)
    requires
        s.phase is Ready,
        s.active_run is None,
        s.has_agent,
    ensures
        ({
            let checking = s.step(SessionInputView::AppendMessage(pending), asked_at).0;
            let saving = checking.step(SessionInputView::ModelChecked(None), checked_at).0;
            let starting = saving.step(SessionInputView::Saved(None), saved_at).0;
            let (running, actions) = starting.step(SessionInputView::Saved(None), started_at);
            let message = s.message_event(pending, checked_at);
            let run_id = run_id_for(saved_at, message.sequence());
            let run = s.recorded(message).run_event(pending, run_id, saved_at);
            &&& running.log == s.log.push(message).push(run)
            &&& running.active_run == Some(run_id)
            &&& running.phase is Ready
            &&& actions == seq![
                SessionActionView::Broadcast(run),
                SessionActionView::StartAgent { request: running.request(pending), run_id },
                SessionActionView::Accept(message),
            ]
        }),
{
}

/// Recording the terminal event of a run frees the session.
pub proof fn a_terminal_event_frees_the_session(
    s: SessionView,
    run_id: Text,
    event: AgentEventView,
    now: u64,
    later: u64,
)
    requires
        s.phase is Ready,
        s.active_run == Some(run_id),
        is_terminal(event),
    ensures
        ({
            let saving = s.step(SessionInputView::AgentEvent { run_id, event }, now).0;
            let freed = saving.step(SessionInputView::Saved(None), later).0;
            &&& freed.active_run is None
            &&& freed.phase is Ready
            &&& freed.log == s.log.push(
                protocol_event_spec(s.session_id, run_id, event, s.next_sequence(), now),
            )
        }),
{
}

/// Whether some event of a run's report ends it.
pub open spec fn has_terminal(events: Seq<AgentEventView>) -> bool {
    exists|i: int| 0 <= i < events.len() && is_terminal(#[trigger] events[i])
}

/// What the session is told of an agent that reported `events` and then went
/// silent: its report, closed by a failure if the agent did not close it.
pub open spec fn relayed(events: Seq<AgentEventView>) -> Seq<AgentEventView> {
    if has_terminal(events) {
        events
    } else {
        events.push(AgentEventView::Failed("agent stopped without a terminal event"@))
    }
}

/// However an agent behaves, what is relayed of it holds a terminal event, so
/// no run stays open behind a silent agent.
pub proof fn every_relayed_run_ends(events: Seq<AgentEventView>)
    ensures
        has_terminal(relayed(events)),
        events.is_prefix_of(relayed(events)),
{
    if !has_terminal(events) {
        let all = relayed(events);
        assert(is_terminal(all[events.len() as int]));
    }
    assert(events =~= relayed(events).take(events.len() as int));
}

/// Follows the report of one agent run.
pub struct RunRelay {
    pub terminal_sent: bool,
    pub seen: Ghost<Seq<AgentEventView>>,
}

impl RunRelay {
    /// The relay remembers whether the report was closed.
    pub open spec fn well_formed(self) -> bool {
        self.terminal_sent == has_terminal(self.seen@)
    }

    pub fn new() -> (r: RunRelay)
        ensures
            r.well_formed(),
            r.seen@.len() == 0,
    {
        RunRelay { terminal_sent: false, seen: Ghost(Seq::empty()) }
    }

    /// Notes an event that is passed on.
    pub fn pass(&mut self, event: &AgentEvent)
        requires
            old(self).well_formed(),
        ensures
            final(self).well_formed(),
            final(self).seen@ == old(self).seen@.push(event@),
    {
        let ghost before = self.seen@;
        proof {
            let all = before.push(event@);
            if has_terminal(before) {
                let i = choose|i: int| 0 <= i < before.len() && is_terminal(#[trigger] before[i]);
                assert(is_terminal(all[i]));
            }
            if is_terminal(event@) {
                assert(is_terminal(all[before.len() as int]));
            }
            if has_terminal(all) {
                let i = choose|i: int| 0 <= i < all.len() && is_terminal(#[trigger] all[i]);
                if i < before.len() {
                    assert(is_terminal(before[i]));
                }
            }
        }
        self.terminal_sent = self.terminal_sent || event.is_terminal();
        self.seen = Ghost(before.push(event@));
    }

    /// The event that closes the report once the agent has gone silent, if one
    /// is still owed.
    pub fn close(&self) -> (r: Option<AgentEvent>)
        requires
            self.well_formed(),
        ensures
            r is Some <==> !has_terminal(self.seen@),
            r matches Some(event) ==> self.seen@.push(event@) == relayed(self.seen@),
            r is None ==> self.seen@ == relayed(self.seen@),
    {
        if self.terminal_sent {
            None
        } else {
            Some(AgentEvent::Failed("agent stopped without a terminal event".to_owned()))
        }
    }
}

/// The fault of the line at `index` of a log that is read back for
/// `session_id`, if it has one. `entry` is the decoded line, or the decoder's
/// complaint.
pub open spec fn line_fault(session_id: Text, index: int, entry: Result<Event, String>) -> Option<Text> {
    let line = decimal((index + 1) as nat);
    match entry {
        Err(error) => Some("invalid event log line "@ + line + ": "@ + error@),
        Ok(event) => if event@.session_id() != session_id {
            Some(
                "event log line "@ + line + " belongs to session "@ + debug_form(
                    event@.session_id(),
                ) + ", not "@ + debug_form(session_id),
            )
        } else if event@.sequence() != index + 1 {
            Some("invalid event log sequence on line "@ + line)
        } else {
            None
        },
    }
}

fn describe_fault(session_id: &str, index: usize, entry: &Result<Event, String>) -> (r: Option<String>)
    requires
        index < u64::MAX,
    ensures
        opt_view(r) == line_fault(session_id@, index as int, *entry),
{
    let line = decimal_text(index as u64 + 1);
    match entry {
        Err(error) => {
            let head = concat3("invalid event log line ", &line, ": ");
            Some(concat(&head, error))
        },
        Ok(event) => if !same(event.session_id(), session_id) {
            let head = concat3("event log line ", &line, " belongs to session ");
            let owner = concat3(&head, &debug_text(event.session_id()), ", not ");
            Some(concat(&owner, &debug_text(session_id)))
        } else if event.sequence() != index as u64 + 1 {
            Some(concat("invalid event log sequence on line ", &line))
        } else {
            None
        },
    }
}

/// The decoded lines of a log, as far as they decoded.
pub open spec fn decoded(entries: Seq<Result<Event, String>>) -> Seq<EventView> {
    entries.map_values(|entry: Result<Event, String>| entry->Ok_0@)
}

/// Checks the decoded lines of a log that is read back for `session_id`. The
/// log is accepted exactly when every line decoded, belongs to the session and
/// carries its own number; otherwise the first faulty line is reported.
pub fn load_events(session_id: &str, entries: Vec<Result<Event, String>>) -> (r: Result<Vec<Event>, SessionError>)
    requires
        entries@.len() < u64::MAX,
    ensures
        r is Ok <==> forall|i: int|
            0 <= i < entries@.len() ==> #[trigger] line_fault(session_id@, i, entries@[i]) is None,
        r matches Ok(events) ==> views(events@) == decoded(entries@) && ordered(
            views(events@),
            session_id@,
        ),
        r matches Err(error) ==> exists|k: int|
            0 <= k < entries@.len() && #[trigger] line_fault(session_id@, k, entries@[k]) is Some
                && error@ == SessionErrorView::Io(line_fault(session_id@, k, entries@[k])->0)
                && forall|i: int|
                0 <= i < k ==> #[trigger] line_fault(session_id@, i, entries@[i]) is None,
{
    let ghost all = entries@;
    let mut events: Vec<Event> = Vec::new();
    let mut i: usize = 0;
    let total: usize = entries.len();
    for entry in it: entries
        invariant
            it.seq() == all,
            all.len() == total,
            all.len() < u64::MAX,
            i == it.index(),
            views(events@) =~= decoded(all.take(i as int)),
            forall|k: int| 0 <= k < i ==> #[trigger] line_fault(session_id@, k, all[k]) is None,
    {
        assert(entry == all[i as int]);
        if let Some(fault) = describe_fault(session_id, i, &entry) {
            return Err(SessionError::Io(fault));
        }
        let ghost before = events@;
        match entry {
            Ok(event) => {
                events.push(event);
            },
            Err(_) => {},
        }
        assert(line_fault(session_id@, i as int, all[i as int]) is None);
        assert(decoded(all.take(i as int + 1)) =~= decoded(all.take(i as int)).push(
            all[i as int]->Ok_0@,
        ));
        assert(views(events@) =~= views(before).push(all[i as int]->Ok_0@));
        i += 1;
    }
    assert(all.take(all.len() as int) =~= all);
    assert forall|k: int| 0 <= k < events@.len() implies #[trigger] entry_in_place(
        views(events@),
        session_id@,
        k,
    ) by {
        assert(line_fault(session_id@, k, all[k]) is None);
        assert(views(events@)[k] == decoded(all)[k]);
    }
    Ok(events)
}

/// The entries that a list of actions announces to subscribers, in order.
pub open spec fn announced(actions: Seq<SessionActionView>) -> Seq<EventView>
    decreases actions.len(),
{
    if actions.len() == 0 {
        seq![]
    } else {
        let rest = announced(actions.drop_last());
        match actions.last() {
            SessionActionView::Broadcast(event) => rest.push(event),
            _ => rest,
        }
    }
}

/// The state and all actions of a session after a sequence of timed inputs.
pub open spec fn run(s: SessionView, inputs: Seq<(SessionInputView, u64)>) -> (
    SessionView,
    Seq<SessionActionView>,
)
    decreases inputs.len(),
{
    if inputs.len() == 0 {
        (s, seq![])
    } else {
        let (before, actions) = run(s, inputs.drop_last());
        let (after, more) = before.step(inputs.last().0, inputs.last().1);
        (after, actions + more)
    }
}

proof fn announced_concat(a: Seq<SessionActionView>, b: Seq<SessionActionView>)
    ensures
        announced(a + b) == announced(a) + announced(b),
    decreases b.len(),
{
    if b.len() == 0 {
        assert(a + b =~= a);
        assert(announced(a) + announced(b) =~= announced(a));
    } else {
        announced_concat(a, b.drop_last());
        assert((a + b).drop_last() =~= a + b.drop_last());
        assert(announced(a + b) =~= announced(a) + announced(b));
    }
}

proof fn announced_of_step(s: SessionView, input: SessionInputView, now: u64)
    ensures
        s.step(input, now).0.log == s.log + announced(s.step(input, now).1),
{
    let (next, actions) = s.step(input, now);
    reveal_with_fuel(announced, 4);
    the_log_is_durable(s, input, now);
    assert(next.log =~= s.log + announced(actions));
}

/// A subscriber that was handed the log of `s` and then receives what is
/// broadcast holds, at every later point, exactly the log: every client sees
/// the same entries in the same order. As long as their number can be counted,
/// the order is 1, 2, 3, ….
pub proof fn subscribers_see_the_log(s: SessionView, inputs: Seq<(SessionInputView, u64)>)
    ensures
        run(s, inputs).0.log == s.log + announced(run(s, inputs).1),
        run(s, inputs).0.log.len() <= s.log.len() + inputs.len(),
        s.well_formed() && s.log.len() + inputs.len() + 1 < u64::MAX ==> run(
            s,
            inputs,
        ).0.well_formed(),
    decreases inputs.len(),
{
    if inputs.len() == 0 {
        assert(s.log + announced(seq![]) =~= s.log);
    } else {
        subscribers_see_the_log(s, inputs.drop_last());
        let (before, actions) = run(s, inputs.drop_last());
        let (input, now) = inputs.last();
        let more = before.step(input, now).1;
        if s.well_formed() && s.log.len() + inputs.len() + 1 < u64::MAX {
            step_keeps_the_log_ordered(before, input, now);
        }
        the_log_is_durable(before, input, now);
        announced_of_step(before, input, now);
        announced_concat(actions, more);
        assert(s.log + announced(actions) + announced(more) =~= s.log + (announced(actions)
            + announced(more)));
    }
}

proof fn runs_continue(
    s: SessionView,
    early: Seq<(SessionInputView, u64)>,
    late: Seq<(SessionInputView, u64)>,
)
    ensures
        run(s, early + late).0 == run(run(s, early).0, late).0,
    decreases late.len(),
{
    if late.len() == 0 {
        assert(early + late =~= early);
    } else {
        runs_continue(s, early, late.drop_last());
        assert((early + late).drop_last() =~= early + late.drop_last());
        assert((early + late).last() == late.last());
    }
}

/// Whenever two clients subscribe, they hold the same entries from then on: the
/// one that came first, the one that came after `early`, and the log agree.
pub proof fn all_subscribers_agree(
    s: SessionView,
    early: Seq<(SessionInputView, u64)>,
    late: Seq<(SessionInputView, u64)>,
)
    ensures
        ({
            let met = run(s, early).0;
            let log = run(s, early + late).0.log;
            &&& s.log + announced(run(s, early + late).1) == log
            &&& met.log + announced(run(met, late).1) == log
        }),
{
    subscribers_see_the_log(s, early + late);
    subscribers_see_the_log(run(s, early).0, late);
    runs_continue(s, early, late);
}

/// The text of a log: its entries, each ended by a line break.
pub open spec fn log_text(entries: Seq<Text>) -> Text
    decreases entries.len(),
{
    if entries.len() == 0 {
        seq![]
    } else {
        log_text(entries.drop_last()) + entries.last() + "\n"@
    }
}

/// What is appended to a log for one encoded event.
pub fn log_entry(encoded: &str) -> (r: String)
    ensures
        r@ == encoded@ + "\n"@,
        forall|entries: Seq<Text>| #[trigger]
            log_text(entries.push(encoded@)) == log_text(entries) + r@,
{
    let r = concat(encoded, "\n");
    assert forall|entries: Seq<Text>| #[trigger]
        log_text(entries.push(encoded@)) == log_text(entries) + r@ by {
        assert(entries.push(encoded@).drop_last() =~= entries);
        assert(log_text(entries.push(encoded@)) =~= log_text(entries) + r@);
    }
    r
}

/// The entries of a log's text.
pub fn log_entries(contents: &str) -> (r: Vec<String>)
    ensures
        views(r@) == lines(contents@),
{
    lines_text(contents)
}

proof fn log_from_the_front(entries: Seq<Text>)
    requires
        entries.len() > 0,
    ensures
        log_text(entries) == entries[0] + "\n"@ + log_text(entries.drop_first()),
    decreases entries.len(),
{
    let rest = entries.drop_first();
    if entries.len() == 1 {
        assert(entries.drop_last() =~= seq![]);
        assert(rest =~= seq![]);
        assert(log_text(entries) =~= entries[0] + "\n"@ + log_text(rest));
    } else {
        log_from_the_front(entries.drop_last());
        assert(entries.drop_last().drop_first() =~= rest.drop_last());
        assert(log_text(entries) =~= entries[0] + "\n"@ + log_text(rest));
    }
}

/// A log gives back what was written to it: the entries, in their order, as long
/// as each stands on a line of its own.
pub proof fn a_written_log_is_read_back(entries: Seq<Text>)
    requires
        forall|i: int| 0 <= i < entries.len() ==> is_line(#[trigger] entries[i]),
    ensures
        lines(log_text(entries)) == entries,
    decreases entries.len(),
{
    if entries.len() == 0 {
        assert(lines(log_text(entries)) =~= entries);
    } else {
        let rest = entries.drop_first();
        log_from_the_front(entries);
        assert forall|i: int| 0 <= i < rest.len() implies is_line(#[trigger] rest[i]) by {
            assert(rest[i] == entries[i + 1]);
        }
        a_written_log_is_read_back(rest);
        first_line_is_read_back(entries[0], log_text(rest));
        assert(entries =~= seq![entries[0]] + rest);
    }
}

/// The conversation of two logs, one behind the other, is the conversation of
/// the first and then that of the second: nothing recorded is ever forgotten.
pub proof fn conversations_join(first: Seq<EventView>, second: Seq<EventView>)
    ensures
        history(first + second) == history(first) + history(second),
    decreases second.len(),
{
    if second.len() == 0 {
        assert(first + second =~= first);
        assert(history(first) + history(second) =~= history(first));
    } else {
        conversations_join(first, second.drop_last());
        assert((first + second).drop_last() =~= first + second.drop_last());
        assert((first + second).last() == second.last());
        assert(history(first + second) =~= history(first) + history(second));
    }
}

/// What one entry adds to the conversation: a message the words of the user, an
/// answer its text and its tool calls, a finished tool call its result, and any
/// other entry nothing.
pub proof fn every_turn_is_remembered(event: EventView)
    ensures
        match event {
            EventView::Message { text, .. } => history(seq![event]) == seq![
                ModelMessageView::User { content: text },
            ],
            EventView::AssistantMessage { text, tool_calls, .. } => history(seq![event]) == seq![
                ModelMessageView::Assistant { content: text, tool_calls },
            ],
            EventView::ToolCallCompleted { result, .. } => history(seq![event]) == seq![
                ModelMessageView::Tool(result),
            ],
            _ => history(seq![event]).len() == 0,
        },
{
    reveal_with_fuel(history, 2);
    assert(seq![event].drop_last() =~= seq![]);
    assert(history(seq![event].drop_last()) =~= seq![]);
    assert(seq![event].last() == event);
}

/// A message that is accepted is recorded as it was sent, and the agent is
/// started with the whole conversation, the message last, and with the model,
/// the effort and the tools that were asked for.
pub proof fn accepted_messages_reach_the_agent(
    s: SessionView,
    pending: PendingMessageView,
    asked_at: u64,
    checked_at: u64,
    saved_at: u64,
    started_at: u64,
)
    requires
        s.phase is Ready,
        s.active_run is None,
        s.has_agent,
        s.log.len() + 2 < u64::MAX,
    ensures
        ({
            let (checking, asked) = s.step(SessionInputView::AppendMessage(pending), asked_at);
            let (saving, checked) = checking.step(SessionInputView::ModelChecked(None), checked_at);
            let (starting, saved) = saving.step(SessionInputView::Saved(None), saved_at);
            let (running, started) = starting.step(SessionInputView::Saved(None), started_at);
            let message = EventView::Message {
                session_id: s.session_id,
                sequence: (s.log.len() + 1) as u64,
                client_id: pending.client_id,
                model: pending.model,
                text: pending.text,
                created_at_ms: checked_at,
            };
            &&& asked == seq![SessionActionView::CheckModel(pending.model)]
            &&& checked == seq![SessionActionView::Save(message)]
            &&& saved.len() == 2
            &&& saved[0] == SessionActionView::Broadcast(message)
            &&& saved[1] matches SessionActionView::Save(run) && (run matches EventView::RunStarted {
                session_id,
                sequence,
                run_id,
                model,
                reasoning_effort,
                created_at_ms,
            } && {
                &&& session_id == s.session_id
                &&& sequence == s.log.len() + 2
                &&& model == pending.model
                &&& reasoning_effort == pending.reasoning_effort
                &&& created_at_ms == saved_at
                &&& running.active_run == Some(run_id)
                &&& running.log == s.log + seq![message, run]
                &&& started == seq![
                    SessionActionView::Broadcast(run),
                    SessionActionView::StartAgent {
                        request: AgentRequestView {
                            model: pending.model,
                            reasoning_effort: pending.reasoning_effort,
                            allowed_tools: pending.allowed_tools,
                            messages: history(s.log).push(
                                ModelMessageView::User { content: pending.text },
                            ),
                        },
                        run_id,
                    },
                    SessionActionView::Accept(message),
                ]
            })
        }),
{
    let checking = s.step(SessionInputView::AppendMessage(pending), asked_at).0;
    let saving = checking.step(SessionInputView::ModelChecked(None), checked_at).0;
    let (starting, saved) = saving.step(SessionInputView::Saved(None), saved_at);
    let running = starting.step(SessionInputView::Saved(None), started_at).0;
    let message = s.message_event(pending, checked_at);
    let run = saved[1]->Save_0;
    assert(running.log =~= s.log + seq![message, run]);
    conversations_join(s.log, seq![message, run]);
    conversations_join(seq![message], seq![run]);
    assert(seq![message, run] =~= seq![message] + seq![run]);
    every_turn_is_remembered(message);
    every_turn_is_remembered(run);
    assert(history(running.log) =~= history(s.log).push(
        ModelMessageView::User { content: pending.text },
    ));
}

/// What the running agent reports is recorded with all it says, numbered behind
/// the log, and told to every subscriber once it is written. The run stays
/// active until its end is reported.
pub proof fn agent_reports_are_recorded(
    s: SessionView,
    run: Text,
    report: AgentEventView,
    now: u64,
    later: u64,
)
    requires
        s.phase is Ready,
        s.active_run == Some(run),
        s.log.len() + 1 < u64::MAX,
    ensures
        ({
            let (saving, asked) = s.step(SessionInputView::AgentEvent { run_id: run, event: report }, now);
            let (done, told) = saving.step(SessionInputView::Saved(None), later);
            &&& asked.len() == 1
            &&& asked[0] matches SessionActionView::Save(entry) && {
                &&& told == seq![SessionActionView::Broadcast(entry)]
                &&& done.log == s.log.push(entry)
                &&& done.active_run == (if report is Completed || report is Failed {
                    None
                } else {
                    Some(run)
                })
                &&& match (report, entry) {
                    (
                        AgentEventView::AssistantTextDelta(said),
                        EventView::AssistantTextDelta {
                            session_id,
                            sequence,
                            run_id,
                            text,
                            created_at_ms,
                        },
                    ) => text == said && session_id == s.session_id && sequence == s.log.len() + 1
                        && run_id == run && created_at_ms == now,
                    (
                        AgentEventView::AssistantMessage { text: said, tool_calls: calls },
                        EventView::AssistantMessage {
                            session_id,
                            sequence,
                            run_id,
                            text,
                            tool_calls,
                            created_at_ms,
                        },
                    ) => text == said && tool_calls == calls && session_id == s.session_id
                        && sequence == s.log.len() + 1 && run_id == run && created_at_ms == now,
                    (
                        AgentEventView::ToolCallStarted(asked_for),
                        EventView::ToolCallStarted {
                            session_id,
                            sequence,
                            run_id,
                            call,
                            created_at_ms,
                        },
                    ) => call == asked_for && session_id == s.session_id && sequence == s.log.len()
                        + 1 && run_id == run && created_at_ms == now,
                    (
                        AgentEventView::ToolCallCompleted(outcome),
                        EventView::ToolCallCompleted {
                            session_id,
                            sequence,
                            run_id,
                            result,
                            created_at_ms,
                        },
                    ) => result == outcome && session_id == s.session_id && sequence == s.log.len()
                        + 1 && run_id == run && created_at_ms == now,
                    (
                        AgentEventView::Completed,
                        EventView::RunCompleted { session_id, sequence, run_id, created_at_ms },
                    ) => session_id == s.session_id && sequence == s.log.len() + 1 && run_id == run
                        && created_at_ms == now,
                    (
                        AgentEventView::Failed(fault),
                        EventView::RunFailed { session_id, sequence, run_id, error, created_at_ms },
                    ) => error == fault && session_id == s.session_id && sequence == s.log.len() + 1
                        && run_id == run && created_at_ms == now,
                    _ => false,
                }
            }
        }),
{
}

/// A session that could not write what its agent reported stops; a message or
/// the opening of a run that could not be written is refused with the complaint.
pub proof fn unwritten_entries_are_not_told(s: SessionView, error: Text, now: u64)
    ensures
        ({
            let (next, actions) = s.step(SessionInputView::Saved(Some(error)), now);
            &&& next.log == s.log
            &&& s.phase is SavingMessage || s.phase is SavingRun ==> next.phase is Ready && actions
                == seq![SessionActionView::Refuse(SessionErrorView::Io(error))]
            &&& s.phase is SavingActivity ==> next.phase is Stopped && actions == seq![
                SessionActionView::Stop,
            ]
        }),
{
}

/// A line of a log is good exactly when it decoded to an entry of the session
/// that carries the number of the line.
pub proof fn good_lines_are_numbered(session_id: Text, index: int, entry: Result<Event, String>)
    requires
        0 <= index < u64::MAX,
    ensures
        line_fault(session_id, index, entry) is None <==> (entry matches Ok(event)
            && event@.session_id() == session_id && event@.sequence() == index + 1),
{
}

/// The conversation that the agent is given holds what every entry of the log adds to it, each
/// in its place: that of a log which was written in two parts is that of the first and then that
/// of the second.
pub proof fn whole_logs_are_told(
    first: Vec<Event>,
    second: Vec<Event>,
    both: Vec<Event>,
    before: Vec<ModelMessage>,
    after: Vec<ModelMessage>,
    all: Vec<ModelMessage>,
)
    requires
        call_ensures(model_history, (&first,), before),
        call_ensures(model_history, (&second,), after),
        call_ensures(model_history, (&both,), all),
        views(both@) == views(first@) + views(second@),
    ensures
        views(all@) == views(before@) + views(after@),
{
    conversations_join(views(first@), views(second@));
}

/// The conversation of a log of one entry.
pub proof fn single_entries_are_told(log: Vec<Event>, told: Vec<ModelMessage>)
    requires
        call_ensures(model_history, (&log,), told),
        log@.len() == 1,
    ensures
        match log@[0]@ {
            EventView::Message { text, .. } => views(told@) == seq![
                ModelMessageView::User { content: text },
            ],
            EventView::AssistantMessage { text, tool_calls, .. } => views(told@) == seq![
                ModelMessageView::Assistant { content: text, tool_calls },
            ],
            EventView::ToolCallCompleted { result, .. } => views(told@) == seq![
                ModelMessageView::Tool(result),
            ],
            _ => told@.len() == 0,
        },
{
    every_turn_is_remembered(log@[0]@);
    assert(views(log@) =~= seq![log@[0]@]);
    assert(views(told@).len() == told@.len());
}

/// A session goes from step to step as its model does.
pub proof fn sessions_follow_their_model(
    session: &mut Session,
    input: SessionInput,
    now: u64,
    r: Vec<SessionAction>,
)
    requires
        old(session)@.log.len() + 1 < u64::MAX,
        call_ensures(Session::step, (session, input, now), r),
    ensures
        (final(session)@, views(r@)) == old(session)@.step(input@, now),
{
}

/// A log is read back as it was written: accepted exactly if every line decoded, belongs to the
/// session and carries its own number, and then with every entry in its place.
pub proof fn logs_are_read_back(
    session_id: &str,
    entries: Vec<Result<Event, String>>,
    r: Result<Vec<Event>, SessionError>,
)
    requires
        entries@.len() < u64::MAX,
        call_ensures(load_events, (session_id, entries), r),
    ensures
        r is Ok <==> forall|i: int|
            0 <= i < entries@.len() ==> ((#[trigger] entries@[i]) matches Ok(event)
                && event@.session_id() == session_id@ && event@.sequence() == i + 1),
        r matches Ok(events) ==> events@.len() == entries@.len() && forall|i: int|
            0 <= i < entries@.len() ==> (entries@[i] matches Ok(event) && (
            #[trigger] events@[i])@ == event@),
{
    let good = |i: int|
        entries@[i] matches Ok(event) && event@.session_id() == session_id@ && event@.sequence()
            == i + 1;
    assert forall|i: int| 0 <= i < entries@.len() implies (#[trigger] line_fault(
        session_id@,
        i,
        entries@[i],
    ) is None <==> good(i)) by {}
    if r is Ok {
        assert forall|i: int| 0 <= i < entries@.len() implies ((#[trigger] entries@[i]) matches Ok(
            event,
        ) && event@.session_id() == session_id@ && event@.sequence() == i + 1) by {
            assert(line_fault(session_id@, i, entries@[i]) is None);
        }
        let events = r->Ok_0;
        assert(views(events@).len() == events@.len());
        assert forall|i: int| 0 <= i < entries@.len() implies (entries@[i] matches Ok(event) && (
        #[trigger] events@[i])@ == event@) by {
            assert(line_fault(session_id@, i, entries@[i]) is None);
            assert(views(events@)[i] == decoded(entries@)[i]);
        }
    } else {
        let k = choose|k: int|
            0 <= k < entries@.len() && #[trigger] line_fault(session_id@, k, entries@[k]) is Some;
        assert(!good(k));
    }
}

/// What the agent reports is recorded with all it says, for the run and the session it belongs
/// to.
pub proof fn reports_become_entries(
    session_id: &str,
    run_id: String,
    event: AgentEvent,
    sequence: u64,
    now: u64,
    r: Event,
)
    requires
        call_ensures(protocol_event, (session_id, run_id, event, sequence, now), r),
    ensures
        r@.session_id() == session_id@,
        r@.sequence() == sequence,
        event@ matches AgentEventView::AssistantTextDelta(said) ==> (
        r@ matches EventView::AssistantTextDelta { run_id: run, text, created_at_ms, .. } && run
            == run_id@ && text == said && created_at_ms == now),
        event@ matches AgentEventView::AssistantMessage { text: said, tool_calls: calls } ==> (
        r@ matches EventView::AssistantMessage { run_id: run, text, tool_calls, .. } && run
            == run_id@ && text == said && tool_calls == calls),
        event@ matches AgentEventView::ToolCallStarted(asked) ==> (
        r@ matches EventView::ToolCallStarted { run_id: run, call, .. } && run == run_id@ && call
            == asked),
        event@ matches AgentEventView::ToolCallCompleted(outcome) ==> (
        r@ matches EventView::ToolCallCompleted { run_id: run, result, .. } && run == run_id@
            && result == outcome),
        event@ is Completed ==> (r@ matches EventView::RunCompleted { run_id: run, .. } && run
            == run_id@),
        event@ matches AgentEventView::Failed(why) ==> (
        r@ matches EventView::RunFailed { run_id: run, error, .. } && run == run_id@ && error
            == why),
{
}

/// Runs are told apart by their ids: the id of a run names the time it began and the message that
/// it answers.
pub proof fn runs_are_told_apart(now: u64, sequence: u64, then: u64, other: u64)
    requires
        run_id_for(now, sequence) == run_id_for(then, other),
    ensures
        now == then,
        sequence == other,
{
    reveal_strlit("run-");
    reveal_strlit("-");
    let a = decimal(now as nat);
    let b = decimal(then as nat);
    let c = decimal(sequence as nat);
    let d = decimal(other as nat);
    decimals_are_read_back(now as nat);
    decimals_are_read_back(then as nat);
    decimals_are_read_back(sequence as nat);
    decimals_are_read_back(other as nat);
    let id = run_id_for(now, sequence);
    let size = a.len() as int;
    let wide = b.len() as int;
    assert(id[4 + size] == '-');
    assert(id[4 + wide] == '-');
    if a.len() < b.len() {
        assert(id[4 + size] == b[size]);
    } else if b.len() < a.len() {
        assert(id[4 + wide] == a[wide]);
    }
    assert(id.subrange(4, 4 + size) =~= a);
    assert(id.subrange(4, 4 + size) =~= b);
    assert(id.skip(5 + size) =~= c);
    assert(id.skip(5 + size) =~= d);
}

/// A session without an agent records a message just as it was sent, tells it to every subscriber
/// and accepts it.
pub proof fn messages_are_recorded_without_an_agent(
    s: SessionView,
    pending: PendingMessageView,
    now: u64,
    later: u64,
)
    requires
        s.phase is Ready,
        s.active_run is None,
        !s.has_agent,
        s.log.len() + 1 < u64::MAX,
    ensures
        ({
            let (saving, asked) = s.step(SessionInputView::AppendMessage(pending), now);
            let (done, told) = saving.step(SessionInputView::Saved(None), later);
            let message = EventView::Message {
                session_id: s.session_id,
                sequence: (s.log.len() + 1) as u64,
                client_id: pending.client_id,
                model: pending.model,
                text: pending.text,
                created_at_ms: now,
            };
            &&& asked == seq![SessionActionView::Save(message)]
            &&& told == seq![
                SessionActionView::Broadcast(message),
                SessionActionView::Accept(message),
            ]
            &&& done.log == s.log.push(message)
            &&& done.phase is Ready
            &&& done.active_run is None
        }),
{
}

} // verus!
