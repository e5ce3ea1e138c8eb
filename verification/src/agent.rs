//! The agent loop: inference rounds, tool calls and the report of a run.
//!
//! [`AgentRun::step`] decides; the caller talks to the provider, runs tools and
//! passes the report on.

use crate::protocol::{
    ModelMessage, ModelMessageView, ModelRef, ModelRefView, ReasoningEffort, ToolCall, ToolCallView,
    ToolResult, ToolResultView,
};
use crate::session::{is_terminal, AgentEvent, AgentEventView, AgentRequest, AgentRequestView};
use crate::text::{concat3, decimal, decimal_text, opt_texts, same, views, Text};
use crate::tools::{
    call_result, tool_result, unknown_tool, unknown_tool_text, ToolDefinition, ToolDefinitionView,
};
use vstd::prelude::*;

verus! {

/// How many inference rounds in a row may end in tool calls.
pub const MAX_TOOL_ROUNDS: u64 = 16;

/// The content of an [`InferenceRequest`].
#[verifier::ext_equal]
pub struct InferenceRequestView {
    pub model: ModelRefView,
    pub reasoning_effort: Option<ReasoningEffort>,
    pub messages: Seq<ModelMessageView>,
    pub tools: Seq<ToolDefinitionView>,
}

/// One round of inference as a provider is asked for it.
#[derive(Debug, Eq, PartialEq)]
pub struct InferenceRequest {
    pub model: ModelRef,
    pub reasoning_effort: Option<ReasoningEffort>,
    pub messages: Vec<ModelMessage>,
    pub tools: Vec<ToolDefinition>,
}

impl View for InferenceRequest {
    type V = InferenceRequestView;

    open spec fn view(&self) -> InferenceRequestView {
        InferenceRequestView {
            model: self.model@,
            reasoning_effort: self.reasoning_effort,
            messages: views(self.messages@),
            tools: views(self.tools@),
        }
    }
}

impl Clone for InferenceRequest {
    fn clone(&self) -> (r: Self)
        ensures
            r@ == self@,
    {
        let r = InferenceRequest {
            model: self.model.clone(),
            reasoning_effort: self.reasoning_effort,
            messages: self.messages.clone(),
            tools: self.tools.clone(),
        };
        assert(r@ =~~= self@);
        r
    }
}

/// The content of a [`ProviderEvent`].
#[verifier::ext_equal]
pub enum ProviderEventView {
    TextDelta(Text),
    ToolCall(ToolCallView),
    Completed,
}

/// What a provider reports during a round.
#[derive(Debug, Eq, PartialEq)]
pub enum ProviderEvent {
    TextDelta(String),
    ToolCall(ToolCall),
    Completed,
}

impl View for ProviderEvent {
    type V = ProviderEventView;

    open spec fn view(&self) -> ProviderEventView {
        match self {
            ProviderEvent::TextDelta(item) => ProviderEventView::TextDelta(item@),
            ProviderEvent::ToolCall(item) => ProviderEventView::ToolCall(item@),
            ProviderEvent::Completed => ProviderEventView::Completed,
        }
    }
}

impl Clone for ProviderEvent {
    fn clone(&self) -> (r: Self)
        ensures
            r@ == self@,
    {
        let r = match self {
            ProviderEvent::TextDelta(item) => ProviderEvent::TextDelta(item.clone()),
            ProviderEvent::ToolCall(item) => ProviderEvent::ToolCall(item.clone()),
            ProviderEvent::Completed => ProviderEvent::Completed,
        };
        assert(r@ =~~= self@);
        r
    }
}

/// The content of an [`AgentInput`].
#[verifier::ext_equal]
pub enum AgentInputView {
    Provider(ProviderEventView),
    ProviderFailed(Text),
    ProviderEnded,
    ToolFinished(ToolResultView),
}

/// What reaches a run: an event of the provider, its failure, the end of its
/// stream, or the result of the tool call that was asked for.
#[derive(Debug, Eq, PartialEq)]
pub enum AgentInput {
    Provider(ProviderEvent),
    ProviderFailed(String),
    ProviderEnded,
    ToolFinished(ToolResult),
}

impl View for AgentInput {
    type V = AgentInputView;

    open spec fn view(&self) -> AgentInputView {
        match self {
            AgentInput::Provider(item) => AgentInputView::Provider(item@),
            AgentInput::ProviderFailed(item) => AgentInputView::ProviderFailed(item@),
            AgentInput::ProviderEnded => AgentInputView::ProviderEnded,
            AgentInput::ToolFinished(item) => AgentInputView::ToolFinished(item@),
        }
    }
}

impl Clone for AgentInput {
    fn clone(&self) -> (r: Self)
        ensures
            r@ == self@,
    {
        let r = match self {
            AgentInput::Provider(item) => AgentInput::Provider(item.clone()),
            AgentInput::ProviderFailed(item) => AgentInput::ProviderFailed(item.clone()),
            AgentInput::ProviderEnded => AgentInput::ProviderEnded,
            AgentInput::ToolFinished(item) => AgentInput::ToolFinished(item.clone()),
        };
        assert(r@ =~~= self@);
        r
    }
}

/// The content of an [`AgentAction`].
#[verifier::ext_equal]
pub enum AgentActionView {
    Report(AgentEventView),
    Infer(InferenceRequestView),
    Execute(ToolCallView),
    Answer(ToolResultView),
}

/// What a run asks of its surroundings. `Answer` stands in for the execution
/// of a tool that is not available: the result is handed back as it is.
#[derive(Debug, Eq, PartialEq)]
pub enum AgentAction {
    Report(AgentEvent),
    Infer(InferenceRequest),
    Execute(ToolCall),
    Answer(ToolResult),
}

impl View for AgentAction {
    type V = AgentActionView;

    open spec fn view(&self) -> AgentActionView {
        match self {
            AgentAction::Report(item) => AgentActionView::Report(item@),
            AgentAction::Infer(item) => AgentActionView::Infer(item@),
            AgentAction::Execute(item) => AgentActionView::Execute(item@),
            AgentAction::Answer(item) => AgentActionView::Answer(item@),
        }
    }
}

impl Clone for AgentAction {
    fn clone(&self) -> (r: Self)
        ensures
            r@ == self@,
    {
        let r = match self {
            AgentAction::Report(item) => AgentAction::Report(item.clone()),
            AgentAction::Infer(item) => AgentAction::Infer(item.clone()),
            AgentAction::Execute(item) => AgentAction::Execute(item.clone()),
            AgentAction::Answer(item) => AgentAction::Answer(item.clone()),
        };
        assert(r@ =~~= self@);
        r
    }
}

/// The content of an [`AgentPhase`].
#[verifier::ext_equal]
pub enum AgentPhaseView {
    Inferring { text: Text, tool_calls: Seq<ToolCallView> },
    Working { queue: Seq<ToolCallView> },
    Done,
}

/// What a run is doing. `queue` holds the calls that still wait behind the one
/// being executed.
#[derive(Debug, Eq, PartialEq)]
pub enum AgentPhase {
    Inferring { text: String, tool_calls: Vec<ToolCall> },
    Working { queue: Vec<ToolCall> },
    Done,
}

impl View for AgentPhase {
    type V = AgentPhaseView;

    open spec fn view(&self) -> AgentPhaseView {
        match self {
            AgentPhase::Inferring { text, tool_calls } => AgentPhaseView::Inferring {
                text: text@,
                tool_calls: views(tool_calls@),
            },
            AgentPhase::Working { queue } => AgentPhaseView::Working {
                queue: views(queue@),
            },
            AgentPhase::Done => AgentPhaseView::Done,
        }
    }
}

impl Clone for AgentPhase {
    fn clone(&self) -> (r: Self)
        ensures
            r@ == self@,
    {
        let r = match self {
            AgentPhase::Inferring { text, tool_calls } => AgentPhase::Inferring {
                text: text.clone(),
                tool_calls: tool_calls.clone(),
            },
            AgentPhase::Working { queue } => AgentPhase::Working {
                queue: queue.clone(),
            },
            AgentPhase::Done => AgentPhase::Done,
        };
        assert(r@ =~~= self@);
        r
    }
}

/// The content of an [`AgentRun`].
#[verifier::ext_equal]
pub struct AgentRunView {
    pub request: AgentRequestView,
    pub tools: Seq<ToolDefinitionView>,
    pub rounds: u64,
    pub phase: AgentPhaseView,
}

/// The state of one run. `rounds` counts the inference rounds begun.
#[derive(Debug)]
pub struct AgentRun {
    pub request: AgentRequest,
    pub tools: Vec<ToolDefinition>,
    pub rounds: u64,
    pub phase: AgentPhase,
}

impl View for AgentRun {
    type V = AgentRunView;

    open spec fn view(&self) -> AgentRunView {
        AgentRunView {
            request: self.request@,
            tools: views(self.tools@),
            rounds: self.rounds,
            phase: self.phase@,
        }
    }
}

/// Whether a scope admits a tool. No scope, or an empty one, admits every tool.
pub open spec fn in_scope(allowed: Option<Seq<Text>>, name: Text) -> bool {
    match allowed {
        Some(names) => names.len() == 0 || names.contains(name),
        None => true,
    }
}

pub fn scope_admits(allowed: &Option<Vec<String>>, name: &str) -> (r: bool)
    ensures
        r == in_scope(opt_texts(*allowed), name@),
{
    match allowed {
        None => true,
        Some(names) => {
            if names.len() == 0 {
                return true;
            }
            let mut i: usize = 0;
            while i < names.len()
                invariant
                    i <= names@.len(),
                    opt_texts(*allowed) == Some(views(names@)),
                    forall|k: int| 0 <= k < i ==> #[trigger] views(names@)[k] != name@,
                decreases names@.len() - i,
            {
                if same(&names[i], name) {
                    assert(views(names@)[i as int] == name@);
                    assert(views(names@).contains(name@));
                    return true;
                }
                i += 1;
            }
            false
        },
    }
}

/// The definitions that a scope admits, in order.
pub open spec fn scoped(definitions: Seq<ToolDefinitionView>, allowed: Option<Seq<Text>>) -> Seq<
    ToolDefinitionView,
> {
    definitions.filter(|tool: ToolDefinitionView| in_scope(allowed, tool.name))
}

/// The definitions that a scope admits, in order.
pub fn scoped_tools(definitions: &Vec<ToolDefinition>, allowed: &Option<Vec<String>>) -> (r: Vec<
    ToolDefinition,
>)
    ensures
        views(r@) == scoped(views(definitions@), opt_texts(*allowed)),
{
    let ghost scope = opt_texts(*allowed);
    let ghost keep = |tool: ToolDefinitionView| in_scope(scope, tool.name);
    let mut out: Vec<ToolDefinition> = Vec::new();
    let mut i: usize = 0;
    let ghost all = views(definitions@);
    proof {
        reveal(Seq::filter);
        assert(all.take(0) =~= seq![]);
        assert(views(out@) =~= all.take(0).filter(keep));
    }
    while i < definitions.len()
        invariant
            i <= definitions@.len(),
            all == views(definitions@),
            scope == opt_texts(*allowed),
            keep == (|tool: ToolDefinitionView| in_scope(scope, tool.name)),
            views(out@) == all.take(i as int).filter(keep),
        decreases definitions@.len() - i,
    {
        let ghost before = out@;
        proof {
            reveal(Seq::filter);
            assert(all.take(i as int + 1).drop_last() =~= all.take(i as int));
            assert(all.take(i as int + 1).last() == definitions@[i as int]@);
        }
        if scope_admits(allowed, &definitions[i].name) {
            out.push(definitions[i].clone());
            assert(views(out@) =~= views(before).push(definitions@[i as int]@));
        }
        i += 1;
    }
    assert(all.take(definitions@.len() as int) =~= all);
    out
}

/// What a run reports when it does not come to an end on its own.
pub open spec fn too_many_rounds() -> Text {
    "agent exceeded the limit of "@ + decimal(MAX_TOOL_ROUNDS as nat)
        + " consecutive tool rounds"@
}

impl AgentRunView {
    /// The round of inference that a run asks for next.
    pub open spec fn inference(self) -> InferenceRequestView {
        InferenceRequestView {
            model: self.request.model,
            reasoning_effort: self.request.reasoning_effort,
            messages: self.request.messages,
            tools: self.tools,
        }
    }

    pub open spec fn heard(self, message: ModelMessageView) -> AgentRunView {
        AgentRunView {
            request: AgentRequestView {
                messages: self.request.messages.push(message),
                ..self.request
            },
            ..self
        }
    }

    pub open spec fn doing(self, phase: AgentPhaseView) -> AgentRunView {
        AgentRunView { phase, ..self }
    }

    /// A run that reports its failure and stops.
    pub open spec fn failed(self, error: Text) -> (AgentRunView, Seq<AgentActionView>) {
        (
            self.doing(AgentPhaseView::Done),
            seq![AgentActionView::Report(AgentEventView::Failed(error))],
        )
    }

    /// Begins the next round, unless the limit is reached.
    pub open spec fn next_round(self) -> (AgentRunView, Seq<AgentActionView>) {
        if self.rounds < MAX_TOOL_ROUNDS {
            let next = AgentRunView { rounds: (self.rounds + 1) as u64, ..self }.doing(
                AgentPhaseView::Inferring { text: seq![], tool_calls: seq![] },
            );
            (next, seq![AgentActionView::Infer(next.inference())])
        } else {
            self.failed(too_many_rounds())
        }
    }

    /// Begins the first call of a queue, or the next round when it is empty. A
    /// tool outside the scope of the run is answered like an unknown one.
    pub open spec fn next_call(self, queue: Seq<ToolCallView>) -> (
        AgentRunView,
        Seq<AgentActionView>,
    ) {
        if queue.len() == 0 {
            self.next_round()
        } else {
            let call = queue[0];
            (
                self.doing(AgentPhaseView::Working { queue: queue.drop_first() }),
                seq![
                    AgentActionView::Report(AgentEventView::ToolCallStarted(call)),
                    if in_scope(self.request.allowed_tools, call.name) {
                        AgentActionView::Execute(call)
                    } else {
                        AgentActionView::Answer(
                            call_result(call.id, Err(unknown_tool(call.name))),
                        )
                    },
                ],
            )
        }
    }

    /// The transition of a run on one input: the next state and the actions
    /// asked for, in order. An input that the run does not wait for changes
    /// nothing.
    pub open spec fn step(self, input: AgentInputView) -> (AgentRunView, Seq<AgentActionView>) {
        match (self.phase, input) {
            (AgentPhaseView::Inferring { text, tool_calls }, AgentInputView::Provider(event)) => match event {
                ProviderEventView::TextDelta(delta) => (
                    self.doing(AgentPhaseView::Inferring { text: text + delta, tool_calls }),
                    seq![AgentActionView::Report(AgentEventView::AssistantTextDelta(delta))],
                ),
                ProviderEventView::ToolCall(call) => (
                    self.doing(
                        AgentPhaseView::Inferring { text, tool_calls: tool_calls.push(call) },
                    ),
                    seq![],
                ),
                ProviderEventView::Completed => {
                    let said = AgentActionView::Report(
                        AgentEventView::AssistantMessage { text, tool_calls },
                    );
                    let next = self.heard(
                        ModelMessageView::Assistant { content: text, tool_calls },
                    );
                    if tool_calls.len() == 0 {
                        (
                            next.doing(AgentPhaseView::Done),
                            seq![said, AgentActionView::Report(AgentEventView::Completed)],
                        )
                    } else {
                        let (working, actions) = next.next_call(tool_calls);
                        (working, seq![said] + actions)
                    }
                },
            },
            (AgentPhaseView::Inferring { .. }, AgentInputView::ProviderFailed(error)) => self.failed(error),
            (AgentPhaseView::Inferring { .. }, AgentInputView::ProviderEnded) => self.failed(
                "provider stream ended before completing the response"@,
            ),
            (AgentPhaseView::Working { queue }, AgentInputView::ToolFinished(result)) => {
                let (next, actions) = self.heard(ModelMessageView::Tool(result)).next_call(queue);
                (
                    next,
                    seq![AgentActionView::Report(AgentEventView::ToolCallCompleted(result))]
                        + actions,
                )
            },
            _ => (self, seq![]),
        }
    }
}

/// A run at its beginning, and its first round of inference.
pub open spec fn started(request: AgentRequestView, definitions: Seq<ToolDefinitionView>) -> (
    AgentRunView,
    Seq<AgentActionView>,
) {
    AgentRunView {
        request,
        tools: scoped(definitions, request.allowed_tools),
        rounds: 0,
        phase: AgentPhaseView::Done,
    }.next_round()
}

impl AgentRun {
    /// Begins a run. The tools offered to the model are those of `definitions`
    /// that the request's scope admits.
    pub fn start(request: AgentRequest, definitions: &Vec<ToolDefinition>) -> (r: (
        AgentRun,
        Vec<AgentAction>,
    ))
        ensures
            (r.0@, views(r.1@)) == started(request@, views(definitions@)),
    {
        let tools = scoped_tools(definitions, &request.allowed_tools);
        let mut run = AgentRun { request, tools, rounds: 0, phase: AgentPhase::Done };
        let mut actions: Vec<AgentAction> = Vec::new();
        run.begin_round(&mut actions);
        assert(views(actions@) =~= started(request@, views(definitions@)).1);
        (run, actions)
    }

    fn fail(&mut self, error: String, actions: &mut Vec<AgentAction>)
        ensures
            final(self)@ == old(self)@.failed(error@).0,
            views(final(actions)@) == views(old(actions)@) + old(self)@.failed(error@).1,
    {
        self.phase = AgentPhase::Done;
        actions.push(AgentAction::Report(AgentEvent::Failed(error)));
        assert(views(actions@) =~= views(old(actions)@) + old(self)@.failed(error@).1);
    }

    fn begin_round(&mut self, actions: &mut Vec<AgentAction>)
        ensures
            final(self)@ == old(self)@.next_round().0,
            views(final(actions)@) == views(old(actions)@) + old(self)@.next_round().1,
    {
        if self.rounds < MAX_TOOL_ROUNDS {
            self.rounds = self.rounds + 1;
            let calls: Vec<ToolCall> = Vec::new();
            assert(views(calls@) =~= seq![]);
            self.phase = AgentPhase::Inferring { text: String::new(), tool_calls: calls };
            let messages = self.request.messages.clone();
            assert(views(messages@) =~= views(self.request.messages@));
            let tools = self.tools.clone();
            assert(views(tools@) =~= views(self.tools@));
            actions.push(
                AgentAction::Infer(
                    InferenceRequest {
                        model: self.request.model.clone(),
                        reasoning_effort: self.request.reasoning_effort,
                        messages,
                        tools,
                    },
                ),
            );
            assert(views(actions@) =~= views(old(actions)@) + old(self)@.next_round().1);
        } else {
            let error = concat3(
                "agent exceeded the limit of ",
                &decimal_text(MAX_TOOL_ROUNDS),
                " consecutive tool rounds",
            );
            self.fail(error, actions);
        }
    }

    fn begin_call(&mut self, queue: Vec<ToolCall>, actions: &mut Vec<AgentAction>)
        ensures
            final(self)@ == old(self)@.next_call(views(queue@)).0,
            views(final(actions)@) == views(old(actions)@) + old(self)@.next_call(views(queue@)).1,
    {
        if queue.len() == 0 {
            self.begin_round(actions);
        } else {
            let ghost whole = views(queue@);
            let mut queue = queue;
            let call = queue.remove(0);
            assert(views(queue@) =~= whole.drop_first());
            assert(call@ == whole[0]);
            let available = scope_admits(&self.request.allowed_tools, &call.name);
            actions.push(AgentAction::Report(AgentEvent::ToolCallStarted(call.clone())));
            if available {
                actions.push(AgentAction::Execute(call));
            } else {
                let error = unknown_tool_text(&call.name);
                actions.push(AgentAction::Answer(tool_result(call.id, Err(error))));
            }
            self.phase = AgentPhase::Working { queue };
            assert(views(actions@) =~= views(old(actions)@) + old(self)@.next_call(whole).1);
        }
    }

    /// Takes one input and returns the actions it asks for, in order.
    pub fn step(&mut self, input: AgentInput) -> (r: Vec<AgentAction>)
        ensures
            old(self)@.step(input@) == (final(self)@, views(r@)),
    {
        let ghost start = self@;
        let mut phase = AgentPhase::Done;
        core::mem::swap(&mut self.phase, &mut phase);
        let mut actions: Vec<AgentAction> = Vec::new();
        match (phase, input) {
            (AgentPhase::Inferring { text, tool_calls }, AgentInput::Provider(event)) => match event {
                ProviderEvent::TextDelta(delta) => {
                    let mut text = text;
                    text.push_str(&delta);
                    self.phase = AgentPhase::Inferring { text, tool_calls };
                    actions.push(AgentAction::Report(AgentEvent::AssistantTextDelta(delta)));
                },
                ProviderEvent::ToolCall(call) => {
                    let ghost before = tool_calls@;
                    let mut tool_calls = tool_calls;
                    tool_calls.push(call);
                    assert(views(tool_calls@) =~= views(before).push(call@));
                    self.phase = AgentPhase::Inferring { text, tool_calls };
                },
                ProviderEvent::Completed => {
                    let ghost before = self.request.messages@;
                    let said = tool_calls.clone();
                    let heard = tool_calls.clone();
                    assert(views(said@) =~= views(tool_calls@));
                    assert(views(heard@) =~= views(tool_calls@));
                    actions.push(
                        AgentAction::Report(
                            AgentEvent::AssistantMessage { text: text.clone(), tool_calls: said },
                        ),
                    );
                    self.request.messages.push(
                        ModelMessage::Assistant { content: text, tool_calls: heard },
                    );
                    assert(views(self.request.messages@) =~= views(before).push(
                        ModelMessageView::Assistant {
                            content: text@,
                            tool_calls: views(tool_calls@),
                        },
                    ));
                    if tool_calls.len() == 0 {
                        actions.push(AgentAction::Report(AgentEvent::Completed));
                    } else {
                        self.begin_call(tool_calls, &mut actions);
                    }
                },
            },
            (AgentPhase::Inferring { .. }, AgentInput::ProviderFailed(error)) => {
                self.fail(error, &mut actions);
            },
            (AgentPhase::Inferring { .. }, AgentInput::ProviderEnded) => {
                self.fail(
                    "provider stream ended before completing the response".to_owned(),
                    &mut actions,
                );
            },
            (AgentPhase::Working { queue }, AgentInput::ToolFinished(result)) => {
                let ghost before = self.request.messages@;
                self.request.messages.push(ModelMessage::Tool(result.clone()));
                assert(views(self.request.messages@) =~= views(before).push(
                    ModelMessageView::Tool(result@),
                ));
                actions.push(AgentAction::Report(AgentEvent::ToolCallCompleted(result)));
                self.begin_call(queue, &mut actions);
            },
            (phase, _) => {
                self.phase = phase;
            },
        }
        assert(views(actions@) =~= start.step(input@).1);
        actions
    }
}

impl AgentRunView {
    /// What every reachable run keeps: the round limit, and tools inside the
    /// scope of its request.
    pub open spec fn well_formed(self) -> bool {
        &&& self.rounds <= MAX_TOOL_ROUNDS
        &&& forall|i: int|
            0 <= i < self.tools.len() ==> in_scope(
                self.request.allowed_tools,
                (#[trigger] self.tools[i]).name,
            )
    }
}

/// Whether an action asks for a round of inference.
pub open spec fn is_inference(action: AgentActionView) -> bool {
    action is Infer
}

/// Whether an action reports the end of the run.
pub open spec fn is_ending(action: AgentActionView) -> bool {
    action matches AgentActionView::Report(event) && is_terminal(event)
}

/// How many of `actions` satisfy `kind`.
pub open spec fn count(actions: Seq<AgentActionView>, kind: spec_fn(AgentActionView) -> bool) -> nat
    decreases actions.len(),
{
    if actions.len() == 0 {
        0
    } else {
        count(actions.drop_last(), kind) + if kind(actions.last()) {
            1nat
        } else {
            0nat
        }
    }
}

/// The text streamed since the last round began.
pub open spec fn draft(actions: Seq<AgentActionView>) -> Text
    decreases actions.len(),
{
    if actions.len() == 0 {
        seq![]
    } else {
        match actions.last() {
            AgentActionView::Infer(_) => seq![],
            AgentActionView::Report(AgentEventView::AssistantTextDelta(delta)) => draft(
                actions.drop_last(),
            ) + delta,
            _ => draft(actions.drop_last()),
        }
    }
}

/// The state and all actions of a run after a sequence of inputs.
pub open spec fn run_trace(
    request: AgentRequestView,
    definitions: Seq<ToolDefinitionView>,
    inputs: Seq<AgentInputView>,
) -> (AgentRunView, Seq<AgentActionView>)
    decreases inputs.len(),
{
    if inputs.len() == 0 {
        started(request, definitions)
    } else {
        let (before, actions) = run_trace(request, definitions, inputs.drop_last());
        let (after, more) = before.step(inputs.last());
        (after, actions + more)
    }
}

proof fn count_concat(
    a: Seq<AgentActionView>,
    b: Seq<AgentActionView>,
    kind: spec_fn(AgentActionView) -> bool,
)
    ensures
        count(a + b, kind) == count(a, kind) + count(b, kind),
    decreases b.len(),
{
    if b.len() == 0 {
        assert(a + b =~= a);
    } else {
        count_concat(a, b.drop_last(), kind);
        assert((a + b).drop_last() =~= a + b.drop_last());
    }
}

/// One step keeps the state well formed, asks for at most one round and
/// counts it, and reports the end exactly when it stops.
proof fn step_facts(s: AgentRunView, input: AgentInputView)
    requires
        s.well_formed(),
    ensures
        ({
            let (next, actions) = s.step(input);
            &&& next.well_formed()
            &&& next.request.allowed_tools == s.request.allowed_tools
            &&& next.tools == s.tools
            &&& count(actions, |a: AgentActionView| is_inference(a)) == next.rounds - s.rounds
            &&& count(actions, |a: AgentActionView| is_ending(a)) == if next.phase is Done
                && !(s.phase is Done) {
                1nat
            } else {
                0nat
            }
            &&& s.phase is Done ==> next == s && actions.len() == 0
        }),
{
    let (next, actions) = s.step(input);
    let inference = |a: AgentActionView| is_inference(a);
    let ending = |a: AgentActionView| is_ending(a);
    reveal_with_fuel(count, 4);
    match (s.phase, input) {
        (AgentPhaseView::Inferring { text, tool_calls }, AgentInputView::Provider(event)) => match event {
            ProviderEventView::Completed => {
                let said = AgentActionView::Report(
                    AgentEventView::AssistantMessage { text, tool_calls },
                );
                let heard = s.heard(ModelMessageView::Assistant { content: text, tool_calls });
                if tool_calls.len() > 0 {
                    let tail = heard.next_call(tool_calls).1;
                    count_concat(seq![said], tail, inference);
                    count_concat(seq![said], tail, ending);
                }
            },
            _ => {},
        },
        (AgentPhaseView::Working { queue }, AgentInputView::ToolFinished(result)) => {
            let told = AgentActionView::Report(AgentEventView::ToolCallCompleted(result));
            let tail = s.heard(ModelMessageView::Tool(result)).next_call(queue).1;
            count_concat(seq![told], tail, inference);
            count_concat(seq![told], tail, ending);
        },
        _ => {},
    }
}

/// Over a whole run, whatever the provider and the tools do: at most
/// `MAX_TOOL_ROUNDS` rounds of inference are asked for, and the end is reported
/// exactly once, when the run stops, and never before.
pub proof fn a_run_ends_once_within_the_round_limit(
    request: AgentRequestView,
    definitions: Seq<ToolDefinitionView>,
    inputs: Seq<AgentInputView>,
)
    ensures
        ({
            let (state, actions) = run_trace(request, definitions, inputs);
            &&& state.well_formed()
            &&& state.request.allowed_tools == request.allowed_tools
            &&& state.tools == scoped(definitions, request.allowed_tools)
            &&& count(actions, |a: AgentActionView| is_inference(a)) == state.rounds
            &&& state.rounds <= MAX_TOOL_ROUNDS
            &&& count(actions, |a: AgentActionView| is_ending(a)) == if state.phase is Done {
                1nat
            } else {
                0nat
            }
        }),
    decreases inputs.len(),
{
    let inference = |a: AgentActionView| is_inference(a);
    let ending = |a: AgentActionView| is_ending(a);
    if inputs.len() == 0 {
        reveal_with_fuel(count, 2);
        let keep = |tool: ToolDefinitionView| in_scope(request.allowed_tools, tool.name);
        let (state, actions) = started(request, definitions);
        assert forall|i: int| 0 <= i < state.tools.len() implies in_scope(
            request.allowed_tools,
            (#[trigger] state.tools[i]).name,
        ) by {
            definitions.lemma_filter_pred(keep, i);
        }
        assert(actions.drop_last() =~= seq![]);
    } else {
        a_run_ends_once_within_the_round_limit(request, definitions, inputs.drop_last());
        let (before, actions) = run_trace(request, definitions, inputs.drop_last());
        let more = before.step(inputs.last()).1;
        step_facts(before, inputs.last());
        count_concat(actions, more, inference);
        count_concat(actions, more, ending);
        if before.phase is Done {
            assert(actions + more =~= actions);
        }
    }
}

/// A run never asks for the execution of a tool outside the scope of its
/// request, and never offers one to the model.
pub proof fn a_run_stays_in_scope(s: AgentRunView, input: AgentInputView, i: int)
    requires
        s.well_formed(),
        0 <= i < s.step(input).1.len(),
    ensures
        s.step(input).1[i] matches AgentActionView::Execute(call) ==> in_scope(
            s.request.allowed_tools,
            call.name,
        ),
        s.step(input).1[i] matches AgentActionView::Infer(inference) ==> inference.tools == s.tools,
{
}

/// The message that closes a round holds exactly the text that was streamed
/// during it.
pub proof fn the_message_is_what_was_streamed(
    request: AgentRequestView,
    definitions: Seq<ToolDefinitionView>,
    inputs: Seq<AgentInputView>,
)
    ensures
        ({
            let (state, actions) = run_trace(request, definitions, inputs);
            state.phase matches AgentPhaseView::Inferring { text, .. } ==> text == draft(actions)
                && state.step(AgentInputView::Provider(ProviderEventView::Completed)).1[0]
                == AgentActionView::Report(
                AgentEventView::AssistantMessage {
                    text: draft(actions),
                    tool_calls: state.phase->Inferring_tool_calls,
                },
            )
        }),
    decreases inputs.len(),
{
    reveal_with_fuel(draft, 2);
    if inputs.len() > 0 {
        the_message_is_what_was_streamed(request, definitions, inputs.drop_last());
        let (before, actions) = run_trace(request, definitions, inputs.drop_last());
        let more = before.step(inputs.last()).1;
        let all = actions + more;
        if more.len() == 0 {
            assert(all =~= actions);
        } else {
            assert(all.last() == more.last());
            if more.len() == 1 {
                assert(all.drop_last() =~= actions);
            }
        }
    }
}

/// The state and all actions of a run that takes some inputs from `s` on.
pub open spec fn steps(s: AgentRunView, inputs: Seq<AgentInputView>) -> (
    AgentRunView,
    Seq<AgentActionView>,
)
    decreases inputs.len(),
{
    if inputs.len() == 0 {
        (s, seq![])
    } else {
        let (before, actions) = steps(s, inputs.drop_last());
        let (after, more) = before.step(inputs.last());
        (after, actions + more)
    }
}

/// The inputs of a round that completes, and of the tools that then finish.
pub open spec fn completion_and_results(results: Seq<ToolResultView>) -> Seq<AgentInputView> {
    seq![AgentInputView::Provider(ProviderEventView::Completed)] + results.map_values(
        |result: ToolResultView| AgentInputView::ToolFinished(result),
    )
}

/// Whether an action carries out a call: it is executed, or, where the scope
/// names other tools only, answered with an error.
pub open spec fn carries_out(
    action: AgentActionView,
    call: ToolCallView,
    allowed: Option<Seq<Text>>,
) -> bool {
    if allowed matches Some(names) && names.len() > 0 && !names.contains(call.name) {
        action matches AgentActionView::Answer(result) && result.tool_call_id == call.id
            && result.is_error
    } else {
        action == AgentActionView::Execute(call)
    }
}

/// Whether the actions of a round that ended in `calls`, after some results, are
/// these: the message, and then for each call its start and its work, one call
/// after the other, each but the first behind the result of the one before.
pub open spec fn works_through(
    actions: Seq<AgentActionView>,
    text: Text,
    calls: Seq<ToolCallView>,
    results: Seq<ToolResultView>,
    allowed: Option<Seq<Text>>,
    count: int,
) -> bool {
    &&& actions.len() >= 3 * count
    &&& actions[0] == AgentActionView::Report(
        AgentEventView::AssistantMessage { text, tool_calls: calls },
    )
    &&& forall|j: int|
        #![trigger calls[j]]
        0 <= j < count ==> {
            &&& j > 0 ==> actions[3 * j] == AgentActionView::Report(
                AgentEventView::ToolCallCompleted(results[j - 1]),
            )
            &&& actions[3 * j + 1] == AgentActionView::Report(
                AgentEventView::ToolCallStarted(calls[j]),
            )
            &&& carries_out(actions[3 * j + 2], calls[j], allowed)
        }
}

proof fn results_extend(results: Seq<ToolResultView>)
    requires
        results.len() > 0,
    ensures
        completion_and_results(results).drop_last() == completion_and_results(results.drop_last()),
        completion_and_results(results).last() == AgentInputView::ToolFinished(results.last()),
        completion_and_results(results).len() > 0,
{
    assert(completion_and_results(results).drop_last() =~= completion_and_results(
        results.drop_last(),
    ));
}

/// A round that ends in tool calls works through all of them, in their order and
/// one at a time, and asks for no inference before the last of them has its
/// result. Then the next round begins, unless the limit is reached: with the
/// messages so far, the message of the round, and every result in its order.
pub proof fn every_requested_call_is_carried_out(s: AgentRunView, results: Seq<ToolResultView>)
    requires
        s.phase is Inferring,
        s.phase->Inferring_tool_calls.len() > 0,
        results.len() <= s.phase->Inferring_tool_calls.len(),
    ensures
        ({
            let text = s.phase->Inferring_text;
            let calls = s.phase->Inferring_tool_calls;
            let allowed = s.request.allowed_tools;
            let n = calls.len() as int;
            let k = results.len() as int;
            let (state, actions) = steps(s, completion_and_results(results));
            let messages = s.request.messages.push(
                ModelMessageView::Assistant { content: text, tool_calls: calls },
            ) + results.map_values(|result: ToolResultView| ModelMessageView::Tool(result));
            &&& state.request.messages == messages
            &&& state.request.model == s.request.model
            &&& state.request.reasoning_effort == s.request.reasoning_effort
            &&& state.request.allowed_tools == allowed
            &&& state.tools == s.tools
            &&& if k < n {
                &&& works_through(actions, text, calls, results, allowed, k + 1)
                &&& actions.len() == 3 * (k + 1)
                &&& state.phase == AgentPhaseView::Working { queue: calls.skip(k + 1) }
                &&& state.rounds == s.rounds
            } else {
                &&& works_through(actions, text, calls, results, allowed, n)
                &&& actions.len() == 3 * n + 2
                &&& actions[3 * n] == AgentActionView::Report(
                    AgentEventView::ToolCallCompleted(results[n - 1]),
                )
                &&& if s.rounds < MAX_TOOL_ROUNDS {
                    actions[3 * n + 1] == AgentActionView::Infer(
                        InferenceRequestView {
                            model: s.request.model,
                            reasoning_effort: s.request.reasoning_effort,
                            messages,
                            tools: s.tools,
                        },
                    ) && state.phase == (AgentPhaseView::Inferring {
                        text: seq![],
                        tool_calls: seq![],
                    }) && state.rounds == s.rounds + 1
                } else {
                    state.phase is Done && (actions[3 * n
                        + 1] matches AgentActionView::Report(event) && event is Failed)
                }
            }
        }),
    decreases results.len(),
{
    let text = s.phase->Inferring_text;
    let calls = s.phase->Inferring_tool_calls;
    let allowed = s.request.allowed_tools;
    let inputs = completion_and_results(results);
    let said = s.request.messages.push(
        ModelMessageView::Assistant { content: text, tool_calls: calls },
    );
    let tool = |result: ToolResultView| ModelMessageView::Tool(result);
    if results.len() == 0 {
        assert(inputs =~= seq![AgentInputView::Provider(ProviderEventView::Completed)]);
        assert(inputs.drop_last() =~= seq![]);
        reveal_with_fuel(steps, 2);
        let (state, actions) = steps(s, inputs);
        assert(actions =~= s.step(inputs.last()).1);
        assert(said + results.map_values(tool) =~= said);
        assert(calls.skip(1) =~= calls.drop_first());
        assert(works_through(actions, text, calls, results, allowed, 1)) by {
            assert forall|j: int| #![trigger calls[j]] 0 <= j < 1 implies {
                &&& actions[3 * j + 1] == AgentActionView::Report(
                    AgentEventView::ToolCallStarted(calls[j]),
                )
                &&& carries_out(actions[3 * j + 2], calls[j], allowed)
            } by {
                assert(j == 0);
            }
        }
    } else {
        let earlier = results.drop_last();
        results_extend(results);
        every_requested_call_is_carried_out(s, earlier);
        let (before, done) = steps(s, completion_and_results(earlier));
        let k = earlier.len() as int;
        let (state, actions) = steps(s, inputs);
        let more = before.step(inputs.last()).1;
        assert(actions == done + more);
        assert((said + earlier.map_values(tool)).push(ModelMessageView::Tool(results.last()))
            =~= said + results.map_values(tool));
        let queue = calls.skip(k + 1);
        assert(before.phase == AgentPhaseView::Working { queue });
        assert(done.len() == 3 * (k + 1));
        assert(more[0] == AgentActionView::Report(
            AgentEventView::ToolCallCompleted(results[k]),
        ));
        if queue.len() > 0 {
            assert(queue[0] == calls[k + 1]);
            assert(queue.drop_first() =~= calls.skip(k + 2));
        }
        let total = if queue.len() > 0 {
            k + 2
        } else {
            k + 1
        };
        assert forall|j: int| #![trigger calls[j]] 0 <= j < total implies {
            &&& j > 0 ==> actions[3 * j] == AgentActionView::Report(
                AgentEventView::ToolCallCompleted(results[j - 1]),
            )
            &&& actions[3 * j + 1] == AgentActionView::Report(
                AgentEventView::ToolCallStarted(calls[j]),
            )
            &&& carries_out(actions[3 * j + 2], calls[j], allowed)
        } by {
            if j <= k {
                assert(actions[3 * j] == done[3 * j]);
                assert(actions[3 * j + 1] == done[3 * j + 1]);
                assert(actions[3 * j + 2] == done[3 * j + 2]);
                if j > 0 {
                    assert(results[j - 1] == earlier[j - 1]);
                }
            } else {
                assert(actions[3 * j] == more[0]);
                assert(actions[3 * j + 1] == more[1]);
                assert(actions[3 * j + 2] == more[2]);
            }
        }
        assert(actions[0] == done[0]);
    }
}

/// The text of some provider events, joined.
pub open spec fn spoken(events: Seq<ProviderEventView>) -> Text
    decreases events.len(),
{
    if events.len() == 0 {
        seq![]
    } else {
        spoken(events.drop_last()) + match events.last() {
            ProviderEventView::TextDelta(text) => text,
            _ => seq![],
        }
    }
}

/// The tool calls among some provider events, in order.
pub open spec fn requested(events: Seq<ProviderEventView>) -> Seq<ToolCallView>
    decreases events.len(),
{
    if events.len() == 0 {
        seq![]
    } else {
        match events.last() {
            ProviderEventView::ToolCall(call) => requested(events.drop_last()).push(call),
            _ => requested(events.drop_last()),
        }
    }
}

/// The texts that some actions report as streamed, joined.
pub open spec fn told(actions: Seq<AgentActionView>) -> Text
    decreases actions.len(),
{
    if actions.len() == 0 {
        seq![]
    } else {
        told(actions.drop_last()) + match actions.last() {
            AgentActionView::Report(AgentEventView::AssistantTextDelta(text)) => text,
            _ => seq![],
        }
    }
}

/// A round collects all text and all tool calls that are streamed, in their
/// order, and tells the text on as it comes. Its message holds just that. A
/// round without tool calls completes the run.
pub proof fn rounds_collect_what_was_streamed(s: AgentRunView, events: Seq<ProviderEventView>)
    requires
        s.phase == (AgentPhaseView::Inferring { text: seq![], tool_calls: seq![] }),
        forall|i: int| 0 <= i < events.len() ==> !(#[trigger] events[i] is Completed),
    ensures
        ({
            let inputs = events.map_values(|event: ProviderEventView| AgentInputView::Provider(event));
            let (state, actions) = steps(s, inputs);
            let (after, closing) = state.step(
                AgentInputView::Provider(ProviderEventView::Completed),
            );
            &&& state == s.doing(
                AgentPhaseView::Inferring { text: spoken(events), tool_calls: requested(events) },
            )
            &&& told(actions) == spoken(events)
            &&& forall|i: int|
                0 <= i < actions.len() ==> ((#[trigger] actions[i]) matches AgentActionView::Report(
                    event,
                ) && event is AssistantTextDelta)
            &&& closing.len() > 0 && closing[0] == AgentActionView::Report(
                AgentEventView::AssistantMessage {
                    text: spoken(events),
                    tool_calls: requested(events),
                },
            )
            &&& requested(events).len() == 0 ==> after.phase is Done && closing.len() == 2
                && closing[1] == AgentActionView::Report(AgentEventView::Completed)
        }),
    decreases events.len(),
{
    let inputs = events.map_values(|event: ProviderEventView| AgentInputView::Provider(event));
    if events.len() > 0 {
        let earlier = events.drop_last();
        assert forall|i: int| 0 <= i < earlier.len() implies !(#[trigger] earlier[i]
            is Completed) by {
            assert(earlier[i] == events[i]);
        }
        rounds_collect_what_was_streamed(s, earlier);
        assert(inputs.drop_last() =~= earlier.map_values(
            |event: ProviderEventView| AgentInputView::Provider(event),
        ));
        assert(!(events[events.len() - 1] is Completed));
        let (before, done) = steps(s, inputs.drop_last());
        let more = before.step(inputs.last()).1;
        let all = done + more;
        if more.len() == 0 {
            assert(all =~= done);
        } else {
            assert(all.drop_last() =~= done);
            assert(all.last() == more[0]);
        }
        assert(spoken(earlier) + Seq::<char>::empty() =~= spoken(earlier));
    }
}

/// A run begins with one round of inference: with the model, the effort and the
/// messages of its request, and with the tools that its scope names, or with all
/// of them where it names none.
pub proof fn a_run_begins_with_its_request(
    request: AgentRequestView,
    definitions: Seq<ToolDefinitionView>,
)
    ensures
        ({
            let (state, actions) = started(request, definitions);
            &&& state.request == request
            &&& state.rounds == 1
            &&& state.phase == (AgentPhaseView::Inferring { text: seq![], tool_calls: seq![] })
            &&& actions == seq![
                AgentActionView::Infer(
                    InferenceRequestView {
                        model: request.model,
                        reasoning_effort: request.reasoning_effort,
                        messages: request.messages,
                        tools: state.tools,
                    },
                ),
            ]
            &&& request.allowed_tools is None || request.allowed_tools->0.len() == 0 ==> state.tools
                == definitions
            &&& request.allowed_tools is Some && request.allowed_tools->0.len() > 0 ==> (forall|
                tool: ToolDefinitionView|
                #![trigger state.tools.contains(tool)]
                state.tools.contains(tool) <==> definitions.contains(tool)
                    && request.allowed_tools->0.contains(tool.name))
        }),
{
    let keep = |tool: ToolDefinitionView| in_scope(request.allowed_tools, tool.name);
    let tools = scoped(definitions, request.allowed_tools);
    if request.allowed_tools is None || request.allowed_tools->0.len() == 0 {
        all_are_kept(definitions, keep);
    }
    assert forall|tool: ToolDefinitionView| #[trigger] tools.contains(tool) <==> definitions.contains(
        tool,
    ) && keep(tool) by {
        if tools.contains(tool) {
            let i = choose|i: int| 0 <= i < tools.len() && tools[i] == tool;
            definitions.lemma_filter_pred(keep, i);
            definitions.lemma_filter_contains_rev(keep, tool);
        }
        if definitions.contains(tool) && keep(tool) {
            let i = choose|i: int| 0 <= i < definitions.len() && definitions[i] == tool;
            definitions.lemma_filter_contains(keep, i);
        }
    }
}

proof fn all_are_kept<T>(items: Seq<T>, keep: spec_fn(T) -> bool)
    requires
        forall|item: T| #[trigger] keep(item),
    ensures
        items.filter(keep) == items,
    decreases items.len(),
{
    reveal(Seq::filter);
    if items.len() > 0 {
        all_are_kept(items.drop_last(), keep);
        assert(keep(items.last()));
        assert(items.drop_last().push(items.last()) =~= items);
    }
}

/// A round that the provider breaks off ends the run with the provider's error;
/// nothing more is asked for.
pub proof fn broken_rounds_end_the_run(s: AgentRunView, error: Text)
    requires
        s.phase is Inferring,
    ensures
        s.step(AgentInputView::ProviderFailed(error)).1 == seq![
            AgentActionView::Report(AgentEventView::Failed(error)),
        ],
        s.step(AgentInputView::ProviderFailed(error)).0.phase is Done,
        s.step(AgentInputView::ProviderEnded).0.phase is Done,
        s.step(AgentInputView::ProviderEnded).1.len() == 1,
        s.step(AgentInputView::ProviderEnded).1[0] matches AgentActionView::Report(event) && event
            is Failed,
{
}

/// A run that waits for a tool takes its result into the conversation, reports it, and goes on:
/// with the next call where one is left, and otherwise with a round of inference on all that was
/// said, unless the limit is reached.
pub proof fn finished_tools_move_the_run_on(
    run: &mut AgentRun,
    result: ToolResult,
    r: Vec<AgentAction>,
)
    requires
        call_ensures(AgentRun::step, (run, AgentInput::ToolFinished(result)), r),
        old(run)@.phase is Working,
    ensures
        ({
            let before = old(run)@;
            let after = final(run)@;
            let actions = views(r@);
            let queue = before.phase->Working_queue;
            let messages = before.request.messages.push(ModelMessageView::Tool(result@));
            &&& after.request.messages == messages
            &&& actions.len() > 0
            &&& actions[0] == AgentActionView::Report(AgentEventView::ToolCallCompleted(result@))
            &&& if queue.len() > 0 {
                &&& actions.len() == 3
                &&& actions[1] == AgentActionView::Report(AgentEventView::ToolCallStarted(queue[0]))
                &&& carries_out(actions[2], queue[0], before.request.allowed_tools)
                &&& after.phase == AgentPhaseView::Working { queue: queue.drop_first() }
            } else if before.rounds < MAX_TOOL_ROUNDS {
                &&& actions.len() == 2
                &&& actions[1] == AgentActionView::Infer(
                    InferenceRequestView {
                        model: before.request.model,
                        reasoning_effort: before.request.reasoning_effort,
                        messages,
                        tools: before.tools,
                    },
                )
                &&& after.phase == (AgentPhaseView::Inferring {
                    text: seq![],
                    tool_calls: seq![],
                })
            } else {
                &&& actions.len() == 2
                &&& actions[1] is Report
                &&& after.phase is Done
            }
        }),
{
}

/// A run that takes in what the model says collects it: text behind the text before and reported
/// at once, a call behind the calls before; and at its end it reports all of both.
pub proof fn streamed_answers_are_collected(
    run: &mut AgentRun,
    event: ProviderEvent,
    r: Vec<AgentAction>,
)
    requires
        call_ensures(AgentRun::step, (run, AgentInput::Provider(event)), r),
        old(run)@.phase is Inferring,
    ensures
        ({
            let text = old(run)@.phase->Inferring_text;
            let calls = old(run)@.phase->Inferring_tool_calls;
            match event@ {
                ProviderEventView::TextDelta(delta) => final(run)@.phase == (
                AgentPhaseView::Inferring { text: text + delta, tool_calls: calls }) && views(r@)
                    == seq![AgentActionView::Report(AgentEventView::AssistantTextDelta(delta))],
                ProviderEventView::ToolCall(call) => final(run)@.phase == (
                AgentPhaseView::Inferring { text, tool_calls: calls.push(call) }) && r@.len() == 0,
                ProviderEventView::Completed => {
                    &&& r@.len() >= 2
                    &&& views(r@)[0] == AgentActionView::Report(
                        AgentEventView::AssistantMessage { text, tool_calls: calls },
                    )
                    &&& calls.len() == 0 ==> views(r@) == seq![
                        AgentActionView::Report(
                            AgentEventView::AssistantMessage { text, tool_calls: calls },
                        ),
                        AgentActionView::Report(AgentEventView::Completed),
                    ] && final(run)@.phase is Done
                    &&& calls.len() > 0 ==> final(run)@.phase == AgentPhaseView::Working {
                        queue: calls.drop_first(),
                    } && r@.len() == 3 && views(r@)[1] == AgentActionView::Report(
                        AgentEventView::ToolCallStarted(calls[0]),
                    ) && carries_out(views(r@)[2], calls[0], old(run)@.request.allowed_tools)
                },
            }
        }),
{
    assert(views(r@).len() == r@.len());
}

/// A scope leaves the tools in their order and takes each of them as it is or not at all: one
/// that it names, or every one where it names none.
pub proof fn scopes_keep_the_order(
    first: Seq<ToolDefinitionView>,
    second: Seq<ToolDefinitionView>,
    tool: ToolDefinitionView,
    allowed: Option<Seq<Text>>,
)
    ensures
        scoped(first + second, allowed) == scoped(first, allowed) + scoped(second, allowed),
        scoped(seq![tool], allowed) == if allowed is Some && allowed->0.len() > 0
            && !allowed->0.contains(tool.name) {
            seq![]
        } else {
            seq![tool]
        },
{
    let keep = |tool: ToolDefinitionView| in_scope(allowed, tool.name);
    Seq::filter_distributes_over_add(first, second, keep);
    reveal(Seq::filter);
    let one = seq![tool];
    assert(one.drop_last() =~= seq![]);
    assert(one.drop_last().filter(keep) =~= seq![]);
    assert(one.filter(keep) =~= if keep(tool) {
        seq![tool]
    } else {
        seq![]
    });
}

} // verus!
