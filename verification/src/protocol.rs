//! The wire vocabulary shared by the server, the agent and the front ends.

use crate::text::{ascii_lower, ascii_lower_text, opt_view, same, views, Text};
use vstd::prelude::*;

verus! {

/// Wire-protocol revision. Servers advertise it on every response via the
/// `x-nexa-protocol` header; clients refuse servers older than themselves.
pub const PROTOCOL_VERSION: u32 = 2;

#[derive(Clone, Copy, Debug, Eq, PartialEq, Structural)]
pub enum ApiFormat {
    ChatCompletions,
}

impl Default for ApiFormat {
    fn default() -> (r: Self)
        ensures
            r == ApiFormat::ChatCompletions,
    {
        ApiFormat::ChatCompletions
    }
}

#[derive(Clone, Copy, Debug, Eq, PartialEq, Structural)]
pub enum ReasoningEffort {
    Minimal,
    Low,
    Medium,
    High,
    XHigh,
    Max,
}

impl View for ReasoningEffort {
    type V = ReasoningEffort;

    open spec fn view(&self) -> ReasoningEffort {
        *self
    }
}

impl ReasoningEffort {
    /// Every effort level, ordered from least to most expensive.
    pub const ALL: [ReasoningEffort; 6] = [
        ReasoningEffort::Minimal,
        ReasoningEffort::Low,
        ReasoningEffort::Medium,
        ReasoningEffort::High,
        ReasoningEffort::XHigh,
        ReasoningEffort::Max,
    ];

    /// Levels shown when a provider says reasoning is supported but does not
    /// enumerate which values it accepts. `minimal` and `max` stay out unless
    /// a model lists them.
    pub const COMMON: [ReasoningEffort; 4] = [
        ReasoningEffort::Low,
        ReasoningEffort::Medium,
        ReasoningEffort::High,
        ReasoningEffort::XHigh,
    ];

    /// The lowercase wire spelling of a level.
    pub open spec fn spelling(self) -> Text {
        match self {
            ReasoningEffort::Minimal => "minimal"@,
            ReasoningEffort::Low => "low"@,
            ReasoningEffort::Medium => "medium"@,
            ReasoningEffort::High => "high"@,
            ReasoningEffort::XHigh => "xhigh"@,
            ReasoningEffort::Max => "max"@,
        }
    }

    /// Position in the order from least to most expensive.
    pub open spec fn rank(self) -> int {
        match self {
            ReasoningEffort::Minimal => 0,
            ReasoningEffort::Low => 1,
            ReasoningEffort::Medium => 2,
            ReasoningEffort::High => 3,
            ReasoningEffort::XHigh => 4,
            ReasoningEffort::Max => 5,
        }
    }

    /// Parses the lowercase wire spelling used by OpenAI-compatible APIs,
    /// whatever its ASCII case.
    pub fn parse(value: &str) -> (r: Option<ReasoningEffort>)
        ensures
            r == parse_effort(value@),
    {
        let lower = ascii_lower_text(value);
        if same(&lower, "minimal") {
            Some(ReasoningEffort::Minimal)
        } else if same(&lower, "low") {
            Some(ReasoningEffort::Low)
        } else if same(&lower, "medium") {
            Some(ReasoningEffort::Medium)
        } else if same(&lower, "high") {
            Some(ReasoningEffort::High)
        } else if same(&lower, "xhigh") {
            Some(ReasoningEffort::XHigh)
        } else if same(&lower, "max") {
            Some(ReasoningEffort::Max)
        } else {
            None
        }
    }

    fn serialize_str(self) -> (r: &'static str)
        ensures
            r@ == self.spelling(),
    {
        match self {
            ReasoningEffort::Minimal => "minimal",
            ReasoningEffort::Low => "low",
            ReasoningEffort::Medium => "medium",
            ReasoningEffort::High => "high",
            ReasoningEffort::XHigh => "xhigh",
            ReasoningEffort::Max => "max",
        }
    }

    /// The lowercase wire spelling sent to providers.
    pub fn as_str(self) -> (r: &'static str)
        ensures
            r@ == self.spelling(),
    {
        self.serialize_str()
    }
}

/// The level whose spelling equals `value` up to ASCII case.
pub open spec fn parse_effort(value: Text) -> Option<ReasoningEffort> {
    let lower = ascii_lower(value);
    if lower == ReasoningEffort::Minimal.spelling() {
        Some(ReasoningEffort::Minimal)
    } else if lower == ReasoningEffort::Low.spelling() {
        Some(ReasoningEffort::Low)
    } else if lower == ReasoningEffort::Medium.spelling() {
        Some(ReasoningEffort::Medium)
    } else if lower == ReasoningEffort::High.spelling() {
        Some(ReasoningEffort::High)
    } else if lower == ReasoningEffort::XHigh.spelling() {
        Some(ReasoningEffort::XHigh)
    } else if lower == ReasoningEffort::Max.spelling() {
        Some(ReasoningEffort::Max)
    } else {
        None
    }
}

/// Parsing recognises exactly the texts that equal a level's spelling up to
/// ASCII case, and gives back that level.
pub proof fn parse_inverts_spelling(value: Text, effort: ReasoningEffort)
    ensures
        parse_effort(value) == Some(effort) <==> ascii_lower(value) == effort.spelling(),
        parse_effort(effort.spelling()) == Some(effort),
{
    reveal_strlit("minimal");
    reveal_strlit("low");
    reveal_strlit("medium");
    reveal_strlit("high");
    reveal_strlit("xhigh");
    reveal_strlit("max");
    assert(ascii_lower(effort.spelling()) =~= effort.spelling());
    assert("low"@[0] == 'l' && "max"@[0] == 'm');
    assert("high"@.len() == 4 && "xhigh"@.len() == 5 && "medium"@.len() == 6
        && "minimal"@.len() == 7);
}

/// The content of a [`ModelRef`].
#[verifier::ext_equal]
pub struct ModelRefView {
    pub provider: Text,
    pub id: Text,
}

#[derive(Debug, Eq, PartialEq)]
pub struct ModelRef {
    pub provider: String,
    pub id: String,
}

impl View for ModelRef {
    type V = ModelRefView;

    open spec fn view(&self) -> ModelRefView {
        ModelRefView {
            provider: self.provider@,
            id: self.id@,
        }
    }
}

impl Clone for ModelRef {
    fn clone(&self) -> (r: Self)
        ensures
            r@ == self@,
    {
        let r = ModelRef {
            provider: self.provider.clone(),
            id: self.id.clone(),
        };
        assert(r@ =~~= self@);
        r
    }
}

/// The content of a [`ModelSummary`].
#[verifier::ext_equal]
pub struct ModelSummaryView {
    pub id: Text,
    pub reasoning_efforts: Option<Seq<ReasoningEffort>>,
}

#[derive(Debug, Eq, PartialEq)]
pub struct ModelSummary {
    pub id: String,
    /// Reasoning effort levels the provider reports for this model. `None`
    /// means the endpoint did not declare support either way.
    pub reasoning_efforts: Option<Vec<ReasoningEffort>>,
}

impl View for ModelSummary {
    type V = ModelSummaryView;

    open spec fn view(&self) -> ModelSummaryView {
        ModelSummaryView {
            id: self.id@,
            reasoning_efforts: match self.reasoning_efforts {
                Some(list) => Some(list@),
                None => None,
            },
        }
    }
}

impl Clone for ModelSummary {
    fn clone(&self) -> (r: Self)
        ensures
            r@ == self@,
    {
        let r = ModelSummary {
            id: self.id.clone(),
            reasoning_efforts: self.reasoning_efforts.clone(),
        };
        assert(r@ =~~= self@);
        r
    }
}

/// The content of a [`ProviderSummary`].
#[verifier::ext_equal]
pub struct ProviderSummaryView {
    pub id: Text,
    pub name: Text,
    pub api_format: ApiFormat,
    pub models: Seq<ModelSummaryView>,
}

#[derive(Debug, Eq, PartialEq)]
pub struct ProviderSummary {
    pub id: String,
    pub name: String,
    pub api_format: ApiFormat,
    pub models: Vec<ModelSummary>,
}

impl View for ProviderSummary {
    type V = ProviderSummaryView;

    open spec fn view(&self) -> ProviderSummaryView {
        ProviderSummaryView {
            id: self.id@,
            name: self.name@,
            api_format: self.api_format,
            models: views(self.models@),
        }
    }
}

impl Clone for ProviderSummary {
    fn clone(&self) -> (r: Self)
        ensures
            r@ == self@,
    {
        let r = ProviderSummary {
            id: self.id.clone(),
            name: self.name.clone(),
            api_format: self.api_format,
            models: self.models.clone(),
        };
        assert(r@ =~~= self@);
        r
    }
}

/// The content of a [`WorkspaceRequest`].
#[verifier::ext_equal]
pub struct WorkspaceRequestView {
    pub workspace: Text,
}

#[derive(Debug, Eq, PartialEq)]
pub struct WorkspaceRequest {
    pub workspace: String,
}

impl View for WorkspaceRequest {
    type V = WorkspaceRequestView;

    open spec fn view(&self) -> WorkspaceRequestView {
        WorkspaceRequestView {
            workspace: self.workspace@,
        }
    }
}

impl Clone for WorkspaceRequest {
    fn clone(&self) -> (r: Self)
        ensures
            r@ == self@,
    {
        let r = WorkspaceRequest {
            workspace: self.workspace.clone(),
        };
        assert(r@ =~~= self@);
        r
    }
}

/// The content of a [`SessionInfo`].
#[verifier::ext_equal]
pub struct SessionInfoView {
    pub id: Text,
    pub workspace: Text,
}

#[derive(Debug, Eq, PartialEq)]
pub struct SessionInfo {
    pub id: String,
    pub workspace: String,
}

impl View for SessionInfo {
    type V = SessionInfoView;

    open spec fn view(&self) -> SessionInfoView {
        SessionInfoView {
            id: self.id@,
            workspace: self.workspace@,
        }
    }
}

impl Clone for SessionInfo {
    fn clone(&self) -> (r: Self)
        ensures
            r@ == self@,
    {
        let r = SessionInfo {
            id: self.id.clone(),
            workspace: self.workspace.clone(),
        };
        assert(r@ =~~= self@);
        r
    }
}

/// The content of a [`PresetSummary`].
#[verifier::ext_equal]
pub struct PresetSummaryView {
    pub name: Text,
    pub description: Text,
    pub tools: Seq<Text>,
}

/// A named agent preset: an immutable tool scope applied per chat.
#[derive(Debug, Eq, PartialEq)]
pub struct PresetSummary {
    pub name: String,
    pub description: String,
    /// Tool names the preset allows. An empty list means every tool.
    pub tools: Vec<String>,
}

impl View for PresetSummary {
    type V = PresetSummaryView;

    open spec fn view(&self) -> PresetSummaryView {
        PresetSummaryView {
            name: self.name@,
            description: self.description@,
            tools: views(self.tools@),
        }
    }
}

impl Clone for PresetSummary {
    fn clone(&self) -> (r: Self)
        ensures
            r@ == self@,
    {
        let r = PresetSummary {
            name: self.name.clone(),
            description: self.description.clone(),
            tools: self.tools.clone(),
        };
        assert(r@ =~~= self@);
        r
    }
}

/// The content of a [`SessionSummary`].
#[verifier::ext_equal]
pub struct SessionSummaryView {
    pub id: Text,
    pub created_at_ms: u64,
    pub last_opened_ms: u64,
}

/// A persisted session without its transcript: enough for pickers.
#[derive(Debug, Eq, PartialEq)]
pub struct SessionSummary {
    pub id: String,
    pub created_at_ms: u64,
    pub last_opened_ms: u64,
}

impl View for SessionSummary {
    type V = SessionSummaryView;

    open spec fn view(&self) -> SessionSummaryView {
        SessionSummaryView {
            id: self.id@,
            created_at_ms: self.created_at_ms,
            last_opened_ms: self.last_opened_ms,
        }
    }
}

impl Clone for SessionSummary {
    fn clone(&self) -> (r: Self)
        ensures
            r@ == self@,
    {
        let r = SessionSummary {
            id: self.id.clone(),
            created_at_ms: self.created_at_ms,
            last_opened_ms: self.last_opened_ms,
        };
        assert(r@ =~~= self@);
        r
    }
}

/// The content of an [`AcceptedCommand`].
#[verifier::ext_equal]
pub struct AcceptedCommandView {
    pub accepted: bool,
    pub sequence: u64,
}

#[derive(Debug, Eq, PartialEq)]
pub struct AcceptedCommand {
    pub accepted: bool,
    pub sequence: u64,
}

impl View for AcceptedCommand {
    type V = AcceptedCommandView;

    open spec fn view(&self) -> AcceptedCommandView {
        AcceptedCommandView {
            accepted: self.accepted,
            sequence: self.sequence,
        }
    }
}

impl Clone for AcceptedCommand {
    fn clone(&self) -> (r: Self)
        ensures
            r@ == self@,
    {
        let r = AcceptedCommand {
            accepted: self.accepted,
            sequence: self.sequence,
        };
        assert(r@ =~~= self@);
        r
    }
}

/// The content of a [`Command`].
#[verifier::ext_equal]
pub enum CommandView {
    SendMessage { session_id: Text, client_id: Text, model: ModelRefView, preset: Option<Text>, reasoning_effort: Option<ReasoningEffort>, text: Text },
}

/// A request of a client. The preset, if any, scopes the tools of the run.
#[derive(Debug)]
pub enum Command {
    SendMessage { session_id: String, client_id: String, model: ModelRef, preset: Option<String>, reasoning_effort: Option<ReasoningEffort>, text: String },
}

impl View for Command {
    type V = CommandView;

    open spec fn view(&self) -> CommandView {
        match self {
            Command::SendMessage { session_id, client_id, model, preset, reasoning_effort, text } => CommandView::SendMessage {
                session_id: session_id@,
                client_id: client_id@,
                model: model@,
                preset: opt_view(*preset),
                reasoning_effort: *reasoning_effort,
                text: text@,
            },
        }
    }
}

impl Clone for Command {
    fn clone(&self) -> (r: Self)
        ensures
            r@ == self@,
    {
        let r = match self {
            Command::SendMessage { session_id, client_id, model, preset, reasoning_effort, text } => Command::SendMessage {
                session_id: session_id.clone(),
                client_id: client_id.clone(),
                model: model.clone(),
                preset: preset.clone(),
                reasoning_effort: *reasoning_effort,
                text: text.clone(),
            },
        };
        assert(r@ =~~= self@);
        r
    }
}

/// The content of a [`ToolCall`].
#[verifier::ext_equal]
pub struct ToolCallView {
    pub id: Text,
    pub name: Text,
    pub arguments: Text,
}

#[derive(Debug, Eq, PartialEq)]
pub struct ToolCall {
    pub id: String,
    pub name: String,
    pub arguments: String,
}

impl View for ToolCall {
    type V = ToolCallView;

    open spec fn view(&self) -> ToolCallView {
        ToolCallView {
            id: self.id@,
            name: self.name@,
            arguments: self.arguments@,
        }
    }
}

impl Clone for ToolCall {
    fn clone(&self) -> (r: Self)
        ensures
            r@ == self@,
    {
        let r = ToolCall {
            id: self.id.clone(),
            name: self.name.clone(),
            arguments: self.arguments.clone(),
        };
        assert(r@ =~~= self@);
        r
    }
}

/// The content of a [`ToolResult`].
#[verifier::ext_equal]
pub struct ToolResultView {
    pub tool_call_id: Text,
    pub content: Text,
    pub is_error: bool,
}

#[derive(Debug, Eq, PartialEq)]
pub struct ToolResult {
    pub tool_call_id: String,
    pub content: String,
    pub is_error: bool,
}

impl View for ToolResult {
    type V = ToolResultView;

    open spec fn view(&self) -> ToolResultView {
        ToolResultView {
            tool_call_id: self.tool_call_id@,
            content: self.content@,
            is_error: self.is_error,
        }
    }
}

impl Clone for ToolResult {
    fn clone(&self) -> (r: Self)
        ensures
            r@ == self@,
    {
        let r = ToolResult {
            tool_call_id: self.tool_call_id.clone(),
            content: self.content.clone(),
            is_error: self.is_error,
        };
        assert(r@ =~~= self@);
        r
    }
}

/// The content of a [`ModelMessage`].
#[verifier::ext_equal]
pub enum ModelMessageView {
    User { content: Text },
    Assistant { content: Text, tool_calls: Seq<ToolCallView> },
    Tool(ToolResultView),
}

#[derive(Debug, Eq, PartialEq)]
pub enum ModelMessage {
    User { content: String },
    Assistant { content: String, tool_calls: Vec<ToolCall> },
    Tool(ToolResult),
}

impl View for ModelMessage {
    type V = ModelMessageView;

    open spec fn view(&self) -> ModelMessageView {
        match self {
            ModelMessage::User { content } => ModelMessageView::User {
                content: content@,
            },
            ModelMessage::Assistant { content, tool_calls } => ModelMessageView::Assistant {
                content: content@,
                tool_calls: views(tool_calls@),
            },
            ModelMessage::Tool(item) => ModelMessageView::Tool(item@),
        }
    }
}

impl Clone for ModelMessage {
    fn clone(&self) -> (r: Self)
        ensures
            r@ == self@,
    {
        let r = match self {
            ModelMessage::User { content } => ModelMessage::User {
                content: content.clone(),
            },
            ModelMessage::Assistant { content, tool_calls } => ModelMessage::Assistant {
                content: content.clone(),
                tool_calls: tool_calls.clone(),
            },
            ModelMessage::Tool(item) => ModelMessage::Tool(item.clone()),
        };
        assert(r@ =~~= self@);
        r
    }
}

/// The content of an [`Event`].
#[verifier::ext_equal]
pub enum EventView {
    Message { session_id: Text, sequence: u64, client_id: Text, model: ModelRefView, text: Text, created_at_ms: u64 },
    RunStarted { session_id: Text, sequence: u64, run_id: Text, model: ModelRefView, reasoning_effort: Option<ReasoningEffort>, created_at_ms: u64 },
    AssistantTextDelta { session_id: Text, sequence: u64, run_id: Text, text: Text, created_at_ms: u64 },
    AssistantMessage { session_id: Text, sequence: u64, run_id: Text, text: Text, tool_calls: Seq<ToolCallView>, created_at_ms: u64 },
    ToolCallStarted { session_id: Text, sequence: u64, run_id: Text, call: ToolCallView, created_at_ms: u64 },
    ToolCallCompleted { session_id: Text, sequence: u64, run_id: Text, result: ToolResultView, created_at_ms: u64 },
    RunCompleted { session_id: Text, sequence: u64, run_id: Text, created_at_ms: u64 },
    RunFailed { session_id: Text, sequence: u64, run_id: Text, error: Text, created_at_ms: u64 },
}

/// One entry of the durable, ordered event stream of a session.
#[derive(Debug, Eq, PartialEq)]
pub enum Event {
    Message { session_id: String, sequence: u64, client_id: String, model: ModelRef, text: String, created_at_ms: u64 },
    RunStarted { session_id: String, sequence: u64, run_id: String, model: ModelRef, reasoning_effort: Option<ReasoningEffort>, created_at_ms: u64 },
    AssistantTextDelta { session_id: String, sequence: u64, run_id: String, text: String, created_at_ms: u64 },
    AssistantMessage { session_id: String, sequence: u64, run_id: String, text: String, tool_calls: Vec<ToolCall>, created_at_ms: u64 },
    ToolCallStarted { session_id: String, sequence: u64, run_id: String, call: ToolCall, created_at_ms: u64 },
    ToolCallCompleted { session_id: String, sequence: u64, run_id: String, result: ToolResult, created_at_ms: u64 },
    RunCompleted { session_id: String, sequence: u64, run_id: String, created_at_ms: u64 },
    RunFailed { session_id: String, sequence: u64, run_id: String, error: String, created_at_ms: u64 },
}

impl View for Event {
    type V = EventView;

    open spec fn view(&self) -> EventView {
        match self {
            Event::Message { session_id, sequence, client_id, model, text, created_at_ms } => EventView::Message {
                session_id: session_id@,
                sequence: *sequence,
                client_id: client_id@,
                model: model@,
                text: text@,
                created_at_ms: *created_at_ms,
            },
            Event::RunStarted { session_id, sequence, run_id, model, reasoning_effort, created_at_ms } => EventView::RunStarted {
                session_id: session_id@,
                sequence: *sequence,
                run_id: run_id@,
                model: model@,
                reasoning_effort: *reasoning_effort,
                created_at_ms: *created_at_ms,
            },
            Event::AssistantTextDelta { session_id, sequence, run_id, text, created_at_ms } => EventView::AssistantTextDelta {
                session_id: session_id@,
                sequence: *sequence,
                run_id: run_id@,
                text: text@,
                created_at_ms: *created_at_ms,
            },
            Event::AssistantMessage { session_id, sequence, run_id, text, tool_calls, created_at_ms } => EventView::AssistantMessage {
                session_id: session_id@,
                sequence: *sequence,
                run_id: run_id@,
                text: text@,
                tool_calls: views(tool_calls@),
                created_at_ms: *created_at_ms,
            },
            Event::ToolCallStarted { session_id, sequence, run_id, call, created_at_ms } => EventView::ToolCallStarted {
                session_id: session_id@,
                sequence: *sequence,
                run_id: run_id@,
                call: call@,
                created_at_ms: *created_at_ms,
            },
            Event::ToolCallCompleted { session_id, sequence, run_id, result, created_at_ms } => EventView::ToolCallCompleted {
                session_id: session_id@,
                sequence: *sequence,
                run_id: run_id@,
                result: result@,
                created_at_ms: *created_at_ms,
            },
            Event::RunCompleted { session_id, sequence, run_id, created_at_ms } => EventView::RunCompleted {
                session_id: session_id@,
                sequence: *sequence,
                run_id: run_id@,
                created_at_ms: *created_at_ms,
            },
            Event::RunFailed { session_id, sequence, run_id, error, created_at_ms } => EventView::RunFailed {
                session_id: session_id@,
                sequence: *sequence,
                run_id: run_id@,
                error: error@,
                created_at_ms: *created_at_ms,
            },
        }
    }
}

impl Clone for Event {
    fn clone(&self) -> (r: Self)
        ensures
            r@ == self@,
    {
        let r = match self {
            Event::Message { session_id, sequence, client_id, model, text, created_at_ms } => Event::Message {
                session_id: session_id.clone(),
                sequence: *sequence,
                client_id: client_id.clone(),
                model: model.clone(),
                text: text.clone(),
                created_at_ms: *created_at_ms,
            },
            Event::RunStarted { session_id, sequence, run_id, model, reasoning_effort, created_at_ms } => Event::RunStarted {
                session_id: session_id.clone(),
                sequence: *sequence,
                run_id: run_id.clone(),
                model: model.clone(),
                reasoning_effort: *reasoning_effort,
                created_at_ms: *created_at_ms,
            },
            Event::AssistantTextDelta { session_id, sequence, run_id, text, created_at_ms } => Event::AssistantTextDelta {
                session_id: session_id.clone(),
                sequence: *sequence,
                run_id: run_id.clone(),
                text: text.clone(),
                created_at_ms: *created_at_ms,
            },
            Event::AssistantMessage { session_id, sequence, run_id, text, tool_calls, created_at_ms } => Event::AssistantMessage {
                session_id: session_id.clone(),
                sequence: *sequence,
                run_id: run_id.clone(),
                text: text.clone(),
                tool_calls: tool_calls.clone(),
                created_at_ms: *created_at_ms,
            },
            Event::ToolCallStarted { session_id, sequence, run_id, call, created_at_ms } => Event::ToolCallStarted {
                session_id: session_id.clone(),
                sequence: *sequence,
                run_id: run_id.clone(),
                call: call.clone(),
                created_at_ms: *created_at_ms,
            },
            Event::ToolCallCompleted { session_id, sequence, run_id, result, created_at_ms } => Event::ToolCallCompleted {
                session_id: session_id.clone(),
                sequence: *sequence,
                run_id: run_id.clone(),
                result: result.clone(),
                created_at_ms: *created_at_ms,
            },
            Event::RunCompleted { session_id, sequence, run_id, created_at_ms } => Event::RunCompleted {
                session_id: session_id.clone(),
                sequence: *sequence,
                run_id: run_id.clone(),
                created_at_ms: *created_at_ms,
            },
            Event::RunFailed { session_id, sequence, run_id, error, created_at_ms } => Event::RunFailed {
                session_id: session_id.clone(),
                sequence: *sequence,
                run_id: run_id.clone(),
                error: error.clone(),
                created_at_ms: *created_at_ms,
            },
        };
        assert(r@ =~~= self@);
        r
    }
}

impl EventView {
    /// Position in the session's stream, counted from 1.
    pub open spec fn sequence(self) -> u64 {
        match self {
            EventView::Message { sequence, .. } => sequence,
            EventView::RunStarted { sequence, .. } => sequence,
            EventView::AssistantTextDelta { sequence, .. } => sequence,
            EventView::AssistantMessage { sequence, .. } => sequence,
            EventView::ToolCallStarted { sequence, .. } => sequence,
            EventView::ToolCallCompleted { sequence, .. } => sequence,
            EventView::RunCompleted { sequence, .. } => sequence,
            EventView::RunFailed { sequence, .. } => sequence,
        }
    }

    /// The session the event belongs to.
    pub open spec fn session_id(self) -> Text {
        match self {
            EventView::Message { session_id, .. } => session_id,
            EventView::RunStarted { session_id, .. } => session_id,
            EventView::AssistantTextDelta { session_id, .. } => session_id,
            EventView::AssistantMessage { session_id, .. } => session_id,
            EventView::ToolCallStarted { session_id, .. } => session_id,
            EventView::ToolCallCompleted { session_id, .. } => session_id,
            EventView::RunCompleted { session_id, .. } => session_id,
            EventView::RunFailed { session_id, .. } => session_id,
        }
    }

    /// The sender of a message; other events have none.
    pub open spec fn client_id(self) -> Option<Text> {
        match self {
            EventView::Message { client_id, .. } => Some(client_id),
            _ => None,
        }
    }
}

impl Event {
    pub fn sequence(&self) -> (r: u64)
        ensures
            r == self@.sequence(),
    {
        match self {
            Event::Message { sequence, .. } => *sequence,
            Event::RunStarted { sequence, .. } => *sequence,
            Event::AssistantTextDelta { sequence, .. } => *sequence,
            Event::AssistantMessage { sequence, .. } => *sequence,
            Event::ToolCallStarted { sequence, .. } => *sequence,
            Event::ToolCallCompleted { sequence, .. } => *sequence,
            Event::RunCompleted { sequence, .. } => *sequence,
            Event::RunFailed { sequence, .. } => *sequence,
        }
    }

    pub fn session_id(&self) -> (r: &str)
        ensures
            r@ == self@.session_id(),
    {
        match self {
            Event::Message { session_id, .. } => session_id,
            Event::RunStarted { session_id, .. } => session_id,
            Event::AssistantTextDelta { session_id, .. } => session_id,
            Event::AssistantMessage { session_id, .. } => session_id,
            Event::ToolCallStarted { session_id, .. } => session_id,
            Event::ToolCallCompleted { session_id, .. } => session_id,
            Event::RunCompleted { session_id, .. } => session_id,
            Event::RunFailed { session_id, .. } => session_id,
        }
    }

    pub fn client_id(&self) -> (r: Option<&str>)
        ensures
            r is Some <==> self@.client_id() is Some,
            r matches Some(id) ==> self@.client_id() == Some(id@),
    {
        match self {
            Event::Message { client_id, .. } => Some(client_id.as_str()),
            _ => None,
        }
    }
}

impl ModelRef {
    /// Whether two references name the same model of the same provider.
    pub fn same_as(&self, other: &ModelRef) -> (r: bool)
        ensures
            r == (self@ == other@),
    {
        same(&self.provider, &other.provider) && same(&self.id, &other.id)
    }
}

} // verus!
