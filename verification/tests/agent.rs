//! The agent loop.

use nexa::agent::{
    scope_admits, scoped_tools, AgentAction, AgentInput, AgentRun, ProviderEvent, MAX_TOOL_ROUNDS,
};
use nexa::protocol::{ModelMessage, ModelRef, ToolCall, ToolResult};
use nexa::session::{AgentEvent, AgentRequest};
use nexa::tools::definitions;

fn request(allowed_tools: Option<Vec<String>>) -> AgentRequest {
    AgentRequest {
        model: ModelRef {
            provider: "test-provider".to_owned(),
            id: "test-model".to_owned(),
        },
        reasoning_effort: None,
        allowed_tools,
        messages: vec![ModelMessage::User {
            content: "Read the notes".to_owned(),
        }],
    }
}

fn call(name: &str) -> ToolCall {
    ToolCall {
        id: "call-1".to_owned(),
        name: name.to_owned(),
        arguments: r#"{"path":"notes.txt"}"#.to_owned(),
    }
}

#[test]
fn continues_inference_after_a_tool_result() {
    let (mut run, mut actions) = AgentRun::start(request(None), &definitions());
    let mut responses = vec![
        vec![
            ProviderEvent::ToolCall(call("read_file")),
            ProviderEvent::Completed,
        ],
        vec![
            ProviderEvent::TextDelta("I found it.".to_owned()),
            ProviderEvent::Completed,
        ],
    ]
    .into_iter();
    let mut received = Vec::new();
    let mut requests = Vec::new();
    while !actions.is_empty() {
        let mut inputs = Vec::new();
        for action in actions.drain(..) {
            match action {
                AgentAction::Report(event) => received.push(event),
                AgentAction::Infer(request) => {
                    requests.push(request);
                    inputs.extend(
                        responses
                            .next()
                            .unwrap()
                            .into_iter()
                            .map(AgentInput::Provider),
                    );
                }
                AgentAction::Execute(call) => {
                    inputs.push(AgentInput::ToolFinished(ToolResult {
                        tool_call_id: call.id,
                        content: "hello from the workspace".to_owned(),
                        is_error: false,
                    }))
                }
                AgentAction::Answer(result) => inputs.push(AgentInput::ToolFinished(result)),
            }
        }
        let mut next = Vec::new();
        for input in inputs {
            next.extend(run.step(input));
        }
        actions = next;
    }

    assert!(received.iter().any(|event| matches!(
        event,
        AgentEvent::ToolCallCompleted(result)
            if !result.is_error && result.content.contains("hello from the workspace")
    )));
    assert!(received.iter().any(|event| matches!(
        event,
        AgentEvent::AssistantMessage { text, tool_calls }
            if text == "I found it." && tool_calls.is_empty()
    )));
    assert!(matches!(received.last(), Some(AgentEvent::Completed)));

    assert_eq!(requests.len(), 2);
    assert!(matches!(
        requests[1].messages.last(),
        Some(ModelMessage::Tool(result)) if !result.is_error
    ));
}

#[test]
fn a_preset_scopes_the_tools() {
    let allowed = Some(vec!["read_file".to_owned()]);
    let tools = scoped_tools(&definitions(), &allowed);
    assert_eq!(tools.len(), 1);
    assert_eq!(tools[0].name, "read_file");
    assert!(scope_admits(&allowed, "read_file"));
    assert!(!scope_admits(&allowed, "edit_file"));
    assert!(scope_admits(&None, "edit_file"));

    let (mut run, actions) = AgentRun::start(request(allowed), &definitions());
    assert!(matches!(
        actions.last(),
        Some(AgentAction::Infer(request)) if request.tools.len() == 1
    ));
    run.step(AgentInput::Provider(ProviderEvent::ToolCall(call(
        "edit_file",
    ))));
    let actions = run.step(AgentInput::Provider(ProviderEvent::Completed));
    assert!(!actions
        .iter()
        .any(|action| matches!(action, AgentAction::Execute(_))));
    assert!(actions.iter().any(|action| matches!(
        action,
        AgentAction::Answer(result)
            if result.is_error && result.content == "{\"error\":\"unknown tool \\\"edit_file\\\"\"}"
    )));
}

#[test]
fn a_failed_provider_ends_the_run() {
    let (mut run, _) = AgentRun::start(request(None), &definitions());
    let actions = run.step(AgentInput::ProviderFailed("down".to_owned()));
    assert!(matches!(
        actions.as_slice(),
        [AgentAction::Report(AgentEvent::Failed(error))] if error == "down"
    ));
    assert!(run.step(AgentInput::ProviderEnded).is_empty());

    let (mut run, _) = AgentRun::start(request(None), &definitions());
    let actions = run.step(AgentInput::ProviderEnded);
    assert!(matches!(
        actions.last(),
        Some(AgentAction::Report(AgentEvent::Failed(_)))
    ));
}

#[test]
fn rounds_are_limited() {
    let (mut run, _) = AgentRun::start(request(None), &definitions());
    let mut rounds: u64 = 0;
    let error = loop {
        run.step(AgentInput::Provider(ProviderEvent::ToolCall(call(
            "read_file",
        ))));
        run.step(AgentInput::Provider(ProviderEvent::Completed));
        rounds += 1;
        let actions = run.step(AgentInput::ToolFinished(ToolResult {
            tool_call_id: "call-1".to_owned(),
            content: "x".to_owned(),
            is_error: false,
        }));
        if let Some(AgentAction::Report(AgentEvent::Failed(error))) = actions.last() {
            break error.clone();
        }
        assert!(rounds < 100);
    };
    assert_eq!(rounds, MAX_TOOL_ROUNDS);
    assert!(error.contains("16"), "{error}");
}
