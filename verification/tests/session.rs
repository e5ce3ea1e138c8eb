//! The durable session.

use nexa::protocol::{Event, ModelMessage, ModelRef, ToolCall, ToolResult};
use nexa::session::{
    load_events, log_entries, log_entry, model_history, next_sequence, AgentEvent, PendingMessage, RunRelay, Session,
    SessionAction, SessionError, SessionInput,
};

fn pending(client: &str, text: &str) -> PendingMessage {
    PendingMessage {
        client_id: client.to_owned(),
        model: ModelRef {
            provider: "p".to_owned(),
            id: "m".to_owned(),
        },
        reasoning_effort: None,
        allowed_tools: None,
        text: text.to_owned(),
    }
}

/// Feeds an input and every outcome that a working disk and a willing agent
/// give, and returns all actions.
fn drive(session: &mut Session, input: SessionInput, now: u64) -> Vec<SessionAction> {
    let mut done = Vec::new();
    let mut queue = session.step(input, now);
    while !queue.is_empty() {
        let mut next = Vec::new();
        for action in queue.drain(..) {
            match &action {
                SessionAction::CheckModel(_) => {
                    next.extend(session.step(SessionInput::ModelChecked(None), now));
                }
                SessionAction::Save(_) => {
                    next.extend(session.step(SessionInput::Saved(None), now));
                }
                _ => {}
            }
            done.push(action);
        }
        queue = next;
    }
    done
}

fn broadcast(actions: &[SessionAction]) -> Vec<Event> {
    actions
        .iter()
        .filter_map(|action| match action {
            SessionAction::Broadcast(event) => Some(event.clone()),
            _ => None,
        })
        .collect()
}

fn saved(actions: &[SessionAction]) -> Vec<Event> {
    actions
        .iter()
        .filter_map(|action| match action {
            SessionAction::Save(event) => Some(event.clone()),
            _ => None,
        })
        .collect()
}

#[test]
fn two_clients_share_one_ordered_replayable_session() {
    let mut session = Session::open("s".to_owned(), false, Vec::new());
    let alice = drive(
        &mut session,
        SessionInput::AppendMessage(pending("alice", "hello from alice")),
        1,
    );
    let bob = drive(
        &mut session,
        SessionInput::AppendMessage(pending("bob", "hello from bob")),
        2,
    );
    let mut events = broadcast(&alice);
    events.extend(broadcast(&bob));
    assert_eq!(
        events.iter().map(Event::sequence).collect::<Vec<_>>(),
        [1_u64, 2_u64]
    );
    assert_eq!(
        events.iter().filter_map(Event::client_id).collect::<Vec<_>>(),
        ["alice", "bob"]
    );
    let mut persisted = saved(&alice);
    persisted.extend(saved(&bob));
    assert_eq!(persisted, events);

    let replay = drive(&mut session, SessionInput::Subscribe, 3);
    assert!(matches!(replay.as_slice(), [SessionAction::Replay(log)] if *log == events));
}

#[test]
fn an_agent_response_uses_the_same_durable_stream() {
    let mut session = Session::open("s".to_owned(), true, Vec::new());
    let mut actions = drive(
        &mut session,
        SessionInput::AppendMessage(pending("alice", "hello agent")),
        1,
    );
    let run_id = actions
        .iter()
        .find_map(|action| match action {
            SessionAction::StartAgent { run_id, request } => {
                assert_eq!(request.messages.len(), 1);
                Some(run_id.clone())
            }
            _ => None,
        })
        .unwrap();
    for event in [
        AgentEvent::AssistantTextDelta("hello ".to_owned()),
        AgentEvent::AssistantMessage {
            text: "hello human".to_owned(),
            tool_calls: Vec::new(),
        },
        AgentEvent::Completed,
    ] {
        actions.extend(drive(
            &mut session,
            SessionInput::AgentEvent {
                run_id: run_id.clone(),
                event,
            },
            2,
        ));
    }
    let events = broadcast(&actions);
    assert!(matches!(events[0], Event::Message { .. }));
    assert!(matches!(events[1], Event::RunStarted { .. }));
    assert!(events.iter().any(|event| matches!(
        event,
        Event::AssistantMessage { text, .. } if text == "hello human"
    )));
    assert_eq!(
        events.iter().map(Event::sequence).collect::<Vec<_>>(),
        (1..=events.len() as u64).collect::<Vec<_>>()
    );
    assert_eq!(saved(&actions), events);
}

#[test]
fn rejects_an_unknown_provider_model_pair_before_recording_it() {
    let mut session = Session::open("s".to_owned(), true, Vec::new());
    let actions = session.step(SessionInput::AppendMessage(pending("alice", "hello agent")), 1);
    assert!(matches!(actions.as_slice(), [SessionAction::CheckModel(_)]));
    let actions = session.step(SessionInput::ModelChecked(Some("unknown model".to_owned())), 1);
    assert!(matches!(
        actions.as_slice(),
        [SessionAction::Refuse(SessionError::InvalidModel(error))] if error == "unknown model"
    ));
    assert!(session.log.is_empty());
}

#[test]
fn a_busy_session_refuses_a_second_message() {
    let mut session = Session::open("s".to_owned(), true, Vec::new());
    drive(
        &mut session,
        SessionInput::AppendMessage(pending("alice", "one")),
        1,
    );
    let actions = drive(
        &mut session,
        SessionInput::AppendMessage(pending("bob", "two")),
        2,
    );
    assert!(matches!(
        actions.as_slice(),
        [SessionAction::Refuse(SessionError::Busy)]
    ));
    assert_eq!(session.log.len(), 2);
}

#[test]
fn events_of_other_runs_are_ignored() {
    let mut session = Session::open("s".to_owned(), true, Vec::new());
    drive(
        &mut session,
        SessionInput::AppendMessage(pending("alice", "one")),
        1,
    );
    let actions = drive(
        &mut session,
        SessionInput::AgentEvent {
            run_id: "stale".to_owned(),
            event: AgentEvent::Completed,
        },
        2,
    );
    assert!(actions.is_empty());
    assert_eq!(session.log.len(), 2);
}

#[test]
fn a_failing_disk_is_told() {
    let mut session = Session::open("s".to_owned(), false, Vec::new());
    let actions = session.step(SessionInput::AppendMessage(pending("a", "x")), 1);
    assert!(matches!(actions.as_slice(), [SessionAction::Save(_)]));
    let actions = session.step(SessionInput::Saved(Some("disk full".to_owned())), 1);
    assert!(actions.iter().any(|action| matches!(
        action,
        SessionAction::Refuse(SessionError::Io(error)) if error == "disk full"
    )));
    assert!(session.log.is_empty());
}

#[test]
fn every_run_ends_exactly_once() {
    let mut relay = RunRelay::new();
    relay.pass(&AgentEvent::AssistantTextDelta("x".to_owned()));
    assert!(matches!(relay.close(), Some(AgentEvent::Failed(_))));
    relay.pass(&AgentEvent::Completed);
    assert_eq!(relay.close(), None);
}

fn message(sequence: u64, session: &str) -> Event {
    Event::Message {
        session_id: session.to_owned(),
        sequence,
        client_id: "c".to_owned(),
        model: ModelRef {
            provider: "p".to_owned(),
            id: "m".to_owned(),
        },
        text: format!("m{sequence}"),
        created_at_ms: 0,
    }
}

#[test]
fn logs_are_loaded_in_order_or_refused() {
    let events = load_events("s", vec![Ok(message(1, "s")), Ok(message(2, "s"))]).unwrap();
    assert_eq!(events.len(), 2);
    assert_eq!(next_sequence(&events), 3);
    assert!(load_events("s", vec![Ok(message(2, "s"))]).is_err());
    assert!(load_events("s", vec![Ok(message(1, "other"))]).is_err());
    let error = load_events("s", vec![Ok(message(1, "s")), Err("bad json".to_owned())]).unwrap_err();
    assert!(error.message().contains("bad json"), "{}", error.message());
}

#[test]
fn the_history_holds_messages_answers_and_results() {
    let call = ToolCall {
        id: "c".to_owned(),
        name: "read_file".to_owned(),
        arguments: "{}".to_owned(),
    };
    let result = ToolResult {
        tool_call_id: "c".to_owned(),
        content: "ok".to_owned(),
        is_error: false,
    };
    let events = vec![
        message(1, "s"),
        Event::AssistantTextDelta {
            session_id: "s".to_owned(),
            sequence: 2,
            run_id: "r".to_owned(),
            text: "chec".to_owned(),
            created_at_ms: 0,
        },
        Event::AssistantMessage {
            session_id: "s".to_owned(),
            sequence: 3,
            run_id: "r".to_owned(),
            text: "checking".to_owned(),
            tool_calls: vec![call.clone()],
            created_at_ms: 0,
        },
        Event::ToolCallCompleted {
            session_id: "s".to_owned(),
            sequence: 4,
            run_id: "r".to_owned(),
            result: result.clone(),
            created_at_ms: 0,
        },
    ];
    assert_eq!(
        model_history(&events),
        vec![
            ModelMessage::User {
                content: "m1".to_owned()
            },
            ModelMessage::Assistant {
                content: "checking".to_owned(),
                tool_calls: vec![call],
            },
            ModelMessage::Tool(result),
        ]
    );
}

#[test]
fn session_errors_have_messages() {
    assert_eq!(
        SessionError::Busy.message(),
        "the session agent is already running"
    );
    assert_eq!(SessionError::InvalidModel("x".to_owned()).message(), "x");
    assert_eq!(SessionError::Io("disk".to_owned()).message(), "disk");
    assert!(!SessionError::Closed.message().is_empty());
}

#[test]
fn a_written_log_is_read_back() {
    let entries = ["{\"a\":1}", "", "{\"b\":\"\\n\"}"];
    let contents: String = entries.iter().map(|entry| log_entry(entry)).collect();
    assert_eq!(contents, "{\"a\":1}\n\n{\"b\":\"\\n\"}\n");
    assert_eq!(log_entries(&contents), entries);
    assert!(log_entries("").is_empty());
}
