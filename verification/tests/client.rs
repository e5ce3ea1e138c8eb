//! The client of the runtime.

use nexa::client::{
    accepted_protocol, accepted_response, take_event, ClientError, EventReader, FrameRead, NexaClient, RequestBody,
};
use nexa::protocol::{
    Command, ModelRef, ReasoningEffort, WorkspaceRequest, PROTOCOL_VERSION,
};
use serde_json::Value;

fn event(data: &str) -> Value {
    serde_json::from_str::<Value>(data).unwrap()
}

#[test]
fn decodes_an_event_without_exposing_sse_metadata() {
    let mut buffer = "id: 3\nevent: message\ndata: {\"type\":\"run_completed\",\"sessionId\":\"local\",\"sequence\":3,\"runId\":\"run-1\",\"createdAtMs\":1}\n\n"
        .as_bytes()
        .to_vec();

    let FrameRead::Data(data) = take_event(&mut buffer).unwrap() else {
        panic!("expected a complete event");
    };
    assert!(event(&data)["type"] == "run_completed" && event(&data)["sequence"] == 3);
    assert!(buffer.is_empty());
}

#[test]
fn waits_for_a_complete_frame() {
    let mut buffer = b"data: {\"type\":\"run_completed\"}".to_vec();
    assert!(matches!(
        take_event(&mut buffer).unwrap(),
        FrameRead::Incomplete
    ));
    assert!(!buffer.is_empty());
}

#[test]
fn waits_for_a_complete_utf8_frame_before_decoding_it() {
    let frame = "data: {\"type\":\"assistant_text_delta\",\"sessionId\":\"local\",\"sequence\":1,\"runId\":\"run-1\",\"text\":\"olá\",\"createdAtMs\":1}\n\n"
        .as_bytes();
    let split = frame.iter().position(|byte| *byte == 0xc3).unwrap() + 1;
    let mut buffer = frame[..split].to_vec();

    assert!(matches!(
        take_event(&mut buffer).unwrap(),
        FrameRead::Incomplete
    ));
    buffer.extend_from_slice(&frame[split..]);
    let FrameRead::Data(data) = take_event(&mut buffer).unwrap() else {
        panic!("expected a complete event");
    };

    assert!(event(&data)["type"] == "assistant_text_delta" && event(&data)["text"] == "olá");
}

#[test]
fn skips_a_keep_alive_without_waiting_for_another_chunk() {
    let mut buffer = ": keep-alive\n\ndata: {\"type\":\"run_completed\",\"sessionId\":\"local\",\"sequence\":3,\"runId\":\"run-1\",\"createdAtMs\":1}\n\n"
        .as_bytes()
        .to_vec();

    assert!(matches!(
        take_event(&mut buffer).unwrap(),
        FrameRead::Skipped
    ));
    let FrameRead::Data(data) = take_event(&mut buffer).unwrap() else {
        panic!("expected the buffered event after the keep-alive");
    };
    assert!(event(&data)["type"] == "run_completed" && event(&data)["sequence"] == 3);
    assert!(buffer.is_empty());
}

#[test]
fn pieces_of_a_stream_give_the_same_events() {
    let stream = ": keep-alive\n\ndata: one\n\nid: 2\ndata: two\ndata: lines\n\n".as_bytes();
    for size in 1..stream.len() {
        let mut reader = EventReader::default();
        let mut events = Vec::new();
        for piece in stream.chunks(size) {
            reader.push(piece);
            while let Some(data) = reader.next_data().unwrap() {
                events.push(data);
            }
        }
        assert_eq!(events, vec!["one", "two\nlines"], "pieces of {size}");
    }
}

#[test]
fn invalid_utf8_is_an_error() {
    let mut reader = EventReader::default();
    reader.push(b"data: \xff\n\ndata: next\n\n");
    let error = reader.next_data().unwrap_err();
    assert_eq!(
        error.message(),
        "runtime sent invalid UTF-8: invalid utf-8 sequence of 1 bytes from index 6"
    );
    assert_eq!(reader.next_data().unwrap().as_deref(), Some("next"));
}

#[test]
fn requests_go_to_the_server_and_carry_the_token() {
    let mut client = NexaClient::new("http://host//".to_owned(), "cli-1".to_owned())
        .with_token("secret".to_owned());
    let request = client.providers();
    assert_eq!(request.url, "http://host/providers");
    assert_eq!(request.token.as_deref(), Some("secret"));
    assert!(!request.post && request.bounded && request.body.is_none());
    assert_eq!(client.presets().url, "http://host/presets");
    let request = client.create_session("/w".to_owned());
    assert_eq!(request.url, "http://host/sessions/create");
    assert!(request.post);
    assert!(matches!(
        request.body,
        Some(RequestBody::Workspace(WorkspaceRequest { workspace })) if workspace == "/w"
    ));
    assert_eq!(
        client.list_sessions("/w".to_owned()).url,
        "http://host/sessions/list"
    );
    assert_eq!(
        client.open_workspace("/w".to_owned()).url,
        "http://host/sessions/open"
    );

    assert!(!client.has_session());
    assert_eq!(
        client.subscribe().unwrap_err(),
        ClientError::SessionNotSelected
    );
    let model = || ModelRef {
        provider: "p".to_owned(),
        id: "m".to_owned(),
    };
    assert!(client
        .send_message(model(), None, None, "hi".to_owned())
        .is_err());
    client.select_session("s-1");
    let request = client.subscribe().unwrap();
    assert_eq!(request.url, "http://host/sessions/s-1/events");
    assert!(!request.bounded);
    let request = client
        .send_message(
            model(),
            Some("review".to_owned()),
            Some(ReasoningEffort::Low),
            "hi".to_owned(),
        )
        .unwrap();
    assert_eq!(request.url, "http://host/commands");
    let Some(RequestBody::Command(Command::SendMessage {
        session_id,
        client_id,
        preset,
        text,
        ..
    })) = request.body
    else {
        panic!("expected a command");
    };
    assert_eq!(
        (session_id.as_str(), client_id.as_str(), preset.as_deref(), text.as_str()),
        ("s-1", "cli-1", Some("review"), "hi")
    );
    client.clear_session();
    assert!(client.subscribe().is_err());
    assert!(client.with_session("t".to_owned()).has_session());
}

#[test]
fn rejections_tell_status_and_body() {
    assert!(accepted_response(201, "201 Created".to_owned(), Ok(String::new())).is_ok());
    let error = accepted_response(404, "404 Not Found".to_owned(), Ok("gone".to_owned())).unwrap_err();
    assert_eq!(
        error.message(),
        "runtime rejected the request (404 Not Found): gone"
    );
    let error = accepted_response(500, "500 X".to_owned(), Err("reset".to_owned())).unwrap_err();
    assert_eq!(
        error.message(),
        "runtime rejected the request (500 X): could not read response: reset"
    );
}

#[test]
fn errors_have_messages() {
    assert_eq!(
        ClientError::InvalidEvent("eof".to_owned()).message(),
        "invalid runtime event: eof"
    );
    assert_eq!(
        ClientError::SessionNotSelected.message(),
        "no Nexa session is selected"
    );
    assert_eq!(
        ClientError::StreamClosed.message(),
        "runtime event stream closed"
    );
    let refused = ClientError::Http {
        error: "refused".to_owned(),
        connect: true,
    };
    assert!(refused.is_connect());
    assert_eq!(refused.message(), "refused");
    assert!(!ClientError::StreamClosed.is_connect());
}

#[test]
fn older_servers_are_refused() {
    assert_eq!(accepted_protocol(Some(PROTOCOL_VERSION)), Ok(()));
    assert_eq!(accepted_protocol(Some(PROTOCOL_VERSION + 1)), Ok(()));
    assert_eq!(
        accepted_protocol(Some(1)).unwrap_err().message(),
        "the server speaks protocol 1; this client needs 2"
    );
    assert_eq!(
        accepted_protocol(None).unwrap_err().message(),
        "the server advertises no protocol; this client needs 2"
    );
}

#[test]
fn entries_are_read_back_one_by_one() {
    let mut reader = EventReader::default();
    reader.push("event: message\ndata: {\"é\":1}\nid: 1\n\nevent: message\ndata: [2]\nid: 2\n\n".as_bytes());
    assert_eq!(reader.next_data().unwrap().as_deref(), Some("{\"é\":1}"));
    assert_eq!(reader.next_data().unwrap().as_deref(), Some("[2]"));
    assert_eq!(reader.next_data().unwrap(), None);
}
