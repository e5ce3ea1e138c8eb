//! Reading a provider's answer.

use nexa::agent::ProviderEvent;
use nexa::openai::{StreamChoice, StreamChunk, StreamFunctionDelta, StreamToolCallDelta};
use nexa::protocol::ToolCall;
use nexa::response::{ResponseReader, StreamInput, StreamNext};

/// Decodes the payloads of these tests: `!` is bad, `call` a tool call, `half` a
/// part of one, anything else is text.
fn decode(payload: &str) -> Result<StreamChunk, String> {
    let tool_calls = match payload {
        "!" => return Err("bad".to_owned()),
        "call" | "half" => vec![StreamToolCallDelta {
            index: 0,
            id: Some("1".to_owned()),
            function: (payload == "call").then(|| StreamFunctionDelta {
                name: Some("read_file".to_owned()),
                arguments: Some("{}".to_owned()),
            }),
        }],
        _ => Vec::new(),
    };
    Ok(StreamChunk {
        choices: vec![StreamChoice {
            content: tool_calls.is_empty().then(|| payload.to_owned()),
            tool_calls,
        }],
    })
}

/// Reads an answer that arrives in some pieces, until it is over.
fn read(pieces: &[&[u8]]) -> Vec<Result<ProviderEvent, String>> {
    let mut reader = ResponseReader::new();
    let mut pieces = pieces.iter();
    let mut next = StreamNext::Read;
    let mut all = Vec::new();
    loop {
        let input = match next {
            StreamNext::Read => match pieces.next() {
                Some(piece) => StreamInput::Chunk(piece.to_vec()),
                None => StreamInput::End,
            },
            StreamNext::Decode(payload) => StreamInput::Decoded(decode(&payload)),
            StreamNext::Stop => return all,
        };
        let action = reader.step(input);
        all.extend(action.items);
        next = action.next;
    }
}

fn text(text: &str) -> Result<ProviderEvent, String> {
    Ok(ProviderEvent::TextDelta(text.to_owned()))
}

fn call() -> Result<ProviderEvent, String> {
    Ok(ProviderEvent::ToolCall(ToolCall {
        id: "1".to_owned(),
        name: "read_file".to_owned(),
        arguments: "{}".to_owned(),
    }))
}

#[test]
fn payloads_are_read_in_their_order() {
    let whole = vec![text("a"), text("b"), call(), Ok(ProviderEvent::Completed)];
    assert_eq!(
        read(&[b"data: a\n\ndata: ca", b"ll\n\ndata: b\n\n", b"data: [DONE]\n\ndata: c\n\n"]),
        whole
    );
    assert_eq!(read(&[b"data: a\n\ndata: call\n\ndata: b"]), whole);
    assert_eq!(read(&[]), vec![Ok(ProviderEvent::Completed)]);
}

#[test]
fn the_first_error_ends_an_answer() {
    assert_eq!(
        read(&[b"data: a\n\ndata: !\n\ndata: b\n\n"]),
        vec![
            text("a"),
            Err("invalid provider stream event: bad".to_owned())
        ]
    );
    assert_eq!(
        read(&[b"data: a\n\n: comment\n\ndata: b\n\n"]),
        vec![
            text("a"),
            Err("provider stream event contained no data".to_owned())
        ]
    );
    assert_eq!(
        read(&[b"data: half\n\n"]),
        vec![Err("provider returned an incomplete tool call".to_owned())]
    );
    assert_eq!(
        read(&[b"data: a\n\nrest"]),
        vec![
            text("a"),
            Err("provider stream event contained no data".to_owned())
        ]
    );
}

#[test]
fn a_broken_connection_ends_an_answer() {
    let mut reader = ResponseReader::new();
    let action = reader.step(StreamInput::Failed("reset".to_owned()));
    assert_eq!(action.items, vec![Err("reset".to_owned())]);
    assert_eq!(action.next, StreamNext::Stop);
    let action = reader.step(StreamInput::Chunk(b"data: a\n\n".to_vec()));
    assert!(action.items.is_empty());
    assert_eq!(action.next, StreamNext::Stop);
}

#[test]
fn foreign_input_is_left_alone() {
    let mut reader = ResponseReader::new();
    let action = reader.step(StreamInput::Decoded(decode("a")));
    assert!(action.items.is_empty());
    assert_eq!(action.next, StreamNext::Read);
    reader.step(StreamInput::Chunk(b"data: a\n\n".to_vec()));
    let action = reader.step(StreamInput::End);
    assert!(action.items.is_empty());
    assert_eq!(action.next, StreamNext::Decode("a".to_owned()));
}
