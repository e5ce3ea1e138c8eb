//! The OpenAI-compatible provider.

use nexa::agent::{InferenceRequest, ProviderEvent};
use nexa::config::{
    AuthStyle, CredentialFile, ModelEntry, ProviderConfig, ProviderCredential, ProviderFile,
};
use nexa::json::Json;
use nexa::openai::{
    discovered_models, invalid_listing, key_order, listing_failure, models_url, provider_failure,
    reported_reasoning_efforts, request_body, sorted_models, ModelInfo, ModelListing,
    ModelListingEntry, ProviderRegistry, ProviderStream, StreamChoice, StreamChunk,
    StreamFunctionDelta, StreamToolCallDelta,
};
use nexa::protocol::{
    ApiFormat, ModelMessage, ModelRef, ReasoningEffort, ToolCall, ToolResult,
};
use nexa::sse::SseDecoder;
use nexa::table::Table;
use nexa::tools::ToolDefinition;
use serde_json::Value;

#[test]
fn decodes_split_crlf_frames() {
    let mut decoder = SseDecoder::default();
    decoder.push(b"data: {\"choices\":[]}");
    assert!(decoder.next_payload().unwrap().is_none());
    decoder.push(b"\r\n\r\ndata: [DONE]\r\n\r\n");
    assert_eq!(
        decoder.next_payload().unwrap().as_deref(),
        Some("{\"choices\":[]}")
    );
    assert_eq!(decoder.next_payload().unwrap().as_deref(), Some("[DONE]"));
}

#[test]
fn the_rest_of_a_stream_counts_as_a_frame() {
    let mut decoder = SseDecoder::default();
    decoder.push(b"data: one\n\ndata: two");
    assert_eq!(decoder.finish().unwrap(), vec!["one", "two"]);
    assert!(decoder.buffer.is_empty());
    decoder.push(b"data: one\n\n: comment\n\ndata: two\n\nrest");
    assert!(decoder.finish().is_err());
    assert_eq!(decoder.buffer, b"data: two\n\nrest");
    decoder = SseDecoder::default();
    decoder.push(b"data: one\n\nrest");
    assert!(decoder.finish().is_err());
    assert!(decoder.buffer.is_empty());
    decoder.push(b"data: \xff\n\n");
    assert!(decoder
        .next_payload()
        .unwrap_err()
        .starts_with("provider stream was not UTF-8: "));
    decoder.push(b": comment\n\n");
    assert_eq!(
        decoder.next_payload().unwrap_err(),
        "provider stream event contained no data"
    );
}

fn text(id: &str) -> Json {
    Json::Text(id.to_owned())
}

fn listed(id: &str, extra: Vec<(&str, Json)>) -> ModelListingEntry {
    ModelListingEntry::Identified {
        id: id.to_owned(),
        extra: extra
            .into_iter()
            .map(|(key, value)| (key.to_owned(), value))
            .collect(),
    }
}

#[test]
fn discovers_sorted_unique_model_ids() {
    let models = discovered_models(&ModelListing {
        data: vec![
            listed("b-model", Vec::new()),
            listed("", Vec::new()),
            listed("a-model", Vec::new()),
            ModelListingEntry::Named("c-model".to_owned()),
            listed("a-model", Vec::new()),
        ],
    });
    let info = |id: &str| ModelInfo {
        id: id.to_owned(),
        reasoning_efforts: None,
    };
    assert_eq!(
        models,
        vec![info("a-model"), info("b-model"), info("c-model")]
    );
    assert_eq!(models_url("http://host/v1/"), "http://host/v1/models");
}

#[test]
fn discovers_reasoning_capabilities_from_listing_extensions() {
    let models = discovered_models(&ModelListing {
        data: vec![
            listed(
                "glm-5",
                vec![(
                    "supported_parameters",
                    Json::List(vec![text("temperature"), text("reasoning_effort")]),
                )],
            ),
            listed(
                "litellm-model",
                vec![(
                    "supported_openai_params",
                    Json::List(vec![text("reasoning_effort"), text("max_tokens")]),
                )],
            ),
            listed(
                "enumerated",
                vec![(
                    "supported_reasoning_efforts",
                    Json::List(vec![text("xhigh"), text("low"), text("banana")]),
                )],
            ),
            listed("plain", Vec::new()),
        ],
    });
    assert_eq!(models[0].id, "enumerated");
    assert_eq!(
        models[0].reasoning_efforts,
        Some(vec![ReasoningEffort::Low, ReasoningEffort::XHigh])
    );
    assert_eq!(
        models[1].reasoning_efforts,
        Some(ReasoningEffort::COMMON.to_vec())
    );
    assert_eq!(
        models[2].reasoning_efforts,
        Some(ReasoningEffort::COMMON.to_vec())
    );
    assert_eq!(models[3].id, "plain");
    assert_eq!(models[3].reasoning_efforts, None);

    let models = discovered_models(&ModelListing {
        data: vec![
            listed("flagged", vec![("supports_reasoning", Json::Bool(true))]),
            listed(
                "thinking-local",
                vec![(
                    "capabilities",
                    Json::Object(vec![
                        ("vision".to_owned(), Json::Bool(false)),
                        ("reasoning".to_owned(), Json::Bool(true)),
                    ]),
                )],
            ),
        ],
    });
    assert_eq!(
        models[0].reasoning_efforts,
        Some(ReasoningEffort::COMMON.to_vec())
    );
    assert_eq!(
        models[1].reasoning_efforts,
        Some(ReasoningEffort::COMMON.to_vec())
    );
}

#[test]
fn unrecognizable_levels_stand_for_the_common_ones() {
    let banana = || Json::List(vec![text("banana")]);
    for (field, other) in [
        ("reasoning_efforts", "supported_reasoning_efforts"),
        ("supported_reasoning_efforts", "reasoning_efforts"),
    ] {
        let member = |key: &str, value: Json| (key.to_owned(), value);
        assert_eq!(
            reported_reasoning_efforts(&vec![member(field, banana())]),
            Some(ReasoningEffort::COMMON.to_vec())
        );
        assert_eq!(
            reported_reasoning_efforts(&vec![member(field, Json::List(Vec::new()))]),
            Some(ReasoningEffort::COMMON.to_vec())
        );
        assert_eq!(
            reported_reasoning_efforts(&vec![
                member(field, banana()),
                member(other, Json::List(vec![text("high"), text("banana"), text("low")])),
            ]),
            Some(vec![ReasoningEffort::Low, ReasoningEffort::High])
        );
        assert_eq!(reported_reasoning_efforts(&vec![member(field, text("low"))]), None);
    }
    let models = discovered_models(&ModelListing {
        data: vec![listed("gpt-5.1", vec![("reasoning_efforts", banana())])],
    });
    assert_eq!(
        models[0].reasoning_efforts,
        Some(ReasoningEffort::COMMON.to_vec())
    );
}

#[test]
fn surfaces_model_listing_failures() {
    let error = listing_failure("401 Unauthorized", "");
    assert!(error.contains("401"), "unexpected error: {error}");
    assert!(provider_failure("500 X", "oops").contains("oops"));
    assert!(invalid_listing("eof").contains("eof"));
}

fn request(effort: Option<ReasoningEffort>, tools: Vec<ToolDefinition>) -> InferenceRequest {
    InferenceRequest {
        model: ModelRef {
            provider: "test-provider".to_owned(),
            id: "test-model".to_owned(),
        },
        reasoning_effort: effort,
        messages: vec![ModelMessage::User {
            content: "hi \"there\"\n".to_owned(),
        }],
        tools,
    }
}

fn body(request: &InferenceRequest) -> Value {
    serde_json::from_str::<Value>(&request_body(request)).unwrap()
}

#[test]
fn sends_reasoning_effort_when_requested() {
    let value = body(&request(Some(ReasoningEffort::XHigh), Vec::new()));
    assert_eq!(value["reasoning_effort"], "xhigh");
    assert_eq!(value["reasoning"]["effort"], "xhigh");
    assert_eq!(value["allowed_openai_params"][0], "reasoning_effort");
    let value = body(&request(None, Vec::new()));
    assert!(value.get("reasoning_effort").is_none());
    assert_eq!(value["model"], "test-model");
    assert_eq!(value["stream"], true);
    assert_eq!(value["messages"][0]["role"], "user");
    assert_eq!(value["messages"][0]["content"], "hi \"there\"\n");
}

#[test]
fn messages_and_tools_are_written_as_json() {
    let call = ToolCall {
        id: "call-1".to_owned(),
        name: "read_file".to_owned(),
        arguments: "{\"path\":\"a\"}".to_owned(),
    };
    let mut with_tools = request(
        None,
        vec![ToolDefinition {
            name: "read_file".to_owned(),
            description: "Read a file".to_owned(),
            input_schema: "{\"type\":\"object\"}".to_owned(),
        }],
    );
    with_tools.messages.push(ModelMessage::Assistant {
        content: String::new(),
        tool_calls: vec![call],
    });
    with_tools.messages.push(ModelMessage::Tool(ToolResult {
        tool_call_id: "call-1".to_owned(),
        content: "ok".to_owned(),
        is_error: false,
    }));
    let value = body(&with_tools);
    assert_eq!(value["tools"][0]["function"]["name"], "read_file");
    assert_eq!(value["tools"][0]["function"]["parameters"]["type"], "object");
    let assistant = &value["messages"][1];
    assert_eq!(assistant["role"], "assistant");
    assert_eq!(assistant["tool_calls"][0]["id"], "call-1");
    assert_eq!(
        assistant["tool_calls"][0]["function"]["arguments"],
        "{\"path\":\"a\"}"
    );
    assert_eq!(value["messages"][2]["role"], "tool");
    assert_eq!(value["messages"][2]["tool_call_id"], "call-1");
}

fn chunk(content: Option<&str>, call: Option<(Option<&str>, Option<&str>, &str)>) -> StreamChunk {
    StreamChunk {
        choices: vec![StreamChoice {
            content: content.map(str::to_owned),
            tool_calls: call
                .map(|(id, name, arguments)| {
                    vec![StreamToolCallDelta {
                        index: 0,
                        id: id.map(str::to_owned),
                        function: Some(StreamFunctionDelta {
                            name: name.map(str::to_owned),
                            arguments: Some(arguments.to_owned()),
                        }),
                    }]
                })
                .unwrap_or_default(),
        }],
    }
}

#[test]
fn translates_streamed_text_and_tool_calls() {
    let mut stream = ProviderStream::new();
    let mut events = Vec::new();
    for part in [
        chunk(Some("checking"), None),
        chunk(
            None,
            Some((Some("call-1"), Some("read_file"), "{\"path\":")),
        ),
        chunk(None, Some((None, None, "\"notes.txt\"}"))),
    ] {
        let output = stream.handle_payload("{}", Ok(part));
        assert!(!output.ended);
        events.extend(output.items);
    }
    let output = stream.handle_payload("[DONE]", Err("unused".to_owned()));
    assert!(output.ended);
    events.extend(output.items);
    assert_eq!(
        events,
        vec![
            Ok(ProviderEvent::TextDelta("checking".to_owned())),
            Ok(ProviderEvent::ToolCall(ToolCall {
                id: "call-1".to_owned(),
                name: "read_file".to_owned(),
                arguments: r#"{"path":"notes.txt"}"#.to_owned(),
            })),
            Ok(ProviderEvent::Completed),
        ]
    );
}

#[test]
fn unreadable_chunks_end_the_stream() {
    let mut stream = ProviderStream::new();
    let output = stream.handle_payload("nonsense", Err("eof".to_owned()));
    assert!(output.ended);
    assert!(matches!(output.items.as_slice(), [Err(error)] if error.contains("eof")));
}

fn registry() -> ProviderRegistry {
    let config = |env: Option<&str>, url: &str| ProviderConfig {
        name: "Name".to_owned(),
        base_url: url.to_owned(),
        api_format: ApiFormat::ChatCompletions,
        models: vec![
            ModelEntry::Plain("shared".to_owned()),
            ModelEntry::Detailed {
                id: "thinker".to_owned(),
                reasoning_efforts: Some(vec![ReasoningEffort::Low]),
            },
        ],
        api_key_env: env.map(str::to_owned),
        auth: AuthStyle::Bearer,
    };
    let mut providers = Table::new();
    providers.put("one".to_owned(), config(Some("ONE_KEY"), "http://one/v1/"));
    providers.put("two".to_owned(), config(None, "http://two"));
    let mut keys = Table::new();
    keys.put(
        "one".to_owned(),
        ProviderCredential {
            api_key: "stored".to_owned(),
        },
    );
    ProviderRegistry::with_credentials(
        &ProviderFile { providers },
        &CredentialFile { providers: keys },
    )
    .unwrap()
}

fn model(provider: &str, id: &str) -> ModelRef {
    ModelRef {
        provider: provider.to_owned(),
        id: id.to_owned(),
    }
}

#[test]
fn providers_may_share_models() {
    let registry = registry();
    assert_eq!(registry.model_count(), 4);
    assert!(registry.validate_model(&model("one", "shared")).is_ok());
    assert!(registry.validate_model(&model("two", "shared")).is_ok());
    assert!(registry.validate_model(&model("three", "shared")).is_err());
    assert!(registry.validate_model(&model("one", "gone")).is_err());
    let catalog = registry.catalog();
    assert_eq!(catalog.len(), 2);
    assert_eq!(catalog[0].id, "one");
    assert_eq!(
        catalog[0].models[1].reasoning_efforts,
        Some(vec![ReasoningEffort::Low])
    );
}

#[test]
fn the_environment_comes_before_stored_keys() {
    let registry = registry();
    assert_eq!(registry.key_variable("one").as_deref(), Some("ONE_KEY"));
    assert_eq!(registry.key_variable("two"), None);
    let target = registry
        .target(&model("one", "shared"), Some("from-env".to_owned()))
        .unwrap();
    assert_eq!(target.endpoint, "http://one/v1/chat/completions");
    assert_eq!(target.api_key.as_deref(), Some("from-env"));
    let target = registry.target(&model("one", "shared"), None).unwrap();
    assert_eq!(target.api_key.as_deref(), Some("stored"));
    let target = registry.target(&model("two", "shared"), None).unwrap();
    assert_eq!(target.api_key, None);
}

#[test]
fn keys_are_ordered_and_the_first_of_equal_ones_stays() {
    let keys: Vec<String> = ["beta", "alpha", "beta", "", "alphabet", "alpha"]
        .iter()
        .map(|key| (*key).to_owned())
        .collect();
    assert_eq!(key_order(&keys), vec![3, 1, 4, 0]);
    assert_eq!(key_order(&vec![]), Vec::<usize>::new());
}

#[test]
fn models_are_sorted_without_regard_to_case() {
    let model = |id: &str| ModelInfo {
        id: id.to_owned(),
        reasoning_efforts: None,
    };
    let sorted = sorted_models(vec![model("b"), model("C"), model("a"), model("c"), model("B")]);
    assert_eq!(sorted, vec![model("a"), model("b"), model("C")]);
}

#[test]
fn request_texts_are_escaped() {
    let body = request_body(&InferenceRequest {
        model: ModelRef {
            provider: "local".to_owned(),
            id: "a\"b\\c".to_owned(),
        },
        reasoning_effort: None,
        messages: vec![ModelMessage::User {
            content: "\u{8}\t\n\u{c}\r\u{1}\u{1f}\u{7f}é/".to_owned(),
        }],
        tools: vec![],
    });
    assert!(body.contains("\"model\":\"a\\\"b\\\\c\""));
    assert!(body.contains("\"content\":\"\\b\\t\\n\\f\\r\\u0001\\u001f\u{7f}é/\""));
}
