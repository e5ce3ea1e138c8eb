//! The local HTTP server.

use nexa::protocol::{
    ApiFormat, Command, ModelRef, ModelSummary, ProviderSummary, SessionInfo,
};
use nexa::registry::RegistryError;
use nexa::server::{
    accept_command, accept_workspace, append_response, authenticated, create_response,
    list_response, preset_catalog, provider_catalog, registry_error_response,
    require_token, sort_presets, stream_item, subscribe_refusal, Preset, Reply, ReplyBody, BAD_REQUEST, CONFLICT, CREATED,
    INTERNAL_SERVER_ERROR, NOT_FOUND, OK, UNAUTHORIZED,
};
use nexa::session::SessionError;

const TEST_TOKEN: &str = "test-local-server-token";

fn bearer() -> Option<String> {
    Some(format!("Bearer {TEST_TOKEN}"))
}

fn command(session: &str, text: &str, preset: Option<&str>) -> Command {
    Command::SendMessage {
        session_id: session.to_owned(),
        client_id: " alice ".to_owned(),
        model: ModelRef {
            provider: " p ".to_owned(),
            id: "m".to_owned(),
        },
        preset: preset.map(str::to_owned),
        reasoning_effort: None,
        text: text.to_owned(),
    }
}

fn presets() -> Vec<Preset> {
    vec![Preset {
        name: "review".to_owned(),
        tools: vec!["read_file".to_owned()],
    }]
}

fn error_of(reply: Reply) -> (u16, String) {
    match reply.body {
        ReplyBody::Error(error) => (reply.status, error),
        other => panic!("expected an error, got {other:?}"),
    }
}

#[test]
fn exposes_the_runtime_provider_catalog() {
    let catalog = vec![ProviderSummary {
        id: "deepseek".to_owned(),
        name: "DeepSeek".to_owned(),
        api_format: ApiFormat::ChatCompletions,
        models: vec![ModelSummary {
            id: "deepseek-chat".to_owned(),
            reasoning_efforts: None,
        }],
    }];
    let reply = provider_catalog(&bearer(), TEST_TOKEN, &catalog);
    assert_eq!(reply.status, OK);
    let ReplyBody::Providers(providers) = reply.body else {
        panic!("expected the providers");
    };
    assert_eq!(providers.len(), 1);
    assert_eq!(providers[0].id, "deepseek");
    assert_eq!(providers[0].models[0].id, "deepseek-chat");
}

#[test]
fn rejects_workspace_access_without_the_local_server_token() {
    let refusal = accept_workspace(&None, TEST_TOKEN, "/w").unwrap_err();
    assert_eq!(
        error_of(refusal),
        (
            UNAUTHORIZED,
            "local server authentication required".to_owned()
        )
    );
    for header in [
        "Bearer other",
        TEST_TOKEN,
        "bearer test-local-server-token",
        "Bearer test-local-server-token ",
    ] {
        assert!(!authenticated(&Some(header.to_owned()), TEST_TOKEN), "{header}");
    }
    assert!(authenticated(&bearer(), TEST_TOKEN));
    assert_eq!(
        provider_catalog(&None, TEST_TOKEN, &Vec::new()).status,
        UNAUTHORIZED
    );
    assert_eq!(
        preset_catalog(&None, TEST_TOKEN, &presets()).status,
        UNAUTHORIZED
    );
    assert_eq!(
        accept_command(&None, TEST_TOKEN, &presets(), Ok(command("s", "hi", None)))
            .unwrap_err()
            .status,
        UNAUTHORIZED
    );
}

#[test]
fn reports_corrupt_session_metadata_as_a_server_error() {
    let reply = registry_error_response(&RegistryError::InvalidMetadata("not json".to_owned()));
    assert_eq!(reply.status, INTERNAL_SERVER_ERROR);
    assert_eq!(
        registry_error_response(&RegistryError::NotFound("s".to_owned())).status,
        NOT_FOUND
    );
    assert_eq!(
        registry_error_response(&RegistryError::InvalidSessionId("s".to_owned())).status,
        BAD_REQUEST
    );
}

#[test]
fn commands_are_trimmed_and_scoped() {
    let accepted = accept_command(
        &bearer(),
        TEST_TOKEN,
        &presets(),
        Ok(command(" s ", " hi ", Some("review"))),
    )
    .unwrap();
    assert_eq!(accepted.session_id, "s");
    assert_eq!(accepted.message.client_id, "alice");
    assert_eq!(accepted.message.model.provider, "p");
    assert_eq!(accepted.message.text, "hi");
    assert_eq!(
        accepted.message.allowed_tools,
        Some(vec!["read_file".to_owned()])
    );
    let accepted = accept_command(
        &bearer(),
        TEST_TOKEN,
        &presets(),
        Ok(command("s", "hi", None)),
    )
    .unwrap();
    assert_eq!(accepted.message.allowed_tools, None);
}

#[test]
fn incomplete_commands_are_refused() {
    let refuse = |decoded| error_of(accept_command(&bearer(), TEST_TOKEN, &presets(), decoded).unwrap_err());
    assert_eq!(
        refuse(Err("bad json".to_owned())),
        (BAD_REQUEST, "bad json".to_owned())
    );
    assert_eq!(
        refuse(Ok(command("s", "hi", Some("nope")))),
        (NOT_FOUND, "unknown agent preset \"nope\"".to_owned())
    );
    for blank in [command(" ", "hi", None), command("s", " \n", None)] {
        assert_eq!(
            refuse(Ok(blank)),
            (
                BAD_REQUEST,
                "sessionId, clientId, model, and text must not be empty".to_owned()
            )
        );
    }
    let with_empty = vec![Preset {
        name: String::new(),
        tools: Vec::new(),
    }];
    let refusal = accept_command(
        &bearer(),
        TEST_TOKEN,
        &with_empty,
        Ok(command("s", "hi", Some(""))),
    )
    .unwrap_err();
    assert_eq!(
        error_of(refusal),
        (
            BAD_REQUEST,
            "preset must not be empty when provided".to_owned()
        )
    );
}

#[test]
fn outcomes_are_answered() {
    let reply = append_response(Ok(7));
    assert_eq!(reply.status, CREATED);
    assert!(matches!(
        reply.body,
        ReplyBody::Accepted(accepted) if accepted.accepted && accepted.sequence == 7
    ));
    assert_eq!(
        error_of(append_response(Err(SessionError::Busy))),
        (CONFLICT, "the session agent is already running".to_owned())
    );
    assert_eq!(
        error_of(append_response(Err(SessionError::InvalidModel(
            "no such model".to_owned()
        )))),
        (BAD_REQUEST, "no such model".to_owned())
    );
    assert_eq!(
        append_response(Err(SessionError::Closed)).status,
        INTERNAL_SERVER_ERROR
    );
    let info = SessionInfo {
        id: "s".to_owned(),
        workspace: "/w".to_owned(),
    };
    assert_eq!(create_response(Ok(info)).status, CREATED);
    assert_eq!(list_response(Ok(Vec::new())).status, OK);
    assert_eq!(
        list_response(Err(RegistryError::Io("disk".to_owned()))).status,
        INTERNAL_SERVER_ERROR
    );
    assert_eq!(
        error_of(accept_workspace(&bearer(), TEST_TOKEN, "  ").unwrap_err()),
        (BAD_REQUEST, "workspace must not be empty".to_owned())
    );
    assert!(accept_workspace(&bearer(), TEST_TOKEN, "/w").is_ok());
    assert_eq!(
        subscribe_refusal(&SessionError::Closed).status,
        INTERNAL_SERVER_ERROR
    );
}

#[test]
fn stream_entries_carry_their_sequence_number() {
    let item = stream_item(12, Ok("{}".to_owned()));
    assert_eq!(item.id.as_deref(), Some("12"));
    assert_eq!((item.event.as_str(), item.data.as_str()), ("message", "{}"));
    let item = stream_item(12, Err("no".to_owned()));
    assert_eq!(item.id, None);
    assert_eq!((item.event.as_str(), item.data.as_str()), ("error", "no"));
}

#[test]
fn presets_are_listed_by_name() {
    let preset = |name: &str| Preset {
        name: name.to_owned(),
        tools: Vec::new(),
    };
    let sorted = sort_presets(vec![preset("b"), preset("a"), preset("B"), preset("ab")]);
    let names: Vec<&str> = sorted.iter().map(|preset| preset.name.as_str()).collect();
    assert_eq!(names, vec!["B", "a", "ab", "b"]);
    let ReplyBody::Presets(listed) = preset_catalog(&bearer(), TEST_TOKEN, &presets()).body else {
        panic!("expected the presets");
    };
    assert_eq!(listed[0].name, "review");
    assert_eq!(listed[0].description, "");
    assert_eq!(listed[0].tools, vec!["read_file"]);
}

#[test]
fn only_the_whole_token_passes() {
    assert_eq!(require_token(&bearer(), TEST_TOKEN), Ok(()));
    for authorization in [
        None,
        Some(TEST_TOKEN.to_owned()),
        Some(format!("bearer {TEST_TOKEN}")),
        Some(format!("Bearer {TEST_TOKEN} ")),
        Some("Bearer ".to_owned()),
    ] {
        assert_eq!(
            require_token(&authorization, TEST_TOKEN).unwrap_err().status,
            UNAUTHORIZED
        );
    }
}

#[test]
fn presets_of_one_name_stay_in_their_order() {
    let preset = |name: &str, tool: &str| Preset {
        name: name.to_owned(),
        tools: vec![tool.to_owned()],
    };
    let sorted = sort_presets(vec![preset("b", "1"), preset("a", "2"), preset("b", "3"), preset("a", "4")]);
    let tools: Vec<&str> = sorted.iter().map(|preset| preset.tools[0].as_str()).collect();
    assert_eq!(tools, ["2", "4", "1", "3"]);
}
