//! Provider registry, credentials and settings.

use nexa::config::{
    auth_header, drawn_token, fresh_server_token, read_server_token, server_token,
    validate_provider, AuthStyle, CredentialFile, CredentialFileError, DefaultModel,
    DesktopSettings, ModelEntry, ModelsSettings, ProviderConfig, ProviderConfigError,
    ProviderCredential, ProviderFile, SettingsFile, SettingsFileError, SERVER_TOKEN_BYTES,
};
use nexa::protocol::{ApiFormat, ReasoningEffort};
use nexa::table::Table;

/// Reads the provider tables of a TOML text.
fn provider_file(text: &str) -> ProviderFile {
    let document = toml::from_str::<toml::Table>(text).unwrap();
    let mut providers = Table::new();
    for (id, entry) in document["providers"].as_table().unwrap() {
        let models = entry["models"]
            .as_array()
            .unwrap()
            .iter()
            .map(|model| match model.as_str() {
                Some(id) => ModelEntry::Plain(id.to_owned()),
                None => ModelEntry::Detailed {
                    id: model["id"].as_str().unwrap().to_owned(),
                    reasoning_efforts: model.get("reasoning_efforts").map(|levels| {
                        levels
                            .as_array()
                            .unwrap()
                            .iter()
                            .map(|level| ReasoningEffort::parse(level.as_str().unwrap()).unwrap())
                            .collect()
                    }),
                },
            })
            .collect();
        providers.put(
            id.clone(),
            ProviderConfig {
                name: entry["name"].as_str().unwrap().to_owned(),
                base_url: entry["base_url"].as_str().unwrap().to_owned(),
                api_format: ApiFormat::default(),
                models,
                api_key_env: None,
                auth: AuthStyle::default(),
            },
        );
    }
    ProviderFile { providers }
}

#[test]
fn remember_workspace_moves_existing_entries_to_the_front_and_caps_the_list() {
    let mut desktop = DesktopSettings::default();
    for index in 0..DesktopSettings::MAX_RECENT_WORKSPACES {
        desktop.remember_workspace(format!("/workspace-{index}"));
    }
    assert_eq!(
        desktop.recent_workspaces.len(),
        DesktopSettings::MAX_RECENT_WORKSPACES
    );

    desktop.remember_workspace("/workspace-0".to_owned());
    assert_eq!(desktop.recent_workspaces[0], "/workspace-0");
    assert_eq!(
        desktop.recent_workspaces.len(),
        DesktopSettings::MAX_RECENT_WORKSPACES
    );

    desktop.remember_workspace("/workspace-new".to_owned());
    assert_eq!(desktop.recent_workspaces[0], "/workspace-new");
    assert_eq!(
        desktop.recent_workspaces.len(),
        DesktopSettings::MAX_RECENT_WORKSPACES
    );
}

#[test]
fn reads_plain_string_model_entries_and_detailed_capability_entries() {
    let file = provider_file(
        r#"
            [providers.one]
            name = "One"
            base_url = "https://one.example/v1"
            models = ["plain-model"]

            [providers.two]
            name = "Two"
            base_url = "https://two.example/v1"
            models = ["shared-model"]

            [providers.three]
            name = "Three"
            base_url = "https://three.example/v1"

            [[providers.three.models]]
            id = "thinking-model"
            reasoning_efforts = ["low", "xhigh"]
        "#,
    );
    file.validated_providers().unwrap();

    let one = &file.providers.get("one").unwrap().models;
    assert_eq!(one[0].id(), "plain-model");
    assert_eq!(one[0].reasoning_efforts(), None);
    let three = &file.providers.get("three").unwrap().models;
    assert_eq!(
        three[0].reasoning_efforts(),
        Some([ReasoningEffort::Low, ReasoningEffort::XHigh].as_slice())
    );
}

#[test]
fn allows_two_providers_to_offer_the_same_model() {
    let file = provider_file(
        r#"
            [providers.one]
            name = "One"
            base_url = "https://one.example/v1"
            models = ["shared-model"]

            [providers.two]
            name = "Two"
            base_url = "https://two.example/v1"
            models = ["shared-model"]
        "#,
    );
    file.validated_providers().unwrap();
    for id in ["one", "two"] {
        assert!(file
            .providers
            .get(id)
            .unwrap()
            .models
            .iter()
            .any(|model| model.id() == "shared-model"));
    }
}

#[test]
fn roundtrips_the_desktop_settings_block() {
    let settings = SettingsFile {
        models: ModelsSettings::default(),
        desktop: DesktopSettings {
            active_workspace: Some("/home/user/project".to_owned()),
            default_preset: Some("read-only".to_owned()),
            recent_workspaces: vec![
                "/home/user/project".to_owned(),
                "/home/user/other".to_owned(),
            ],
        },
    };
    // Through the text of a settings.toml and back.
    let mut desktop = toml::Table::new();
    desktop.insert(
        "active_workspace".to_owned(),
        toml::Value::String(settings.desktop.active_workspace.clone().unwrap()),
    );
    desktop.insert(
        "default_preset".to_owned(),
        toml::Value::String(settings.desktop.default_preset.clone().unwrap()),
    );
    desktop.insert(
        "recent_workspaces".to_owned(),
        toml::Value::Array(
            settings
                .desktop
                .recent_workspaces
                .iter()
                .cloned()
                .map(toml::Value::String)
                .collect(),
        ),
    );
    let mut file = toml::Table::new();
    file.insert("desktop".to_owned(), toml::Value::Table(desktop));
    let text = toml::to_string(&file).unwrap();
    let read = toml::from_str::<toml::Table>(&text).unwrap();
    let block = &read["desktop"];
    let loaded = DesktopSettings {
        active_workspace: block["active_workspace"].as_str().map(str::to_owned),
        default_preset: block["default_preset"].as_str().map(str::to_owned),
        recent_workspaces: block["recent_workspaces"]
            .as_array()
            .unwrap()
            .iter()
            .map(|entry| entry.as_str().unwrap().to_owned())
            .collect(),
    };
    assert_eq!(
        loaded.active_workspace.as_deref(),
        Some("/home/user/project")
    );
    assert_eq!(loaded.default_preset.as_deref(), Some("read-only"));
    assert_eq!(
        loaded.recent_workspaces,
        vec![
            "/home/user/project".to_owned(),
            "/home/user/other".to_owned()
        ]
    );
    assert_eq!(loaded, settings.desktop);
}

#[test]
fn default_models_are_written_with_a_slash() {
    let model = DefaultModel {
        provider: "local".to_owned(),
        model: "org/grok-code-fast-1".to_owned(),
    };
    assert_eq!(model.display(), "local/org/grok-code-fast-1");
    assert_eq!(DefaultModel::parse(&model.display()).unwrap(), model);
}

#[test]
fn rejects_default_model_entries_without_a_provider_prefix() {
    assert!(DefaultModel::parse("grok-code-fast-1").is_err());
}

#[test]
fn keeps_credentials_apart_from_providers() {
    let mut providers = Table::new();
    providers.put(
        "deepseek".to_owned(),
        ProviderCredential {
            api_key: "secret-key".to_owned(),
        },
    );
    providers.put(
        "blank".to_owned(),
        ProviderCredential {
            api_key: "  ".to_owned(),
        },
    );
    let credentials = CredentialFile { providers };
    assert_eq!(credentials.api_key("deepseek"), Some("secret-key"));
    assert_eq!(credentials.api_key("blank"), None);
    assert_eq!(credentials.api_key("other"), None);
}

fn provider() -> ProviderConfig {
    ProviderConfig {
        name: "DeepSeek".to_owned(),
        base_url: "https://api.example/v1".to_owned(),
        api_format: ApiFormat::ChatCompletions,
        models: vec![ModelEntry::Plain("deepseek-chat".to_owned())],
        api_key_env: None,
        auth: AuthStyle::Bearer,
    }
}

#[test]
fn incomplete_providers_are_refused() {
    assert!(validate_provider("deepseek", &provider()).is_ok());
    assert!(validate_provider(" ", &provider()).is_err());
    let mut broken = provider();
    broken.base_url = " ".to_owned();
    let error = validate_provider("deepseek", &broken).unwrap_err();
    assert!(error.message().contains("base_url must not be empty"));
    let mut broken = provider();
    broken.models = Vec::new();
    assert!(validate_provider("deepseek", &broken).is_err());
    let mut broken = provider();
    broken.models.push(ModelEntry::Plain("\t".to_owned()));
    assert!(validate_provider("deepseek", &broken).is_err());
    let mut broken = provider();
    broken.name = String::new();
    assert!(validate_provider("deepseek", &broken).is_err());
    let mut providers = Table::new();
    providers.put("x".to_owned(), broken);
    assert!(ProviderFile { providers }.validated_providers().is_err());
}

#[test]
fn keys_go_into_one_header() {
    let key = Some("k".to_owned());
    assert_eq!(
        auth_header(&key, AuthStyle::Bearer),
        Some(("authorization".to_owned(), "Bearer k".to_owned()))
    );
    assert_eq!(
        auth_header(&key, AuthStyle::XApiKey),
        Some(("x-api-key".to_owned(), "k".to_owned()))
    );
    assert_eq!(auth_header(&None, AuthStyle::Bearer), None);
    assert_eq!(AuthStyle::Bearer.alternate(), AuthStyle::XApiKey);
    assert_eq!(AuthStyle::XApiKey.alternate(), AuthStyle::Bearer);
}

#[test]
fn server_tokens_are_random_hexadecimal() {
    assert_eq!(server_token(&[0, 15, 255]), "000fff");
    assert_eq!(drawn_token(Ok(vec![0, 15, 255])), Ok("000fff".to_owned()));
    assert_eq!(drawn_token(Err("no entropy".to_owned())), Err("no entropy".to_owned()));
    let first = fresh_server_token().unwrap();
    let second = fresh_server_token().unwrap();
    assert_eq!(first.len(), SERVER_TOKEN_BYTES * 2);
    assert!(first.chars().all(|c| c.is_ascii_hexdigit()));
    assert_ne!(first, second);
    assert_eq!(read_server_token(" abc\n").unwrap(), "abc");
    assert!(read_server_token(" \n").is_err());
}

#[test]
fn file_errors_have_messages() {
    for message in [
        ProviderConfigError::Read("x".to_owned()).message(),
        ProviderConfigError::Write("x".to_owned()).message(),
        ProviderConfigError::Parse("x".to_owned()).message(),
        ProviderConfigError::Serialize("x".to_owned()).message(),
        ProviderConfigError::InvalidProvider {
            name: "n".to_owned(),
            reason: "x".to_owned(),
        }
        .message(),
        CredentialFileError::Read("x".to_owned()).message(),
        CredentialFileError::Write("x".to_owned()).message(),
        CredentialFileError::Parse("x".to_owned()).message(),
        CredentialFileError::Serialize("x".to_owned()).message(),
        SettingsFileError::Read("x".to_owned()).message(),
        SettingsFileError::Write("x".to_owned()).message(),
        SettingsFileError::Parse("x".to_owned()).message(),
        SettingsFileError::Serialize("x".to_owned()).message(),
    ] {
        assert!(message.ends_with('x'), "{message}");
        assert!(message.len() > 1);
    }
}

#[test]
fn recent_workspaces_go_by_their_last_use() {
    let mut desktop = DesktopSettings::default();
    for workspace in ["/a", "/b", "/a", "/c", "/c", "/b"] {
        desktop.remember_workspace(workspace.to_owned());
    }
    assert_eq!(desktop.recent_workspaces, ["/b", "/c", "/a"]);
    for index in 0..DesktopSettings::MAX_RECENT_WORKSPACES - 1 {
        desktop.remember_workspace(format!("/{index}"));
    }
    assert_eq!(
        desktop.recent_workspaces.len(),
        DesktopSettings::MAX_RECENT_WORKSPACES
    );
    assert_eq!(desktop.recent_workspaces[0], "/10");
    assert_eq!(desktop.recent_workspaces[11], "/b");
}
