//! The command line.

use nexa::cli::{
    added_message, added_provider, default_server_url, manual_models, needs_setup, parse_arguments,
    preferred_model, provider_id, provider_objection, required_answer, schemed_url,
    server_token_choice, settings_to_save, slug_text, CliCommand, Discovery, DiscoveryStep,
    Listing, ModelPicker, PickerOutcome, TokenChoice, Variable,
};
use nexa::config::{AuthStyle, DefaultModel, ModelEntry, SettingsFile};
use nexa::openai::ModelInfo;
use nexa::protocol::{ApiFormat, ModelRef, ReasoningEffort};
use nexa::tui::{Key, KeyCode};

fn words(list: &[&str]) -> Vec<String> {
    list.iter().map(|word| (*word).to_owned()).collect()
}

fn info(id: &str) -> ModelInfo {
    ModelInfo {
        id: id.to_owned(),
        reasoning_efforts: None,
    }
}

fn key(code: KeyCode) -> Key {
    Key {
        code,
        control: false,
        shift: false,
        other: false,
    }
}

#[test]
fn derives_a_stable_provider_id() {
    assert_eq!(provider_id("My DeepSeek API"), "my-deepseek-api");
    assert_eq!(provider_id("  Local / Qwen  "), "local-qwen");
}

#[test]
fn ids_fold_case_beyond_ascii() {
    // The Kelvin sign and the dotted capital I have ASCII letters in lowercase.
    assert_eq!(provider_id("\u{212a}\u{130}\u{c4}B"), "ki-b");
    assert_eq!(provider_id("日本"), "");
    assert_eq!(slug_text("--a--B9--"), "a-B9");
}

#[test]
fn the_id_of_an_id_is_itself() {
    for name in ["My DeepSeek API", "  Local / Qwen  ", "A--1", "", "x", "\u{212a}\u{130}ÄB", "ΣÉ z"] {
        let id = provider_id(name);
        assert_eq!(provider_id(&id), id);
        assert!(!id.chars().any(|c| c.is_ascii_uppercase()));
    }
}

#[test]
fn arguments_choose_the_command() {
    assert_eq!(parse_arguments(&words(&[])), CliCommand::Chat);
    assert_eq!(parse_arguments(&words(&["chat"])), CliCommand::Chat);
    assert_eq!(
        parse_arguments(&words(&["provider", "add"])),
        CliCommand::AddProvider
    );
    for flag in ["--help", "-h", "help"] {
        assert_eq!(parse_arguments(&words(&[flag])), CliCommand::Help);
    }
    assert_eq!(parse_arguments(&words(&["provider"])), CliCommand::Unknown);
    assert_eq!(
        parse_arguments(&words(&["chat", "now"])),
        CliCommand::Unknown
    );
    assert!(needs_setup(false, 0));
    assert!(!needs_setup(true, 0));
    assert!(!needs_setup(false, 1));
}

#[test]
fn answers_are_trimmed() {
    assert_eq!(required_answer(" a b \r\n").as_deref(), Some("a b"));
    assert_eq!(required_answer(" \n"), None);
}

#[test]
fn a_scheme_is_assumed() {
    assert_eq!(
        schemed_url("host/v1".to_owned()),
        ("http://host/v1".to_owned(), true)
    );
    assert_eq!(
        schemed_url("https://host".to_owned()),
        ("https://host".to_owned(), false)
    );
}

#[test]
fn typed_models_are_split_at_commas() {
    assert_eq!(
        manual_models(" a, ,b ,").unwrap(),
        vec![
            ModelEntry::Plain("a".to_owned()),
            ModelEntry::Plain("b".to_owned())
        ]
    );
    assert_eq!(
        manual_models(" , ").unwrap_err(),
        "at least one model ID is required"
    );
}

#[test]
fn checked_models_are_chosen() {
    let mut detailed = info("b");
    detailed.reasoning_efforts = Some(vec![ReasoningEffort::Low]);
    let mut picker = ModelPicker::new(vec![info("a"), detailed, info("c")]).unwrap();
    assert_eq!(picker.press(key(KeyCode::Enter)), PickerOutcome::Stay);
    assert_eq!(
        picker.notice.as_deref(),
        Some("Check at least one model before continuing.")
    );
    picker.press(key(KeyCode::Up));
    assert_eq!(picker.cursor, 2);
    assert_eq!(picker.notice, None);
    picker.press(key(KeyCode::Down));
    picker.press(key(KeyCode::Char(' ')));
    picker.press(key(KeyCode::Down));
    picker.press(key(KeyCode::Char(' ')));
    assert_eq!(
        picker.draw_model_picker(),
        vec![
            "Enable models · 2 of 3 checked",
            "  [x] a",
            "> [x] b",
            "  [ ] c",
            "",
            "↑/↓ move · space check · enter continue · esc cancel",
        ]
    );
    assert_eq!(
        picker.press(key(KeyCode::Enter)),
        PickerOutcome::Chosen(vec![
            ModelEntry::Plain("a".to_owned()),
            ModelEntry::Detailed {
                id: "b".to_owned(),
                reasoning_efforts: Some(vec![ReasoningEffort::Low]),
            },
        ])
    );
    assert_eq!(picker.press(key(KeyCode::Esc)), PickerOutcome::Cancel);
    assert_eq!(
        picker.press(Key {
            code: KeyCode::Char('c'),
            control: true,
            shift: false,
            other: false,
        }),
        PickerOutcome::Cancel
    );
    assert_eq!(
        ModelPicker::new(Vec::new()).unwrap_err(),
        "at least one model ID is required"
    );
}

#[test]
fn the_picker_shows_ten_models_around_the_cursor() {
    let models: Vec<ModelInfo> = (0..25).map(|index| info(&format!("m{index}"))).collect();
    let mut picker = ModelPicker::new(models).unwrap();
    for _ in 0..25 {
        let lines = picker.draw_model_picker();
        assert_eq!(lines.len(), 13);
        let pointer = format!("> [ ] m{}", picker.cursor);
        assert!(lines.contains(&pointer));
        picker.press(key(KeyCode::Down));
    }
    assert_eq!(picker.cursor, 0);
}

#[test]
fn the_other_header_is_tried_before_giving_up() {
    let (mut search, step) = Discovery::begin(true);
    assert_eq!(step, DiscoveryStep::Ask(AuthStyle::Bearer));
    assert_eq!(
        search.step(Listing::Failed("401".to_owned())),
        DiscoveryStep::Ask(AuthStyle::XApiKey)
    );
    assert_eq!(
        search.step(Listing::Models(vec![info("a")])),
        DiscoveryStep::Pick {
            models: vec![info("a")],
            auth: AuthStyle::XApiKey,
            alternate: true,
        }
    );

    let (mut search, _) = Discovery::begin(true);
    search.step(Listing::Failed("401".to_owned()));
    assert_eq!(
        search.step(Listing::Failed("403".to_owned())),
        DiscoveryStep::TypeIn("Could not list models (401); enter them manually.".to_owned())
    );

    let (mut search, _) = Discovery::begin(false);
    assert_eq!(
        search.step(Listing::Models(Vec::new())),
        DiscoveryStep::TypeIn("The provider listed no models; enter them manually.".to_owned())
    );

    let (mut search, _) = Discovery::begin(false);
    assert!(matches!(
        search.step(Listing::Models(vec![info("a")])),
        DiscoveryStep::Pick {
            auth: AuthStyle::Bearer,
            alternate: false,
            ..
        }
    ));
}

#[test]
fn providers_are_added_once() {
    assert_eq!(
        provider_objection("", false, "p").as_deref(),
        Some("name must contain at least one letter or number")
    );
    assert_eq!(
        provider_objection("a\"b", true, "/p").as_deref(),
        Some("provider \"a\\\"b\" already exists in /p")
    );
    assert_eq!(provider_objection("a", false, "/p"), None);
    let provider = added_provider(
        "Name".to_owned(),
        "http://h".to_owned(),
        vec![ModelEntry::Plain("m".to_owned())],
        AuthStyle::XApiKey,
    );
    assert_eq!(provider.api_format, ApiFormat::ChatCompletions);
    assert_eq!(provider.api_key_env, None);
    assert_eq!(provider.auth, AuthStyle::XApiKey);
    assert_eq!(
        added_message("a"),
        "Added \"a\" using chat completions. Start or restart nexa-server, then run `nexa chat`."
    );
}

#[test]
fn tokens_come_from_the_environment_or_the_local_file() {
    assert_eq!(
        server_token_choice(Variable::Value("t".to_owned()), false).unwrap(),
        TokenChoice::Use("t".to_owned())
    );
    assert_eq!(
        server_token_choice(Variable::Value(" ".to_owned()), true).unwrap_err(),
        "NEXA_SERVER_TOKEN must not be empty"
    );
    assert_eq!(
        server_token_choice(Variable::Missing, true).unwrap(),
        TokenChoice::Load
    );
    assert_eq!(
        server_token_choice(Variable::Missing, false).unwrap(),
        TokenChoice::Anonymous
    );
    assert_eq!(
        server_token_choice(Variable::Unreadable("bad".to_owned()), true).unwrap_err(),
        "bad"
    );
    assert_eq!(default_server_url(None), "http://127.0.0.1:4123");
    assert_eq!(
        default_server_url(Some("9".to_owned())),
        "http://127.0.0.1:9"
    );
}

#[test]
fn a_changed_choice_is_saved_and_the_desktop_block_survives() {
    let model = ModelRef {
        provider: "p".to_owned(),
        id: "m".to_owned(),
    };
    let mut settings = SettingsFile::default();
    settings.desktop.recent_workspaces = vec!["/w".to_owned()];
    let saved = settings_to_save(settings, &model, None).unwrap();
    assert_eq!(
        saved.models.default,
        Some(DefaultModel {
            provider: "p".to_owned(),
            model: "m".to_owned(),
        })
    );
    assert_eq!(saved.desktop.recent_workspaces, vec!["/w"]);
    assert_eq!(preferred_model(&saved), Some(model.clone()));
    assert_eq!(settings_to_save(saved.clone(), &model, None), None);
    let changed = settings_to_save(saved, &model, Some(ReasoningEffort::Max)).unwrap();
    assert_eq!(
        changed.models.default_reasoning_effort,
        Some(ReasoningEffort::Max)
    );
}
