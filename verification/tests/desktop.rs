//! The desktop client's state.

use nexa::choices::ModelChoice;
use nexa::config::{DefaultModel, DesktopSettings, ModelsSettings, SettingsFile};
use nexa::desktop::{
    starting_workspace, ActivityKind, App, DesktopAction, NetEvent, RunState, SettingsTab, TranscriptEntry, UiCmd,
    MAX_ACTIVITY,
};
use nexa::panels::Shortcut;
use nexa::protocol::{
    ApiFormat, Event, ModelRef, ModelSummary, ProviderSummary, ReasoningEffort, SessionSummary,
    ToolCall, ToolResult,
};

fn app() -> App {
    App::new("/tmp".to_owned(), SettingsFile::default())
}

fn model() -> ModelRef {
    ModelRef {
        provider: "local".to_owned(),
        id: "test-model".to_owned(),
    }
}

fn choice(model: &str, reasoning_efforts: Option<Vec<ReasoningEffort>>) -> ModelChoice {
    ModelChoice {
        provider_id: "local".into(),
        provider_name: "Local".into(),
        model: model.into(),
        reasoning_efforts,
    }
}

fn message(text: &str) -> Event {
    Event::Message {
        session_id: "session-abcd-xyz".into(),
        sequence: 1,
        client_id: "desktop".into(),
        model: model(),
        text: text.into(),
        created_at_ms: 0,
    }
}

fn providers() -> Vec<ProviderSummary> {
    vec![ProviderSummary {
        id: "local".into(),
        name: "Local".into(),
        api_format: ApiFormat::ChatCompletions,
        models: vec![
            ModelSummary {
                id: "a".into(),
                reasoning_efforts: None,
            },
            ModelSummary {
                id: "b".into(),
                reasoning_efforts: Some(vec![ReasoningEffort::Low]),
            },
        ],
    }]
}

#[test]
fn streamed_then_final_assistant_message_is_not_duplicated() {
    let mut app = app();
    app.apply_event(&Event::AssistantTextDelta {
        session_id: "s".into(),
        sequence: 1,
        run_id: "r".into(),
        text: "Hel".into(),
        created_at_ms: 0,
    });
    app.apply_event(&Event::AssistantTextDelta {
        session_id: "s".into(),
        sequence: 2,
        run_id: "r".into(),
        text: "lo".into(),
        created_at_ms: 0,
    });
    app.apply_event(&Event::AssistantMessage {
        session_id: "s".into(),
        sequence: 3,
        run_id: "r".into(),
        text: "Hello".into(),
        tool_calls: Vec::new(),
        created_at_ms: 0,
    });
    assert_eq!(app.transcript.len(), 1);
    match &app.transcript[0] {
        TranscriptEntry::Assistant {
            text, streaming, ..
        } => {
            assert_eq!(text, "Hello");
            assert!(!*streaming);
        }
        other => panic!("expected assistant, got role change: {other:?}"),
    }
}

#[test]
fn tool_completion_updates_the_existing_card() {
    let mut app = app();
    app.apply_event(&Event::ToolCallStarted {
        session_id: "s".into(),
        sequence: 1,
        run_id: "r".into(),
        call: ToolCall {
            id: "c1".into(),
            name: "read_file".into(),
            arguments: "{\"path\":\"a.rs\"}".into(),
        },
        created_at_ms: 0,
    });
    app.apply_event(&Event::ToolCallCompleted {
        session_id: "s".into(),
        sequence: 2,
        run_id: "r".into(),
        result: ToolResult {
            tool_call_id: "c1".into(),
            content: "ok".into(),
            is_error: false,
        },
        created_at_ms: 0,
    });
    assert_eq!(app.transcript.len(), 1);
    match &app.transcript[0] {
        TranscriptEntry::Tool {
            name,
            result,
            failed,
            ..
        } => {
            assert_eq!(name, "read_file");
            assert_eq!(result.as_deref(), Some("ok"));
            assert!(!*failed);
        }
        _ => panic!("expected tool card"),
    }
}

#[test]
fn first_user_message_becomes_the_session_title() {
    let mut app = app();
    app.active_session = Some("session-abcd-xyz".into());
    app.apply_event(&Event::Message {
        session_id: "session-abcd-xyz".into(),
        sequence: 1,
        client_id: "desktop".into(),
        model: model(),
        text: "Summarize this repository\n\nBe brief.".into(),
        created_at_ms: 0,
    });
    assert_eq!(
        app.session_title("session-abcd-xyz"),
        "Summarize this repository"
    );
}

#[test]
fn unsupported_effort_falls_back_to_omit() {
    let mut app = app();
    app.choices.push(ModelChoice {
        provider_id: "local".into(),
        provider_name: "Local".into(),
        model: "limited".into(),
        reasoning_efforts: Some(vec![ReasoningEffort::Low]),
    });
    app.effort = Some(ReasoningEffort::Max);
    app.clamp_effort();
    assert_eq!(app.effort, None);
    assert_eq!(app.offered_efforts(), &[ReasoningEffort::Low]);
    assert!(app.effort_picker_visible());
}

#[test]
fn undeclared_models_offer_the_common_effort_set() {
    let mut app = app();
    app.choices.push(ModelChoice {
        provider_id: "local".into(),
        provider_name: "Local".into(),
        model: "plain".into(),
        reasoning_efforts: None,
    });
    assert_eq!(app.offered_efforts(), &ReasoningEffort::COMMON);
    assert!(!app.offered_efforts().contains(&ReasoningEffort::Minimal));
    assert!(!app.offered_efforts().contains(&ReasoningEffort::Max));
}

#[test]
fn gpt56_sol_and_luna_offer_max_when_the_provider_did_not_enumerate() {
    for id in ["gpt-5.6-sol", "gpt-5.6-luna"] {
        let mut app = app();
        app.choices.push(ModelChoice {
            provider_id: "nexus".into(),
            provider_name: "Nexus".into(),
            model: id.to_owned(),
            reasoning_efforts: None,
        });
        assert!(
            app.offered_efforts().contains(&ReasoningEffort::Max),
            "{id} should offer max"
        );
        assert!(app.offered_efforts().contains(&ReasoningEffort::XHigh));
    }
}

#[test]
fn empty_declared_list_hides_the_effort_picker() {
    let mut app = app();
    app.choices.push(ModelChoice {
        provider_id: "local".into(),
        provider_name: "Local".into(),
        model: "direct".into(),
        reasoning_efforts: Some(Vec::new()),
    });
    assert!(app.offered_efforts().is_empty());
    assert!(!app.effort_picker_visible());
}

#[test]
fn later_messages_keep_the_title() {
    let mut app = app();
    app.active_session = Some("session-abcd-xyz".into());
    app.apply_event(&message("First"));
    app.apply_event(&message("Second"));
    assert_eq!(app.session_title("session-abcd-xyz"), "First");
    assert_eq!(app.thread_title(), "First");
    assert_eq!(app.session_title("another"), "New chat");
}

#[test]
fn a_chat_without_a_session_is_new() {
    let app = app();
    assert_eq!(app.thread_title(), "New chat");
    assert_eq!(app.settings_tab, SettingsTab::General);
    assert!(app.selected_choice().is_none());
    assert!(!app.effort_picker_visible());
}

#[test]
fn an_empty_final_answer_keeps_what_was_streamed() {
    let mut app = app();
    app.apply_event(&Event::AssistantTextDelta {
        session_id: "s".into(),
        sequence: 1,
        run_id: "r".into(),
        text: "partial".into(),
        created_at_ms: 0,
    });
    assert!(app.has_streaming_assistant());
    app.apply_event(&Event::AssistantMessage {
        session_id: "s".into(),
        sequence: 2,
        run_id: "r".into(),
        text: String::new(),
        tool_calls: vec![ToolCall {
            id: "c".into(),
            name: "read_file".into(),
            arguments: "{}".into(),
        }],
        created_at_ms: 0,
    });
    assert_eq!(
        app.transcript,
        vec![TranscriptEntry::Assistant {
            run_id: "r".into(),
            text: "partial".into(),
            streaming: false,
        }]
    );
    assert_eq!(app.activity.last().unwrap().text, "read_file {}");
}

#[test]
fn runs_are_logged_and_settled() {
    let mut app = app();
    app.apply_event(&Event::RunStarted {
        session_id: "s".into(),
        sequence: 1,
        run_id: "r".into(),
        model: model(),
        reasoning_effort: Some(ReasoningEffort::High),
        created_at_ms: 0,
    });
    assert_eq!(app.run_state, RunState::Running);
    assert_eq!(app.activity[0].text, "local / test-model · high");
    app.apply_event(&Event::AssistantTextDelta {
        session_id: "s".into(),
        sequence: 2,
        run_id: "r".into(),
        text: "x".into(),
        created_at_ms: 0,
    });
    app.apply_event(&Event::RunCompleted {
        session_id: "s".into(),
        sequence: 3,
        run_id: "r".into(),
        created_at_ms: 0,
    });
    assert_eq!(app.run_state, RunState::Idle);
    assert!(!app.has_streaming_assistant());
    app.apply_event(&Event::RunFailed {
        session_id: "s".into(),
        sequence: 4,
        run_id: "r2".into(),
        error: "boom".into(),
        created_at_ms: 0,
    });
    assert_eq!(app.run_state, RunState::Failed);
    assert_eq!(
        app.transcript.last(),
        Some(&TranscriptEntry::Error {
            text: "boom".into()
        })
    );
    assert_eq!(app.activity.last().unwrap().kind, ActivityKind::Error);
}

#[test]
fn the_activity_log_is_bounded() {
    let mut app = app();
    for index in 0..MAX_ACTIVITY + 3 {
        app.log_activity(ActivityKind::Run, format!("{index}"));
    }
    assert_eq!(app.activity.len(), MAX_ACTIVITY);
    assert_eq!(app.activity[0].text, "3");
}

#[test]
fn picking_a_model_persists_it_and_a_restart_selects_it() {
    let mut app = app();
    app.receive(NetEvent::Providers(providers()));
    assert!(app.connected);
    app.effort = Some(ReasoningEffort::High);
    let actions = app.select_model(1);
    assert_eq!(app.effort, None, "b offers low only");
    let saved = SettingsFile {
        models: ModelsSettings {
            default: Some(DefaultModel {
                provider: "local".into(),
                model: "b".into(),
            }),
            default_reasoning_effort: None,
        },
        desktop: DesktopSettings::default(),
    };
    assert_eq!(actions, vec![DesktopAction::Save(saved.clone())]);
    assert!(app.select_model(7).is_empty());

    let mut restarted = App::new("/tmp".to_owned(), saved);
    restarted.receive(NetEvent::Providers(providers()));
    assert_eq!(restarted.selected_choice().unwrap().model, "b");
}

#[test]
fn only_offered_efforts_can_be_selected() {
    let mut app = app();
    app.choices.push(choice("limited", Some(vec![ReasoningEffort::Low])));
    assert!(app.select_effort(Some(ReasoningEffort::Max)).is_empty());
    assert_eq!(app.selected_effort(), None);
    assert_eq!(app.select_effort(Some(ReasoningEffort::Low)).len(), 1);
    assert_eq!(app.selected_effort(), Some(ReasoningEffort::Low));
}

#[test]
fn selecting_a_workspace_remembers_it() {
    let mut app = app();
    let actions = app.select_workspace("/work".to_owned());
    assert_eq!(app.workspace, "/work");
    assert_eq!(app.desktop_settings.recent_workspaces, vec!["/work"]);
    assert!(matches!(&actions[0], DesktopAction::Save(file) if file.desktop.recent_workspaces == ["/work"]));
    assert_eq!(
        actions[1],
        DesktopAction::Send(UiCmd::ListSessions {
            workspace: "/work".into()
        })
    );
    app.workspace = "/other".to_owned();
    assert_eq!(app.known_workspaces(), vec!["/other", "/work"]);
    app.workspace = "/work".to_owned();
    assert_eq!(app.known_workspaces(), vec!["/work"]);
    app.save_failed("disk full");
    assert_eq!(
        app.notice.as_deref(),
        Some("could not save settings: disk full")
    );
    let actions = app.set_default_preset(Some("review".to_owned()));
    assert!(matches!(&actions[0], DesktopAction::Save(file) if file.desktop.default_preset.as_deref() == Some("review")));
}

#[test]
fn reports_change_what_is_shown() {
    let mut app = app();
    app.receive(NetEvent::Notice("Starting nexa-server…".into()));
    app.receive(NetEvent::Providers(providers()));
    assert_eq!(app.notice, None);
    app.receive(NetEvent::Notice("other".into()));
    app.receive(NetEvent::Providers(providers()));
    assert_eq!(app.notice.as_deref(), Some("other"));

    app.receive(NetEvent::SessionReady("session-abcdef-xyz".into()));
    assert_eq!(app.activity[0].text, "chat started as abcd…xyz");
    app.receive(NetEvent::Event(message("not of this session")));
    assert!(app.transcript.is_empty());
    app.receive(NetEvent::Switched("session-abcd-xyz".into()));
    assert_eq!(app.activity.len(), 1);
    assert_eq!(app.activity[0].text, "reopened abcd…xyz");
    app.receive(NetEvent::Event(message("Hello")));
    assert_eq!(app.transcript.len(), 1);
    app.receive(NetEvent::Detached);
    assert_eq!(app.active_session, None);
    assert!(app.transcript.is_empty() && app.activity.is_empty());
}

#[test]
fn a_workspace_stands_once_in_the_tree() {
    let mut app = app();
    let session = |id: &str| SessionSummary {
        id: id.to_owned(),
        created_at_ms: 0,
        last_opened_ms: 0,
    };
    app.set_workspace_sessions("/a".into(), vec![session("1")]);
    app.set_workspace_sessions("/b".into(), Vec::new());
    app.set_workspace_sessions("/a".into(), vec![session("2"), session("3")]);
    assert_eq!(app.sessions_by_workspace.len(), 2);
    assert_eq!(app.sessions_by_workspace[0].sessions.len(), 2);
}

#[test]
fn picked_presets_become_the_default() {
    let mut app = app();
    let actions = app.select_preset(Some("review".to_owned()));
    assert_eq!(app.selected_preset.as_deref(), Some("review"));
    assert_eq!(actions.len(), 1);
    let DesktopAction::Save(file) = &actions[0] else {
        panic!("expected the settings to be saved");
    };
    assert_eq!(file.desktop.default_preset.as_deref(), Some("review"));
    let restarted = App::new("/tmp".to_owned(), file.clone());
    assert_eq!(restarted.selected_preset.as_deref(), Some("review"));
    app.select_preset(None);
    assert_eq!(app.selected_preset, None);
    assert_eq!(app.desktop_settings.default_preset, None);
}

#[test]
fn enter_sends_and_shift_enter_does_not() {
    let mut app = app();
    app.draft = "hi".to_owned();
    assert!(!app.sends(true, false, false, true), "no model is selected");
    app.choices.push(choice("m", None));
    assert!(app.sends(true, false, false, false));
    assert!(app.sends(false, false, false, true));
    assert!(app.sends(true, true, false, true));
    assert!(!app.sends(true, true, false, false));
    assert!(!app.sends(true, false, true, false));
    assert!(!app.sends(false, false, false, false));
}

#[test]
fn drafts_go_out_as_typed() {
    let mut app = app();
    app.draft = "  hi\n".to_owned();
    assert!(!app.can_send(), "no model is selected");
    app.choices.push(choice("m", None));
    assert!(app.can_send());
    app.notice = Some("old".to_owned());
    app.selected_preset = Some("review".to_owned());
    assert_eq!(
        app.send_draft(),
        UiCmd::Send {
            workspace: "/tmp".into(),
            model: ModelRef {
                provider: "local".into(),
                id: "m".into(),
            },
            preset: Some("review".into()),
            effort: None,
            text: "  hi\n".into(),
        }
    );
    assert_eq!(app.draft, "");
    assert_eq!(app.notice, None);
    assert!(!app.can_send());
}

#[test]
fn shortcuts_toggle_the_panels() {
    let mut app = app();
    app.focus_composer = false;
    assert_eq!(app.press(Shortcut::NewChat), Some(UiCmd::NewChat));
    assert!(app.focus_composer);
    assert_eq!(app.press(Shortcut::Activity), None);
    assert!(app.activity_open);
    app.notice = Some("n".to_owned());
    app.press(Shortcut::Settings);
    app.press(Shortcut::Dismiss);
    assert!(app.notice.is_some(), "the settings take Escape first");
    app.press(Shortcut::Settings);
    app.press(Shortcut::Dismiss);
    assert_eq!(app.notice, None);
    app.press(Shortcut::Compose);
}

#[test]
fn the_project_is_the_active_one_after_a_restart() {
    let mut app = app();
    let actions = app.select_workspace("/work".to_owned());
    let DesktopAction::Save(saved) = &actions[0] else {
        panic!("expected the settings to be saved");
    };
    assert_eq!(starting_workspace(saved, "/elsewhere".to_owned()), "/work");
    assert_eq!(
        starting_workspace(&SettingsFile::default(), "/elsewhere".to_owned()),
        "/elsewhere"
    );
}
