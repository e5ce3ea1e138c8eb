//! What the desktop client's panels list.

use nexa::choices::ModelChoice;
use nexa::config::SettingsFile;
use nexa::desktop::{App, SessionTitle};
use nexa::panels::{
    composer_rows, empty_state_warning, empty_tree_message, found_in, list_models, model_to_pick, preset_subtitle, preview_from,
    session_tree, tool_card, tool_preview, tools_text, visible_models, CardStatus,
};
use nexa::protocol::{PresetSummary, SessionSummary};

fn app() -> App {
    App::new("/work/one".to_owned(), SettingsFile::default())
}

fn session(id: &str) -> SessionSummary {
    SessionSummary {
        id: id.to_owned(),
        created_at_ms: 0,
        last_opened_ms: 7,
    }
}

fn choice(provider: &str, name: &str, model: &str) -> ModelChoice {
    ModelChoice {
        provider_id: provider.to_owned(),
        provider_name: name.to_owned(),
        model: model.to_owned(),
        reasoning_efforts: None,
    }
}

#[test]
fn the_tree_lists_known_workspaces_and_searches_titles() {
    let mut app = app();
    app.desktop_settings.recent_workspaces = vec!["/work/two".to_owned(), "/work/unlisted".to_owned()];
    app.set_workspace_sessions("/work/one".to_owned(), Vec::new());
    app.set_workspace_sessions("/work/two".to_owned(), vec![session("s-1"), session("s-2")]);
    app.session_titles.push(SessionTitle {
        session_id: "s-1".to_owned(),
        title: "Fix ÄRGER".to_owned(),
    });
    app.active_session = Some("s-2".to_owned());

    let tree = session_tree(&app);
    assert_eq!(tree.len(), 2);
    assert_eq!(tree[0].label, "one");
    assert!(tree[0].unfolded && tree[0].sessions.is_empty());
    assert_eq!(tree[1].sessions[0].title, "Fix ÄRGER");
    assert_eq!(tree[1].sessions[1].title, "New chat");
    assert!(tree[1].sessions[1].selected && !tree[1].sessions[0].selected);

    app.sidebar_filter = "ärger".to_owned();
    let tree = session_tree(&app);
    assert_eq!(tree.len(), 1);
    assert_eq!(tree[0].sessions.len(), 1);
    app.sidebar_filter = "S-2".to_owned();
    assert_eq!(session_tree(&app)[0].sessions[0].session_id, "s-2");
    app.sidebar_filter = "nothing".to_owned();
    assert!(session_tree(&app).is_empty());
    assert_eq!(empty_tree_message(&app), "No chats match that search");
    app.sidebar_filter.clear();
    assert_eq!(empty_tree_message(&app), "No chats yet");
}

#[test]
fn models_are_searched_and_grouped_by_provider() {
    let mut app = app();
    app.choices = vec![
        choice("x", "Xen", "alpha"),
        choice("x", "Xen", "beta"),
        choice("y", "Yak", "alpha-2"),
    ];
    app.selected_model = 1;
    assert_eq!(visible_models(&app), vec![0, 1, 2]);
    let rows = list_models(&app, &vec![0, 1, 2]);
    assert_eq!(rows[0].section.as_deref(), Some("Xen"));
    assert_eq!(rows[1].section, None);
    assert_eq!(rows[2].section.as_deref(), Some("Yak"));
    assert!(rows[1].selected && !rows[0].selected);

    app.model_filter = "ALPHA".to_owned();
    assert_eq!(visible_models(&app), vec![0, 2]);
    assert_eq!(model_to_pick(&app), None);
    app.model_filter = "yak".to_owned();
    assert_eq!(model_to_pick(&app), Some(2));
    app.model_filter = "zzz".to_owned();
    assert!(visible_models(&app).is_empty());
}

#[test]
fn the_composer_grows_with_the_draft() {
    assert_eq!(composer_rows("", true), 2);
    assert_eq!(composer_rows("", false), 3);
    assert_eq!(composer_rows("a\nb\nc\nd", true), 4);
    assert_eq!(composer_rows(&"\n".repeat(30), true), 10);
}

#[test]
fn presets_tell_their_tools() {
    let mut preset = PresetSummary {
        name: "review".to_owned(),
        description: String::new(),
        tools: Vec::new(),
    };
    assert_eq!(preset_subtitle(&preset), "Every tool");
    preset.tools = vec!["read_file".to_owned(), "edit_file".to_owned()];
    preset.description = "Looks only".to_owned();
    assert_eq!(
        preset_subtitle(&preset),
        "Looks only · read_file, edit_file"
    );
    assert_eq!(tools_text(&preset, "every tool"), "read_file, edit_file");
}

#[test]
fn tool_cards_tell_what_a_tool_is_called_for() {
    assert_eq!(tool_preview("read_file", "{}"), "read_file");
    assert_eq!(tool_preview("read_file", "  "), "read_file");
    assert_eq!(
        tool_preview("read_file", "{\"zeta\":\"no\",\"path\":\"a\\u0062.rs\"}"),
        "read_file  ab.rs"
    );
    assert_eq!(
        tool_preview("grep", "{\"glob\":\"*.rs\",\"pattern\":\"x\"}"),
        "grep  x"
    );
    assert_eq!(
        tool_preview("odd", "{\"path\":3}"),
        "odd  {\"path\":3}"
    );
    assert_eq!(tool_preview("odd", "not\njson"), "odd  not json");
    assert_eq!(tool_preview("odd", "[1,2]"), "odd  [1,2]");
    let long = "p".repeat(60);
    assert_eq!(
        preview_from(
            "read_file",
            "{...}",
            &Some(vec![("path".to_owned(), Some(long))])
        ),
        format!("read_file  {}…", "p".repeat(56))
    );
}

#[test]
fn tool_cards_show_input_and_output() {
    let card = tool_card("read_file", "{}", &None, false);
    assert_eq!(card.status, CardStatus::Running);
    assert_eq!(card.input, None);
    assert_eq!(card.output, None);
    let card = tool_card("read_file", "{\"path\":\"a\"}", &Some("  ok \n".to_owned()), false);
    assert_eq!(card.status, CardStatus::Done);
    assert_eq!(card.input.as_deref(), Some("{\"path\":\"a\"}"));
    assert_eq!(card.output.as_deref(), Some("ok"));
    let card = tool_card("read_file", "", &Some("x".repeat(3000)), true);
    assert_eq!(card.status, CardStatus::Failed);
    assert_eq!(card.output.unwrap().chars().count(), 2001);
}

#[test]
fn a_search_finds_any_of_its_texts() {
    let texts = vec!["first chat".to_owned(), "session-ab12".to_owned()];
    assert!(found_in("", &vec![]));
    assert!(found_in("chat", &texts));
    assert!(found_in("ab1", &texts));
    assert!(!found_in("chats", &texts));
    assert!(!found_in("Chat", &texts));
}

#[test]
fn a_first_message_needs_a_server_and_a_model() {
    let mut app = app();
    assert_eq!(empty_state_warning(&app), Some("Connecting to nexa-server…"));
    app.connected = true;
    assert_eq!(
        empty_state_warning(&app),
        Some("No models configured. Run `nexa provider add`.")
    );
    app.choices = vec![choice("local", "Local", "model")];
    assert_eq!(empty_state_warning(&app), None);
}
