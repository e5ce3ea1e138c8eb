//! The terminal client's state.

use nexa::protocol::{
    ApiFormat, Event, ModelRef, ModelSummary, ProviderSummary, ReasoningEffort, SessionSummary,
    ToolCall, ToolResult,
};
use nexa::screen::{composer_title, header_line, transcript_lines, Line};
use nexa::tui::{
    App, ClientChange, Control, Key, KeyCode, RunState, Submission, TerminalInput, ToolState,
    TranscriptItem, TuiAction, TuiError,
};
use ratatui::backend::TestBackend;
use ratatui::layout::Rect;
use ratatui::widgets::{Block, Borders, Paragraph};
use ratatui::Terminal;

fn app() -> App {
    App::new(
        vec![ProviderSummary {
            id: "local".to_owned(),
            name: "Local".to_owned(),
            api_format: ApiFormat::ChatCompletions,
            models: vec![ModelSummary {
                id: "model".to_owned(),
                reasoning_efforts: None,
            }],
        }],
        None,
        None,
    )
    .unwrap()
}

fn app_with_choices() -> App {
    App::new(
        vec![ProviderSummary {
            id: "local".to_owned(),
            name: "Local".to_owned(),
            api_format: ApiFormat::ChatCompletions,
            models: vec![
                ModelSummary {
                    id: "plain".to_owned(),
                    reasoning_efforts: None,
                },
                ModelSummary {
                    id: "thinker".to_owned(),
                    reasoning_efforts: Some(vec![
                        ReasoningEffort::Low,
                        ReasoningEffort::High,
                        ReasoningEffort::XHigh,
                    ]),
                },
                ModelSummary {
                    id: "limited".to_owned(),
                    reasoning_efforts: Some(vec![ReasoningEffort::Minimal]),
                },
            ],
        }],
        None,
        None,
    )
    .unwrap()
}

fn key(code: KeyCode) -> Key {
    Key {
        code,
        control: false,
        shift: false,
        other: false,
    }
}

fn message(app: &App, text: &str) -> Event {
    Event::Message {
        session_id: "local".to_owned(),
        sequence: 1,
        client_id: "cli".to_owned(),
        model: app.model(),
        text: text.to_owned(),
        created_at_ms: 1,
    }
}

fn type_text(app: &mut App, text: &str) {
    for character in text.chars() {
        assert_eq!(app.handle_key(key(KeyCode::Char(character))), TuiAction::Stay);
    }
}

#[test]
fn final_assistant_message_replaces_streamed_draft_without_duplication() {
    let mut app = app();
    app.apply(Event::AssistantTextDelta {
        session_id: "local".to_owned(),
        sequence: 1,
        run_id: "run-1".to_owned(),
        text: "hel".to_owned(),
        created_at_ms: 1,
    });
    app.apply(Event::AssistantTextDelta {
        session_id: "local".to_owned(),
        sequence: 2,
        run_id: "run-1".to_owned(),
        text: "lo".to_owned(),
        created_at_ms: 2,
    });
    app.apply(Event::AssistantMessage {
        session_id: "local".to_owned(),
        sequence: 3,
        run_id: "run-1".to_owned(),
        text: "hello".to_owned(),
        tool_calls: Vec::new(),
        created_at_ms: 3,
    });

    assert_eq!(
        app.transcript,
        vec![TranscriptItem::Assistant {
            run_id: "run-1".to_owned(),
            text: "hello".to_owned(),
            finalized: true,
        }]
    );
}

#[test]
fn a_second_inference_round_gets_its_own_assistant_item() {
    let mut app = app();
    for event in [
        Event::AssistantMessage {
            session_id: "local".to_owned(),
            sequence: 1,
            run_id: "run-1".to_owned(),
            text: "Checking.".to_owned(),
            tool_calls: Vec::new(),
            created_at_ms: 1,
        },
        Event::AssistantTextDelta {
            session_id: "local".to_owned(),
            sequence: 2,
            run_id: "run-1".to_owned(),
            text: "Done.".to_owned(),
            created_at_ms: 2,
        },
    ] {
        app.apply(event);
    }

    assert_eq!(app.transcript.len(), 2);
}

#[test]
fn tool_completion_updates_the_existing_activity_row() {
    let mut app = app();
    app.apply(Event::ToolCallStarted {
        session_id: "local".to_owned(),
        sequence: 1,
        run_id: "run-1".to_owned(),
        call: ToolCall {
            id: "call-1".to_owned(),
            name: "read_file".to_owned(),
            arguments: "{}".to_owned(),
        },
        created_at_ms: 1,
    });
    app.apply(Event::ToolCallCompleted {
        session_id: "local".to_owned(),
        sequence: 2,
        run_id: "run-1".to_owned(),
        result: ToolResult {
            tool_call_id: "call-1".to_owned(),
            content: "ok".to_owned(),
            is_error: false,
        },
        created_at_ms: 2,
    });

    assert!(matches!(
        app.transcript.as_slice(),
        [TranscriptItem::Tool {
            state: ToolState::Completed,
            ..
        }]
    ));
}

#[test]
fn run_failure_is_visible_but_does_not_make_the_composer_busy() {
    let mut app = app();
    app.apply(Event::RunFailed {
        session_id: "local".to_owned(),
        sequence: 1,
        run_id: "run-1".to_owned(),
        error: "connection lost".to_owned(),
        created_at_ms: 1,
    });
    app.insert('h');

    assert_eq!(app.run_state, RunState::Failed);
    assert_eq!(app.message_to_send().as_deref(), Some("h"));
    assert!(matches!(
        app.transcript.last(),
        Some(TranscriptItem::Error(error)) if error == "connection lost"
    ));
}

#[test]
fn submission_state_is_visible_and_a_failed_message_can_be_retried() {
    let mut app = app();
    for character in "hello".chars() {
        app.insert(character);
    }

    let (_, message) = app.begin_submission().unwrap();
    assert!(app.submitting);
    assert!(app.input.is_empty());

    app.finish_submission(Submission {
        message,
        result: Err("server unavailable".to_owned()),
    });
    assert!(!app.submitting);
    assert_eq!(app.input_text(), "hello");
    assert_eq!(app.notice.as_deref(), Some("server unavailable"));
}

fn plain(lines: &[Line]) -> Vec<ratatui::text::Line<'static>> {
    lines
        .iter()
        .map(|line| {
            ratatui::text::Line::from(
                line.spans
                    .iter()
                    .map(|span| ratatui::text::Span::raw(span.text.clone()))
                    .collect::<Vec<_>>(),
            )
        })
        .collect()
}

#[test]
fn renders_the_session_transcript_and_composer() {
    let mut app = app();
    let event = message(&app, "Hello, Nexa");
    app.apply(event);
    let backend = TestBackend::new(80, 18);
    let mut terminal = Terminal::new(backend).unwrap();
    terminal
        .draw(|frame| {
            frame.render_widget(
                Paragraph::new(plain(&[header_line(&app)])),
                Rect::new(0, 0, 80, 1),
            );
            frame.render_widget(
                Paragraph::new(plain(&transcript_lines(&app))),
                Rect::new(0, 1, 80, 13),
            );
            frame.render_widget(
                Paragraph::new(plain(&[app.composer_line()]))
                    .block(Block::default().borders(Borders::ALL).title(composer_title())),
                Rect::new(0, 14, 80, 3),
            );
        })
        .unwrap();

    let buffer = terminal.backend().buffer();
    let rendered = (0..buffer.area.height)
        .map(|y| {
            (0..buffer.area.width)
                .map(|x| buffer[(x, y)].symbol())
                .collect::<String>()
        })
        .collect::<Vec<_>>()
        .join("\n");
    assert!(rendered.contains("NEXA"));
    assert!(rendered.contains("Hello, Nexa"));
    assert!(rendered.contains("Message"));
}

#[test]
fn reasoning_command_sets_validated_efforts() {
    let mut app = app_with_choices();
    // "thinker" reports low / high / xhigh only.
    app.execute_command("/model local/thinker");
    assert_eq!(app.selected_model, 1);

    app.execute_command("/reasoning xhigh");
    assert_eq!(app.effort, Some(ReasoningEffort::XHigh));

    app.execute_command("/reasoning minimal");
    assert_eq!(
        app.effort,
        Some(ReasoningEffort::XHigh),
        "unsupported levels must be rejected"
    );
    assert!(app
        .notice
        .as_deref()
        .unwrap()
        .contains("does not report supporting"));

    app.execute_command("/reasoning banana");
    assert_eq!(app.effort, Some(ReasoningEffort::XHigh));
    assert!(app.notice.as_deref().unwrap().contains("Unknown effort"));
}

#[test]
fn reasoning_without_argument_cycles_supported_levels() {
    let mut app = app_with_choices();
    app.selected_model = 1; // "thinker": low, high, xhigh

    app.execute_command("/reasoning");
    assert_eq!(app.effort, Some(ReasoningEffort::Low));
    app.execute_command("/reasoning");
    assert_eq!(app.effort, Some(ReasoningEffort::High));
    app.execute_command("/reasoning");
    assert_eq!(app.effort, Some(ReasoningEffort::XHigh));
    app.execute_command("/reasoning");
    assert_eq!(app.effort, None);
}

#[test]
fn model_command_switches_by_spec_or_bare_id_and_drops_efforts() {
    let mut app = app_with_choices();
    app.selected_model = 1;
    app.effort = Some(ReasoningEffort::XHigh);

    // "limited" only declares minimal, so xhigh must be dropped.
    app.execute_command("/model local/limited");
    assert_eq!(app.selected_model, 2);
    assert_eq!(app.effort, None);
    assert!(app.notice.as_deref().unwrap().contains("Switched"));

    // Unknown capabilities never restrict the effort.
    app.execute_command("/model local/plain");
    assert_eq!(app.selected_model, 0);
    app.effort = Some(ReasoningEffort::Max);

    // Bare model IDs match when unique.
    app.execute_command("/model limited");
    assert_eq!(app.selected_model, 2);
    assert_eq!(app.effort, None);

    app.execute_command("/model nope/missing");
    assert_eq!(app.selected_model, 2);
    assert!(app.notice.as_deref().unwrap().contains("No model matches"));
}

#[test]
fn clear_command_resets_the_transcript_view_only() {
    let mut app = app();
    let event = message(&app, "Hello, Nexa");
    app.apply(event);
    assert!(!app.transcript.is_empty());

    assert!(!app.execute_command("/clear"));
    assert!(app.transcript.is_empty());
}

#[test]
fn the_first_character_of_a_command_is_dropped() {
    let mut app = app();
    assert!(app.execute_command(":quit"));
    assert!(!app.execute_command("quit"));
    assert!(app.notice.as_deref().unwrap().starts_with("Unknown command /uit."));
}

#[test]
fn clearing_keeps_the_draft_the_model_and_the_effort() {
    let mut app = app_with_choices();
    app.execute_command("/model local/thinker");
    app.execute_command("/reasoning high");
    app.insert('x');
    let event = message(&app, "Hello");
    app.apply(event);
    app.execute_command("/CLEAR");
    assert_eq!(app.input_text(), "x");
    assert_eq!(app.selected_model, 1);
    assert_eq!(app.effort, Some(ReasoningEffort::High));
    assert_eq!(app.notice.as_deref(), Some("Cleared the transcript view."));
    assert_eq!((app.scroll, app.follow_tail), (0, true));
}

#[test]
fn no_models_are_an_error() {
    let error = App::new(Vec::new(), None, None).unwrap_err();
    assert_eq!(error, TuiError::NoModels);
    assert_eq!(
        error.message(),
        "the runtime has no configured models; run `nexa provider add` first"
    );
    assert_eq!(
        TuiError::TerminalEventsClosed.message(),
        "terminal event stream closed"
    );
    assert_eq!(TuiError::Io("broken pipe".to_owned()).message(), "broken pipe");
    assert_eq!(TuiError::Client("refused".to_owned()).message(), "refused");
}

#[test]
fn a_persisted_default_is_selected_silently() {
    let providers = || {
        vec![ProviderSummary {
            id: "local".to_owned(),
            name: "Local".to_owned(),
            api_format: ApiFormat::ChatCompletions,
            models: vec![
                ModelSummary {
                    id: "a".to_owned(),
                    reasoning_efforts: None,
                },
                ModelSummary {
                    id: "b".to_owned(),
                    reasoning_efforts: None,
                },
            ],
        }]
    };
    let preferred = ModelRef {
        provider: "local".to_owned(),
        id: "b".to_owned(),
    };
    let app = App::new(providers(), Some(preferred), Some(ReasoningEffort::Low)).unwrap();
    assert_eq!(app.selected_model, 1);
    assert!(!app.picker_open);
    assert_eq!(app.effort, Some(ReasoningEffort::Low));

    let gone = ModelRef {
        provider: "local".to_owned(),
        id: "gone".to_owned(),
    };
    let app = App::new(providers(), Some(gone), None).unwrap();
    assert_eq!(app.selected_model, 0);
    assert!(app.picker_open, "a vanished default has to be asked for");
}

#[test]
fn enter_sends_the_message_and_a_second_one_waits() {
    let mut app = app();
    type_text(&mut app, " hi ");
    let action = app.handle_key(key(KeyCode::Enter));
    assert_eq!(
        action,
        TuiAction::Submit {
            model: ModelRef {
                provider: "local".to_owned(),
                id: "model".to_owned(),
            },
            effort: None,
            message: " hi ".to_owned(),
        }
    );
    type_text(&mut app, "again");
    assert_eq!(app.handle_key(key(KeyCode::Enter)), TuiAction::Stay);
    assert_eq!(app.input_text(), "again");
    app.finish_submission(Submission {
        message: " hi ".to_owned(),
        result: Ok(()),
    });
    assert!(matches!(
        app.handle_key(key(KeyCode::Enter)),
        TuiAction::Submit { .. }
    ));
}

#[test]
fn blank_input_is_not_sent() {
    let mut app = app();
    type_text(&mut app, "  ");
    assert_eq!(app.handle_key(key(KeyCode::Enter)), TuiAction::Stay);
    assert!(!app.submitting);
}

#[test]
fn slash_commands_reach_the_surroundings() {
    let mut app = app();
    type_text(&mut app, " /new");
    assert_eq!(app.handle_key(key(KeyCode::Enter)), TuiAction::Detach);
    assert_eq!(app.notice.as_deref(), Some("Creating a new chat…"));
    assert_eq!(app.input_text(), "");

    type_text(&mut app, "/sessions");
    assert_eq!(app.handle_key(key(KeyCode::Enter)), TuiAction::ListSessions);

    type_text(&mut app, "/quit");
    assert_eq!(app.handle_key(key(KeyCode::Enter)), TuiAction::Quit);

    let mut app = app_with_choices();
    app.picker_open = false;
    type_text(&mut app, "/frobnicate now");
    assert_eq!(app.handle_key(key(KeyCode::Enter)), TuiAction::Stay);
    assert_eq!(
        app.notice.as_deref(),
        Some(
            "Unknown command /frobnicate. Available: /new, /sessions, /model, /reasoning, /clear, /quit."
        )
    );
}

#[test]
fn quoted_arguments_are_shown_as_debug_text() {
    let mut app = app();
    app.execute_command("/model a\"b");
    assert_eq!(app.notice.as_deref(), Some("No model matches \"a\\\"b\"."));
}

#[test]
fn editing_moves_the_cursor() {
    let mut app = app();
    type_text(&mut app, "abc");
    app.handle_key(key(KeyCode::Left));
    app.handle_key(key(KeyCode::Backspace));
    assert_eq!(app.input_text(), "ac");
    app.handle_key(key(KeyCode::Home));
    app.handle_key(key(KeyCode::Delete));
    assert_eq!(app.input_text(), "c");
    app.handle_key(key(KeyCode::End));
    app.handle_key(key(KeyCode::Right));
    assert_eq!(app.cursor, 1);
    app.handle_key(Key {
        code: KeyCode::Char('u'),
        control: true,
        shift: false,
        other: false,
    });
    assert_eq!(app.input_text(), "");
    app.handle_key(Key {
        code: KeyCode::Char('x'),
        control: false,
        shift: false,
        other: true,
    });
    assert_eq!(app.input_text(), "", "other modifiers type nothing");
    assert_eq!(
        app.handle_key(Key {
            code: KeyCode::Char('c'),
            control: true,
            shift: false,
            other: false,
        }),
        TuiAction::Quit
    );
}

#[test]
fn the_wheel_and_the_paging_keys_scroll() {
    let mut app = app();
    app.scroll = 10;
    app.handle_terminal_event(TerminalInput::WheelUp);
    assert_eq!((app.scroll, app.follow_tail), (7, false));
    app.handle_terminal_event(TerminalInput::WheelDown);
    assert_eq!(app.scroll, 10);
    app.handle_terminal_event(TerminalInput::Press(key(KeyCode::PageUp)));
    assert_eq!(app.scroll, 2);
    app.handle_terminal_event(TerminalInput::Press(key(KeyCode::PageUp)));
    assert_eq!(app.scroll, 0);
    app.handle_terminal_event(TerminalInput::Press(key(KeyCode::PageDown)));
    assert_eq!(app.scroll, 8);
    app.handle_terminal_event(TerminalInput::Ignored);
    assert_eq!(app.scroll, 8);
}

#[test]
fn the_model_picker_wraps_around() {
    let mut app = app_with_choices();
    app.picker_open = false;
    app.handle_key(key(KeyCode::F2));
    assert!(app.picker_open);
    app.handle_key(key(KeyCode::Up));
    assert_eq!(app.picker_model, 2);
    app.handle_key(key(KeyCode::Char('j')));
    assert_eq!(app.picker_model, 0);
    app.handle_key(key(KeyCode::Down));
    app.handle_key(key(KeyCode::Enter));
    assert_eq!(app.selected_model, 1);
    assert!(!app.picker_open);
    app.handle_key(key(KeyCode::F2));
    app.handle_key(key(KeyCode::Esc));
    assert!(!app.picker_open);
}

#[test]
fn sessions_are_listed_and_chosen() {
    let mut app = app();
    assert_eq!(app.handle_control(Control::Sessions(Vec::new())), ClientChange::Keep);
    assert_eq!(
        app.notice.as_deref(),
        Some("No saved sessions for this workspace yet.")
    );
    let session = |id: &str| SessionSummary {
        id: id.to_owned(),
        created_at_ms: 1,
        last_opened_ms: 2,
    };
    app.handle_control(Control::Sessions(vec![session("a"), session("b")]));
    assert!(app.sessions_open);
    app.handle_key(key(KeyCode::Char('k')));
    assert_eq!(
        app.handle_key(key(KeyCode::Enter)),
        TuiAction::Switch(session("b"))
    );
    assert!(!app.sessions_open);
}

#[test]
fn switching_sessions_starts_from_a_clean_view() {
    let mut app = app();
    app.insert('d');
    let event = message(&app, "Hello");
    app.apply(event);
    app.submitting = true;
    let change = app.handle_control(Control::StreamReady {
        session_id: "s".to_owned(),
    });
    assert_eq!(change, ClientChange::Select("s".to_owned()));
    assert!(app.transcript.is_empty());
    assert!(!app.submitting);
    assert_eq!(app.input_text(), "d");
    assert_eq!(app.handle_control(Control::Detached), ClientChange::Clear);
    app.handle_control(Control::Failed("no".to_owned()));
    assert_eq!(app.notice.as_deref(), Some("no"));
}
