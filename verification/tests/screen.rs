//! What the terminal client shows.

use nexa::protocol::{ApiFormat, ModelSummary, ProviderSummary, ReasoningEffort, SessionSummary};
use nexa::screen::{
    checked_sum, header_line, model_picker_lines, popup_height, popup_rows_on_screen,
    popup_side_percent, session_picker_lines, transcript_lines, visual_line_count, wrapped_rows,
    Line, Span, Tone,
};
use nexa::tui::{App, RunState, ToolState, TranscriptItem};

fn app() -> App {
    App::new(
        vec![ProviderSummary {
            id: "local".to_owned(),
            name: "Local".to_owned(),
            api_format: ApiFormat::ChatCompletions,
            models: vec![
                ModelSummary {
                    id: "model".to_owned(),
                    reasoning_efforts: None,
                },
                ModelSummary {
                    id: "other".to_owned(),
                    reasoning_efforts: None,
                },
            ],
        }],
        None,
        None,
    )
    .unwrap()
}

fn text(line: &Line) -> String {
    line.spans.iter().map(|span| span.text.as_str()).collect()
}

fn line(content: &str) -> Line {
    Line {
        spans: vec![Span {
            text: content.to_owned(),
            tone: Tone::Plain,
        }],
    }
}

#[test]
fn an_empty_transcript_invites() {
    let lines = transcript_lines(&app());
    assert_eq!(lines.len(), 2);
    assert_eq!(
        text(&lines[1]),
        "  Start a conversation with the selected model."
    );
}

#[test]
fn entries_stand_below_their_headings() {
    let mut app = app();
    app.transcript = vec![
        TranscriptItem::User("one\ntwo\r\n".to_owned()),
        TranscriptItem::Assistant {
            run_id: "r".to_owned(),
            text: String::new(),
            finalized: false,
        },
        TranscriptItem::Tool {
            call_id: "c".to_owned(),
            name: "read_file".to_owned(),
            state: ToolState::Failed,
        },
        TranscriptItem::Assistant {
            run_id: "r".to_owned(),
            text: "done".to_owned(),
            finalized: true,
        },
        TranscriptItem::Error("lost".to_owned()),
    ];
    let lines = transcript_lines(&app);
    let shown: Vec<String> = lines.iter().map(text).collect();
    assert_eq!(
        shown,
        vec![
            "You",
            "one",
            "two",
            "  ↳ read_file · failed",
            "",
            "Assistant",
            "done",
            "Run failed: lost",
        ]
    );
    assert_eq!(lines[3].spans[2].tone, Tone::Alert);
}

#[test]
fn rows_are_counted_in_terminal_columns() {
    // Wide characters take two columns, so this is no count of characters.
    assert_eq!(line("日本語").width(), Some(6));
    assert_eq!(line("abc").width(), Some(3));
    let lines = vec![line(""), line("abcdef"), line("日本語")];
    assert_eq!(visual_line_count(&lines, 4), Some(1 + 2 + 2));
    assert_eq!(visual_line_count(&lines, 0), Some(1 + 6 + 6));
}

#[test]
fn the_tail_is_followed_until_the_user_scrolls_up() {
    let mut app = app();
    assert_eq!(app.settle_scroll(30, 10), 20);
    app.scroll_up(5);
    assert_eq!(app.settle_scroll(40, 10), 15);
    assert!(!app.follow_tail);
    app.scroll_down(100);
    assert_eq!(app.settle_scroll(40, 10), 30);
    assert!(app.follow_tail);
    assert_eq!(app.settle_scroll(5, 10), 0);
    assert_eq!(app.settle_scroll(100_000, 1), u16::MAX);
}

#[test]
fn the_composer_keeps_the_cursor_visible() {
    let mut app = app();
    assert_eq!(text(&app.composer_line()), "Ask Nexa anything…");
    for character in "0123456789".chars() {
        app.insert(character);
    }
    assert_eq!(text(&app.composer_line()), "0123456789");
    assert_eq!(app.composer_view(20), (0, 10));
    assert_eq!(app.composer_view(5), (6, 4));
    assert_eq!(app.composer_view(0), (10, 0));
}

#[test]
fn the_header_names_model_effort_and_state() {
    let mut app = app();
    assert_eq!(
        text(&header_line(&app)),
        " NEXA   local  Local / model  ·  effort default  ·  idle"
    );
    app.effort = Some(ReasoningEffort::XHigh);
    app.run_state = RunState::Failed;
    assert_eq!(
        text(&header_line(&app)),
        " NEXA   local  Local / model  ·  effort xhigh  ·  failed"
    );
    app.submitting = true;
    assert!(text(&header_line(&app)).ends_with("sending"));
}

#[test]
fn the_footer_shows_a_notice_or_the_keys() {
    let mut app = app();
    assert_eq!(
        text(&app.footer_line()),
        " Enter send  ·  F2 models  ·  PgUp/PgDn scroll  ·  Ctrl+C quit "
    );
    app.notice = Some("careful".to_owned());
    assert_eq!(text(&app.footer_line()), "careful");
}

#[test]
fn popups_fit_the_screen() {
    assert_eq!(popup_height(3, 40), 7);
    assert_eq!(popup_height(100, 40), 38);
    assert_eq!(popup_height(0, 3), 5);
    assert_eq!(popup_height(usize::MAX, u16::MAX), u16::MAX - 2);
    assert_eq!(popup_rows_on_screen(7, 40), (16, 7));
    assert_eq!(popup_rows_on_screen(7, 5), (0, 5));
    assert_eq!(popup_side_percent(70), 15);
}

#[test]
fn pickers_mark_the_chosen_entry() {
    let mut app = app();
    app.picker_model = 1;
    let lines: Vec<String> = model_picker_lines(&app).iter().map(text).collect();
    assert_eq!(
        lines,
        vec![
            "  Local / model  (local)",
            "› Local / other  (local)",
            "",
            "↑/↓ select  ·  Enter choose  ·  Esc close",
        ]
    );
    let sessions = vec![SessionSummary {
        id: "session-1a2b3c4d-9c8d7e6f".to_owned(),
        created_at_ms: 0,
        last_opened_ms: 1_000,
    }];
    let lines: Vec<String> = session_picker_lines(&sessions, 0, 121_000)
        .iter()
        .map(text)
        .collect();
    assert_eq!(lines[0], "› 1a2b…9c8d7e6f  ·  last opened 2 min ago");
    assert_eq!(lines[2], "↑/↓ select  ·  Enter switch  ·  Esc close");
}

#[test]
fn columns_wrap_into_rows() {
    assert_eq!(wrapped_rows(&vec![0, 10, 11, 25], 10), Some(1 + 1 + 2 + 3));
    assert_eq!(wrapped_rows(&vec![3], 0), Some(3));
    assert_eq!(wrapped_rows(&vec![], 10), Some(0));
    assert_eq!(wrapped_rows(&vec![usize::MAX, 1], 1), None);
}

#[test]
fn sums_that_do_not_fit_are_none() {
    assert_eq!(checked_sum(&vec![1, 2, 3]), Some(6));
    assert_eq!(checked_sum(&vec![]), Some(0));
    assert_eq!(checked_sum(&vec![usize::MAX, 0]), Some(usize::MAX));
    assert_eq!(checked_sum(&vec![usize::MAX, 1]), None);
}
