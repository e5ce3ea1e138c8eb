//! Short texts.

use nexa::labels::{
    effort_hint, effort_label, relative_time, short_id, title_from_message, truncate,
    workspace_label,
};
use nexa::protocol::ReasoningEffort;

#[test]
fn workspaces_show_their_last_component() {
    assert_eq!(workspace_label("/home/user/code/nexa"), "nexa");
    assert_eq!(workspace_label("/home/user/code/nexa//"), "nexa");
    assert_eq!(workspace_label("nexa"), "nexa");
    assert_eq!(workspace_label("///"), "///");
    assert_eq!(workspace_label(""), "");
}

#[test]
fn ages_are_coarse() {
    assert_eq!(relative_time(0, 59_999), "just now");
    assert_eq!(relative_time(0, 60_000), "1 min ago");
    assert_eq!(relative_time(0, 3_599_999), "59 min ago");
    assert_eq!(relative_time(0, 3_600_000), "1 h ago");
    assert_eq!(relative_time(0, 86_400_000), "1 d ago");
    assert_eq!(relative_time(10, 5), "just now");
}

#[test]
fn texts_are_cut_by_characters() {
    assert_eq!(truncate("olá", 3), "olá");
    assert_eq!(truncate("olá!", 3), "olá…");
    assert_eq!(truncate("x", 0), "…");
    assert_eq!(truncate("", 0), "");
}

#[test]
fn titles_come_from_the_first_written_line() {
    assert_eq!(title_from_message("\n   \n  Fix it  \nplease"), "Fix it");
    assert_eq!(title_from_message("   "), "");
    let long = "a".repeat(50);
    assert_eq!(title_from_message(&long), format!("{}…", "a".repeat(42)));
}

#[test]
fn ids_are_shortened_for_display() {
    assert_eq!(short_id("session-1a2b3c4d-9c8d7e6f"), "1a2b…9c8d7e6f");
    assert_eq!(short_id("session-ab-cd"), "ab…cd");
    assert_eq!(short_id("session-nothing"), "session-nothing");
    assert_eq!(short_id("abcdef-x"), "abcd…x");
}

#[test]
fn efforts_have_names_and_hints() {
    assert_eq!(effort_label(None), "Default");
    assert_eq!(effort_label(Some(ReasoningEffort::XHigh)), "Extra high");
    assert_eq!(
        effort_hint(ReasoningEffort::Max),
        "Largest reasoning budget"
    );
}
