//! Text, tables and the protocol's spellings.

use nexa::protocol::{ReasoningEffort, PROTOCOL_VERSION};
use nexa::table::Table;
use nexa::text::{
    contains_text, count_text, cut_text, decimal_text, hex_text, join_text, lines_text,
    replace_first_text, split_once_text, split_text, text_precedes, trim_end_text, trim_text,
    words_text,
};

#[test]
fn texts_are_taken_apart() {
    assert_eq!(lines_text("a\r\nb\n\nc"), vec!["a", "b", "", "c"]);
    assert_eq!(lines_text("a\n"), vec!["a"]);
    assert!(lines_text("").is_empty());
    assert_eq!(words_text(" a \u{2003}b\t"), vec!["a", "b"]);
    assert_eq!(split_text("a,,b", ','), vec!["a", "", "b"]);
    assert_eq!(
        split_once_text("a/b/c", '/'),
        Some(("a".to_owned(), "b/c".to_owned()))
    );
    assert_eq!(
        cut_text("a**b**c", "**"),
        Some(("a".to_owned(), "b**c".to_owned()))
    );
    assert_eq!(cut_text("abc", "**"), None);
    assert_eq!(trim_text("\u{a0} x \n"), "x");
    assert_eq!(trim_end_text(" x \n"), " x");
    assert_eq!(join_text(&vec!["a".to_owned(), "b".to_owned()], ", "), "a, b");
}

#[test]
fn needles_are_found_at_every_position() {
    assert!(contains_text("olá", "lá"));
    assert!(contains_text("x", ""));
    assert_eq!(count_text("aaa", "aa"), 2);
    assert_eq!(count_text("same same", "same"), 2);
    assert_eq!(count_text("a", "aa"), 0);
    assert_eq!(replace_first_text("abab", "b", "x"), "axab");
}

#[test]
fn numbers_and_bytes_are_written() {
    assert_eq!(decimal_text(0), "0");
    assert_eq!(decimal_text(u64::MAX), "18446744073709551615");
    assert_eq!(hex_text(&[0x0a, 0xff], 1), "0a");
    assert!(text_precedes("a", "ab"));
    assert!(!text_precedes("b", "ab"));
}

#[test]
fn tables_keep_their_keys_sorted() {
    let mut table: Table<u32> = Table::new();
    table.put("b".to_owned(), 1);
    table.put("a".to_owned(), 2);
    table.put("b".to_owned(), 3);
    assert_eq!(table.len(), 2);
    assert_eq!(table.key(0), "a");
    assert_eq!(table.get("b"), Some(&3));
    assert_eq!(table.get("c"), None);
}

#[test]
fn efforts_are_spelled_and_read() {
    for effort in ReasoningEffort::ALL {
        assert_eq!(ReasoningEffort::parse(effort.as_str()), Some(effort));
    }
    assert_eq!(ReasoningEffort::parse("banana"), None);
    assert_eq!(PROTOCOL_VERSION, 2);
}
