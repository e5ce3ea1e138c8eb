//! The Markdown subset.

use nexa::markdown::{inline_pieces, render_markdown, Block, Inline};

fn piece(text: &str, bold: bool, code: bool) -> Inline {
    Inline {
        text: text.to_owned(),
        bold,
        code,
    }
}

#[test]
fn running_text_has_bold_and_code() {
    assert_eq!(
        inline_pieces("a **b `c` d** e"),
        vec![
            piece("a ", false, false),
            piece("b ", true, false),
            piece("c", false, true),
            piece(" d", true, false),
            piece(" e", false, false),
        ]
    );
    assert_eq!(inline_pieces("**open"), vec![piece("open", true, false)]);
    assert_eq!(inline_pieces("`open"), vec![piece("open", false, true)]);
    assert_eq!(inline_pieces(""), Vec::new());
    assert_eq!(inline_pieces("****"), Vec::new());
}

#[test]
fn nothing_but_markers_is_lost() {
    for text in ["a **b** c", "x `y` **z `w` v**", "** ` **", "plain"] {
        let shown: String = inline_pieces(text).into_iter().map(|piece| piece.text).collect();
        let expected: String = text.replace("**", "").replace('`', "");
        assert_eq!(shown, expected, "{text}");
    }
}

#[test]
fn blocks_are_headings_bullets_paragraphs_and_gaps() {
    assert_eq!(
        render_markdown("# One\n## Two\n### Three\nfirst\nsecond  \n\n- item\n* other\n#no"),
        vec![
            Block::Heading { level: 1, text: "One".to_owned() },
            Block::Heading { level: 2, text: "Two".to_owned() },
            Block::Heading { level: 3, text: "Three".to_owned() },
            Block::Paragraph(vec![piece("first second", false, false)]),
            Block::Gap,
            Block::Bullet(vec![piece("item", false, false)]),
            Block::Bullet(vec![piece("other", false, false)]),
            Block::Paragraph(vec![piece("#no", false, false)]),
        ]
    );
}

#[test]
fn code_stands_between_fences() {
    assert_eq!(
        render_markdown("see\n```rust\nfn main() {}\n\n```\nend"),
        vec![
            Block::Paragraph(vec![piece("see", false, false)]),
            Block::Code("fn main() {}".to_owned()),
            Block::Gap,
            Block::Paragraph(vec![piece("end", false, false)]),
        ]
    );
    assert_eq!(
        render_markdown("```\nopen\n"),
        vec![Block::Code("open\n".to_owned())]
    );
    assert_eq!(render_markdown("```rust"), vec![Block::Code(String::new())]);
}
