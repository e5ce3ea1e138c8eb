//! The small Markdown subset that the desktop client shows: fenced code,
//! headings, bullets and paragraphs, with bold text and inline code.

use crate::text::{
    cut, cut_parts, cut_text, find, find_is_first_match, index_of, index_of_bounds, is_space, lines, lines_text, match_at, split_once, split_once_parts, split_once_text,
    starts_with, strip_prefix_text, trim_end, trim_end_char, trim_end_char_text, trim_end_text,
    views, Text,
};
use vstd::prelude::*;

verus! {

/// The content of an [`Inline`].
#[verifier::ext_equal]
pub struct InlineView {
    pub text: Text,
    pub bold: bool,
    pub code: bool,
}

/// A piece of running text.
#[derive(Debug, Eq, PartialEq)]
pub struct Inline {
    pub text: String,
    pub bold: bool,
    pub code: bool,
}

impl View for Inline {
    type V = InlineView;

    open spec fn view(&self) -> InlineView {
        InlineView {
            text: self.text@,
            bold: self.bold,
            code: self.code,
        }
    }
}

impl Clone for Inline {
    fn clone(&self) -> (r: Self)
        ensures
            r@ == self@,
    {
        let r = Inline {
            text: self.text.clone(),
            bold: self.bold,
            code: self.code,
        };
        assert(r@ =~~= self@);
        r
    }
}

/// The content of a [`Block`].
#[verifier::ext_equal]
pub enum BlockView {
    Heading { level: usize, text: Text },
    Bullet(Seq<InlineView>),
    Paragraph(Seq<InlineView>),
    Gap,
    Code(Text),
}

/// A block of a message.
#[derive(Debug, Eq, PartialEq)]
pub enum Block {
    Heading { level: usize, text: String },
    Bullet(Vec<Inline>),
    Paragraph(Vec<Inline>),
    Gap,
    Code(String),
}

impl View for Block {
    type V = BlockView;

    open spec fn view(&self) -> BlockView {
        match self {
            Block::Heading { level, text } => BlockView::Heading {
                level: *level,
                text: text@,
            },
            Block::Bullet(item) => BlockView::Bullet(views(item@)),
            Block::Paragraph(item) => BlockView::Paragraph(views(item@)),
            Block::Gap => BlockView::Gap,
            Block::Code(item) => BlockView::Code(item@),
        }
    }
}

impl Clone for Block {
    fn clone(&self) -> (r: Self)
        ensures
            r@ == self@,
    {
        let r = match self {
            Block::Heading { level, text } => Block::Heading {
                level: *level,
                text: text.clone(),
            },
            Block::Bullet(item) => Block::Bullet(item.clone()),
            Block::Paragraph(item) => Block::Paragraph(item.clone()),
            Block::Gap => Block::Gap,
            Block::Code(item) => Block::Code(item.clone()),
        };
        assert(r@ =~~= self@);
        r
    }
}

/// A piece of text; an empty one is not shown.
pub open spec fn piece(text: Text, bold: bool, code: bool) -> Seq<InlineView> {
    if text.len() == 0 {
        seq![]
    } else {
        seq![InlineView { text, bold, code }]
    }
}

/// Text with inline code between backticks. Code is never bold, and an open
/// backtick reaches to the end.
pub open spec fn code_pieces(text: Text, bold: bool) -> Seq<InlineView>
    decreases text.len(),
{
    match split_once(text, '`') {
        None => piece(text, bold, false),
        Some((before, rest)) => piece(before, bold, false) + match split_once(rest, '`') {
            None => piece(rest, false, true),
            Some((code, after)) => {
                proof {
                    split_once_parts(text, '`');
                    split_once_parts(rest, '`');
                }
                piece(code, false, true) + code_pieces(after, bold)
            },
        },
    }
}

/// Running text: bold between double asterisks, of which an open pair reaches
/// to the end, and inline code within.
pub open spec fn inlines(text: Text) -> Seq<InlineView>
    decreases text.len(),
{
    match cut(text, "**"@) {
        None => code_pieces(text, false),
        Some((before, rest)) => code_pieces(before, false) + match cut(rest, "**"@) {
            None => code_pieces(rest, true),
            Some((bold, after)) => {
                proof {
                    reveal_strlit("**");
                    cut_parts(text, "**"@);
                    cut_parts(rest, "**"@);
                }
                code_pieces(bold, true) + inlines(after)
            },
        },
    }
}

/// The block that a line is by itself: a heading or a bullet.
pub open spec fn line_block(line: Text) -> Option<BlockView> {
    if starts_with(line, "### "@) {
        Some(BlockView::Heading { level: 3, text: line.skip("### "@.len() as int) })
    } else if starts_with(line, "## "@) {
        Some(BlockView::Heading { level: 2, text: line.skip("## "@.len() as int) })
    } else if starts_with(line, "# "@) {
        Some(BlockView::Heading { level: 1, text: line.skip("# "@.len() as int) })
    } else if starts_with(line, "- "@) {
        Some(BlockView::Bullet(inlines(line.skip("- "@.len() as int))))
    } else if starts_with(line, "* "@) {
        Some(BlockView::Bullet(inlines(line.skip("* "@.len() as int))))
    } else {
        None
    }
}

/// A collected paragraph; an empty one is not shown.
pub open spec fn paragraph_block(paragraph: Text) -> Seq<BlockView> {
    if paragraph.len() == 0 {
        seq![]
    } else {
        seq![BlockView::Paragraph(inlines(paragraph))]
    }
}

/// A paragraph with one more line: the lines are joined by spaces.
pub open spec fn joined_line(paragraph: Text, line: Text) -> Text {
    if paragraph.len() == 0 {
        line
    } else {
        paragraph + " "@ + line
    }
}

/// The blocks of lines outside of code, behind a paragraph collected so far.
pub open spec fn line_blocks(lines: Seq<Text>, paragraph: Text) -> Seq<BlockView>
    decreases lines.len(),
{
    if lines.len() == 0 {
        paragraph_block(paragraph)
    } else {
        let line = trim_end(lines[0]);
        let rest = lines.skip(1);
        if line.len() == 0 {
            paragraph_block(paragraph).push(BlockView::Gap) + line_blocks(rest, seq![])
        } else {
            match line_block(line) {
                Some(block) => paragraph_block(paragraph).push(block) + line_blocks(rest, seq![]),
                None => line_blocks(rest, joined_line(paragraph, line)),
            }
        }
    }
}

/// The blocks of a text without code fences.
pub open spec fn text_blocks(text: Text) -> Seq<BlockView> {
    line_blocks(lines(text), seq![])
}

/// What a code fence holds: what follows its first line.
pub open spec fn fence_body(rest: Text) -> Text {
    match split_once(rest, '\n') {
        Some((_, body)) => body,
        None => seq![],
    }
}

/// The blocks of a message. Code stands between fences of three backticks; an
/// open fence reaches to the end.
pub open spec fn markdown(text: Text) -> Seq<BlockView>
    decreases text.len(),
{
    match cut(text, "```"@) {
        None => text_blocks(text),
        Some((before, rest)) => text_blocks(before) + match cut(fence_body(rest), "```"@) {
            None => seq![BlockView::Code(fence_body(rest))],
            Some((code, after)) => {
                proof {
                    reveal_strlit("```");
                    cut_parts(text, "```"@);
                    cut_parts(fence_body(rest), "```"@);
                    split_once_parts(rest, '\n');
                }
                seq![BlockView::Code(trim_end_char(code, '\n'))] + markdown(after)
            },
        },
    }
}

fn push_piece(out: &mut Vec<Inline>, text: String, bold: bool, code: bool)
    ensures
        views(final(out)@) == views(old(out)@) + piece(text@, bold, code),
{
    let ghost before = views(out@);
    let ghost added = piece(text@, bold, code);
    if !text.as_str().is_empty() {
        out.push(Inline { text, bold, code });
    }
    assert(views(out@) =~= before + added);
}

fn push_code_pieces(out: &mut Vec<Inline>, text: &str, bold: bool)
    ensures
        views(final(out)@) == views(old(out)@) + code_pieces(text@, bold),
{
    let ghost before = views(out@);
    let mut rest = text.to_owned();
    loop
        invariant
            views(out@) + code_pieces(rest@, bold) =~= before + code_pieces(text@, bold),
            before == views(old(out)@),
        decreases rest@.len(),
    {
        let ghost start = views(out@);
        proof {
            split_once_parts(rest@, '`');
        }
        match split_once_text(&rest, '`') {
            None => {
                push_piece(out, rest, bold, false);
                return;
            },
            Some((plain, tail)) => {
                let ghost pieces = code_pieces(rest@, bold);
                let ghost plain_piece = piece(plain@, bold, false);
                push_piece(out, plain, bold, false);
                proof {
                    split_once_parts(tail@, '`');
                }
                match split_once_text(&tail, '`') {
                    None => {
                        let ghost last = piece(tail@, false, true);
                        push_piece(out, tail, false, true);
                        assert(pieces == plain_piece + last);
                        assert(views(out@) =~= start + pieces);
                        return;
                    },
                    Some((code, after)) => {
                        let ghost code_piece = piece(code@, false, true);
                        push_piece(out, code, false, true);
                        assert(pieces == plain_piece + (code_piece + code_pieces(after@, bold)));
                        assert(views(out@) + code_pieces(after@, bold) =~= start + pieces);
                        rest = after;
                    },
                }
            },
        }
    }
}

/// The pieces of running text.
pub fn inline_pieces(text: &str) -> (r: Vec<Inline>)
    ensures
        views(r@) == inlines(text@),
{
    let mut out: Vec<Inline> = Vec::new();
    let mut rest = text.to_owned();
    assert(views(out@) + inlines(rest@) =~= inlines(text@));
    proof {
        reveal_strlit("**");
    }
    loop
        invariant
            views(out@) + inlines(rest@) =~= inlines(text@),
            "**"@.len() == 2,
        decreases rest@.len(),
    {
        let ghost start = views(out@);
        let ghost pieces = inlines(rest@);
        proof {
            cut_parts(rest@, "**"@);
        }
        match cut_text(&rest, "**") {
            None => {
                push_code_pieces(&mut out, &rest, false);
                return out;
            },
            Some((plain, tail)) => {
                push_code_pieces(&mut out, &plain, false);
                proof {
                    cut_parts(tail@, "**"@);
                }
                match cut_text(&tail, "**") {
                    None => {
                        push_code_pieces(&mut out, &tail, true);
                        assert(pieces == code_pieces(plain@, false) + code_pieces(tail@, true));
                        assert(views(out@) =~= start + pieces);
                        return out;
                    },
                    Some((bold, after)) => {
                        push_code_pieces(&mut out, &bold, true);
                        assert(pieces == code_pieces(plain@, false) + (code_pieces(bold@, true)
                            + inlines(after@)));
                        assert(views(out@) + inlines(after@) =~= start + pieces);
                        rest = after;
                    },
                }
            },
        }
    }
}

fn block_of_line(line: &str) -> (r: Option<Block>)
    ensures
        r is Some <==> line_block(line@) is Some,
        r matches Some(block) ==> line_block(line@) == Some(block@),
{
    if let Some(text) = strip_prefix_text(line, "### ") {
        return Some(Block::Heading { level: 3, text });
    }
    if let Some(text) = strip_prefix_text(line, "## ") {
        return Some(Block::Heading { level: 2, text });
    }
    if let Some(text) = strip_prefix_text(line, "# ") {
        return Some(Block::Heading { level: 1, text });
    }
    if let Some(text) = strip_prefix_text(line, "- ") {
        return Some(Block::Bullet(inline_pieces(&text)));
    }
    if let Some(text) = strip_prefix_text(line, "* ") {
        return Some(Block::Bullet(inline_pieces(&text)));
    }
    None
}

fn push_block(out: &mut Vec<Block>, block: Block)
    ensures
        views(final(out)@) == views(old(out)@).push(block@),
{
    let ghost before = views(out@);
    let ghost added = block@;
    out.push(block);
    assert(views(out@) =~= before.push(added));
}

fn push_paragraph(out: &mut Vec<Block>, paragraph: &str)
    ensures
        views(final(out)@) == views(old(out)@) + paragraph_block(paragraph@),
{
    let ghost before = views(out@);
    if !paragraph.is_empty() {
        push_block(out, Block::Paragraph(inline_pieces(paragraph)));
    }
    assert(views(out@) =~= before + paragraph_block(paragraph@));
}

/// Appends the blocks of a text without code fences.
fn push_text_blocks(out: &mut Vec<Block>, text: &str)
    ensures
        views(final(out)@) == views(old(out)@) + text_blocks(text@),
{
    let ghost before = views(out@);
    let all = lines_text(text);
    let ghost list = views(all@);
    let mut paragraph = String::new();
    let mut i: usize = 0;
    assert(list.skip(0) =~= list);
    assert(paragraph@ =~= seq![]);
    while i < all.len()
        invariant
            i <= all@.len(),
            list == views(all@),
            list == lines(text@),
            before == views(old(out)@),
            views(out@) + line_blocks(list.skip(i as int), paragraph@) =~= before + text_blocks(
                text@,
            ),
        decreases all@.len() - i,
    {
        let ghost start = views(out@);
        let ghost collected = paragraph@;
        let ghost rest = list.skip(i as int + 1);
        assert(list.skip(i as int)[0] == all@[i as int]@);
        assert(list.skip(i as int).skip(1) =~= rest);
        let line = trim_end_text(&all[i]);
        if line.as_str().is_empty() {
            push_paragraph(out, &paragraph);
            push_block(out, Block::Gap);
            paragraph = String::new();
            assert(paragraph@ =~= seq![]);
            assert(views(out@) + line_blocks(rest, seq![]) =~= start + (paragraph_block(
                collected,
            ).push(BlockView::Gap) + line_blocks(rest, seq![])));
        } else if let Some(block) = block_of_line(&line) {
            let ghost shown = block@;
            push_paragraph(out, &paragraph);
            push_block(out, block);
            paragraph = String::new();
            assert(paragraph@ =~= seq![]);
            assert(views(out@) + line_blocks(rest, seq![]) =~= start + (paragraph_block(
                collected,
            ).push(shown) + line_blocks(rest, seq![])));
        } else {
            if paragraph.as_str().is_empty() {
                paragraph = line;
            } else {
                paragraph.push_str(" ");
                paragraph.push_str(&line);
            }
        }
        i += 1;
    }
    assert(list.skip(all@.len() as int) =~= seq![]);
    push_paragraph(out, &paragraph);
}

/// The blocks of a message.
pub fn render_markdown(text: &str) -> (r: Vec<Block>)
    ensures
        views(r@) == markdown(text@),
{
    let mut out: Vec<Block> = Vec::new();
    let mut rest = text.to_owned();
    assert(views(out@) + markdown(rest@) =~= markdown(text@));
    proof {
        reveal_strlit("```");
    }
    loop
        invariant
            views(out@) + markdown(rest@) =~= markdown(text@),
            "```"@.len() == 3,
        decreases rest@.len(),
    {
        let ghost start = views(out@);
        let ghost blocks = markdown(rest@);
        proof {
            cut_parts(rest@, "```"@);
        }
        match cut_text(&rest, "```") {
            None => {
                push_text_blocks(&mut out, &rest);
                return out;
            },
            Some((before, tail)) => {
                push_text_blocks(&mut out, &before);
                proof {
                    split_once_parts(tail@, '\n');
                }
                let body = match split_once_text(&tail, '\n') {
                    Some((_, body)) => body,
                    None => String::new(),
                };
                assert(body@ =~= fence_body(tail@));
                proof {
                    cut_parts(body@, "```"@);
                }
                match cut_text(&body, "```") {
                    None => {
                        let ghost code = body@;
                        push_block(&mut out, Block::Code(body));
                        assert(blocks == text_blocks(before@) + seq![BlockView::Code(code)]);
                        assert(views(out@) =~= start + blocks);
                        return out;
                    },
                    Some((code, after)) => {
                        let shown = trim_end_char_text(&code, '\n');
                        let ghost block = BlockView::Code(shown@);
                        push_block(&mut out, Block::Code(shown));
                        assert(blocks == text_blocks(before@) + (seq![block] + markdown(after@)));
                        assert(views(out@) + markdown(after@) =~= start + blocks);
                        rest = after;
                    },
                }
            },
        }
    }
}

/// The text that pieces show.
pub open spec fn shown_text(pieces: Seq<InlineView>) -> Text
    decreases pieces.len(),
{
    if pieces.len() == 0 {
        seq![]
    } else {
        shown_text(pieces.drop_last()) + pieces.last().text
    }
}

proof fn shown_text_of_both(a: Seq<InlineView>, b: Seq<InlineView>)
    ensures
        shown_text(a + b) == shown_text(a) + shown_text(b),
    decreases b.len(),
{
    if b.len() == 0 {
        assert(a + b =~= a);
        assert(shown_text(a) + shown_text(b) =~= shown_text(a));
    } else {
        assert((a + b).drop_last() =~= a + b.drop_last());
        shown_text_of_both(a, b.drop_last());
        assert(shown_text(a) + shown_text(b.drop_last()) + b.last().text =~= shown_text(a) + (
        shown_text(b.drop_last()) + b.last().text));
    }
}

proof fn shown_text_of_piece(text: Text, bold: bool, code: bool)
    ensures
        shown_text(piece(text, bold, code)) == text,
{
    if text.len() > 0 {
        let pieces = piece(text, bold, code);
        assert(pieces.drop_last() =~= seq![]);
        assert(shown_text(seq![]) + text =~= text);
        assert(shown_text(pieces.drop_last()) =~= seq![]);
    } else {
        assert(text =~= seq![]);
    }
}

/// A text without its backticks.
pub open spec fn without_ticks(text: Text) -> Text {
    text.filter(|c: char| c != '`')
}

proof fn no_tick_to_drop(text: Text)
    requires
        !text.contains('`'),
    ensures
        without_ticks(text) == text,
    decreases text.len(),
{
    reveal(Seq::filter);
    if text.len() > 0 {
        assert(text.last() != '`');
        assert forall|i: int| 0 <= i < text.len() - 1 implies text.drop_last()[i] != '`' by {
            assert(text[i] != '`');
        }
        no_tick_to_drop(text.drop_last());
        assert(text.drop_last().push(text.last()) =~= text);
    }
}

proof fn ticks_around(head: Text, tail: Text)
    requires
        !head.contains('`'),
    ensures
        without_ticks(head.push('`') + tail) == head + without_ticks(tail),
{
    let pred = |c: char| c != '`';
    Seq::filter_distributes_over_add(head.push('`'), tail, pred);
    assert(head.push('`').filter(pred) == head) by {
        reveal(Seq::filter);
        assert(head.push('`').drop_last() =~= head);
        no_tick_to_drop(head);
    }
}

/// Inline code loses its backticks and nothing else.
pub proof fn code_pieces_keep_the_text(text: Text, bold: bool)
    ensures
        shown_text(code_pieces(text, bold)) == without_ticks(text),
    decreases text.len(),
{
    split_once_parts(text, '`');
    match split_once(text, '`') {
        None => {
            shown_text_of_piece(text, bold, false);
            no_tick_to_drop(text);
        },
        Some((before, rest)) => {
            ticks_around(before, rest);
            shown_text_of_piece(before, bold, false);
            split_once_parts(rest, '`');
            match split_once(rest, '`') {
                None => {
                    no_tick_to_drop(rest);
                    shown_text_of_piece(rest, false, true);
                    shown_text_of_both(piece(before, bold, false), piece(rest, false, true));
                },
                Some((code, after)) => {
                    ticks_around(code, after);
                    code_pieces_keep_the_text(after, bold);
                    shown_text_of_piece(code, false, true);
                    shown_text_of_both(piece(code, false, true), code_pieces(after, bold));
                    shown_text_of_both(
                        piece(before, bold, false),
                        piece(code, false, true) + code_pieces(after, bold),
                    );
                },
            }
        },
    }
}

/// A text without its markers: double asterisks and backticks.
pub open spec fn without_markers(text: Text) -> Text
    decreases text.len(),
{
    match cut(text, "**"@) {
        None => without_ticks(text),
        Some((before, rest)) => {
            proof {
                reveal_strlit("**");
                cut_parts(text, "**"@);
            }
            without_ticks(before) + without_markers(rest)
        },
    }
}

/// Running text loses its markers and nothing else: every other character is
/// shown, once and in order.
pub proof fn inlines_keep_the_text(text: Text)
    ensures
        shown_text(inlines(text)) == without_markers(text),
    decreases text.len(),
{
    reveal_with_fuel(without_markers, 2);
    reveal_strlit("**");
    cut_parts(text, "**"@);
    match cut(text, "**"@) {
        None => {
            code_pieces_keep_the_text(text, false);
        },
        Some((before, rest)) => {
            code_pieces_keep_the_text(before, false);
            cut_parts(rest, "**"@);
            match cut(rest, "**"@) {
                None => {
                    code_pieces_keep_the_text(rest, true);
                    shown_text_of_both(code_pieces(before, false), code_pieces(rest, true));
                },
                Some((bold, after)) => {
                    code_pieces_keep_the_text(bold, true);
                    inlines_keep_the_text(after);
                    shown_text_of_both(code_pieces(bold, true), inlines(after));
                    shown_text_of_both(
                        code_pieces(before, false),
                        code_pieces(bold, true) + inlines(after),
                    );
                },
            }
        },
    }
}

proof fn cut_at_the_first(head: Text, needle: Text, rest: Text)
    requires
        needle.len() > 0,
        find(head + needle.drop_last(), needle) is None,
    ensures
        cut(head + needle + rest, needle) == Some((head, rest)),
{
    let whole = head + needle + rest;
    let start = head + needle.drop_last();
    find_is_first_match(whole, needle);
    find_is_first_match(start, needle);
    let size = head.len() as int;
    assert(whole.subrange(size, size + needle.len()) =~= needle);
    assert(match_at(whole, needle, size));
    let at = find(whole, needle)->0;
    if at < size {
        assert(start.subrange(at, at + needle.len()) =~= whole.subrange(at, at + needle.len()));
        assert(match_at(start, needle, at));
    }
    assert(at == size);
    assert(whole.take(size) =~= head);
    assert(whole.skip(size + needle.len()) =~= rest);
}

proof fn split_at_the_first(head: Text, c: char, rest: Text)
    requires
        !head.contains(c),
    ensures
        split_once(head.push(c) + rest, c) == Some((head, rest)),
{
    let whole = head.push(c) + rest;
    index_of_bounds(whole, c);
    let at = index_of(whole, c);
    assert(whole[head.len() as int] == c);
    if at < head.len() {
        assert(head[at] == whole[at]);
        assert(head.contains(head[at]));
    }
    assert(whole.take(at) =~= head);
    assert(whole.skip(at + 1) =~= rest);
}

/// What stands between two fences is shown as code, just as it was written but for the line
/// break before the second fence; what stands before them and behind them is shown as it is
/// without them.
pub proof fn fenced_code_is_kept(before: Text, language: Text, code: Text, after: Text)
    requires
        find(before + "``"@, "```"@) is None,
        !language.contains('\n'),
        find(code.push('\n') + "``"@, "```"@) is None,
        code.len() > 0 ==> code.last() != '\n',
    ensures
        markdown(
            before + "```"@ + (language.push('\n') + (code.push('\n') + "```"@ + after)),
        ) == markdown(before) + seq![BlockView::Code(code)] + markdown(after),
{
    reveal_strlit("```");
    reveal_strlit("``");
    assert("```"@.drop_last() =~= "``"@);
    let written = code.push('\n');
    assert(written.drop_last() =~= code);
    assert(trim_end_char(written, '\n') == code) by {
        reveal_with_fuel(trim_end_char, 2);
    }
    let body = written + "```"@ + after;
    let rest = language.push('\n') + body;
    let text = before + "```"@ + rest;
    cut_at_the_first(before, "```"@, rest);
    cut_at_the_first(written, "```"@, after);
    split_at_the_first(language, '\n', body);
    find_is_first_match(before, "```"@);
    find_is_first_match(before + "``"@, "```"@);
    if let Some(at) = find(before, "```"@) {
        assert((before + "``"@).subrange(at, at + 3) =~= before.subrange(at, at + 3));
        assert(match_at(before + "``"@, "```"@, at));
    }
    assert(markdown(before) == text_blocks(before));
    assert(fence_body(rest) == body);
    assert(markdown(text) =~= text_blocks(before) + seq![BlockView::Code(code)] + markdown(after));
}

/// A fence that is not closed reaches to the end.
pub proof fn open_fences_reach_the_end(before: Text, language: Text, code: Text)
    requires
        find(before + "``"@, "```"@) is None,
        !language.contains('\n'),
        find(code, "```"@) is None,
    ensures
        markdown(before + "```"@ + (language.push('\n') + code)) == markdown(before) + seq![
            BlockView::Code(code),
        ],
{
    reveal_strlit("```");
    reveal_strlit("``");
    assert("```"@.drop_last() =~= "``"@);
    let rest = language.push('\n') + code;
    cut_at_the_first(before, "```"@, rest);
    split_at_the_first(language, '\n', code);
    find_is_first_match(before, "```"@);
    find_is_first_match(before + "``"@, "```"@);
    if let Some(at) = find(before, "```"@) {
        assert((before + "``"@).subrange(at, at + 3) =~= before.subrange(at, at + 3));
        assert(match_at(before + "``"@, "```"@, at));
    }
    assert(markdown(before) == text_blocks(before));
}

/// What stands between two pairs of asterisks is bold, and nothing else is.
pub proof fn marked_text_is_bold(before: Text, bold: Text, after: Text)
    requires
        find(before.push('*'), "**"@) is None,
        find(bold.push('*'), "**"@) is None,
        !before.contains('`'),
        !bold.contains('`'),
        before.len() > 0,
        bold.len() > 0,
    ensures
        inlines(before + "**"@ + (bold + "**"@ + after)) == seq![
            InlineView { text: before, bold: false, code: false },
            InlineView { text: bold, bold: true, code: false },
        ] + inlines(after),
{
    reveal_strlit("**");
    assert("**"@.drop_last() =~= seq!['*']);
    assert(before + seq!['*'] =~= before.push('*'));
    assert(bold + seq!['*'] =~= bold.push('*'));
    let rest = bold + "**"@ + after;
    cut_at_the_first(before, "**"@, rest);
    cut_at_the_first(bold, "**"@, after);
    split_once_parts(before, '`');
    split_once_parts(bold, '`');
    assert(split_once(before, '`') is None) by {
        if let Some((head, tail)) = split_once(before, '`') {
            assert((head.push('`') + tail)[head.len() as int] == '`');
        }
    }
    assert(split_once(bold, '`') is None) by {
        if let Some((head, tail)) = split_once(bold, '`') {
            assert((head.push('`') + tail)[head.len() as int] == '`');
        }
    }
    assert(inlines(before + "**"@ + rest) =~= seq![
        InlineView { text: before, bold: false, code: false },
        InlineView { text: bold, bold: true, code: false },
    ] + inlines(after));
}

/// What stands between two backticks is code and never bold, and what stands around it keeps
/// its own weight.
pub proof fn ticked_text_is_code(before: Text, code: Text, after: Text, bold: bool)
    requires
        !before.contains('`'),
        !code.contains('`'),
        before.len() > 0,
        code.len() > 0,
    ensures
        code_pieces(before.push('`') + (code.push('`') + after), bold) == seq![
            InlineView { text: before, bold, code: false },
            InlineView { text: code, bold: false, code: true },
        ] + code_pieces(after, bold),
        code_pieces(before, bold) == seq![InlineView { text: before, bold, code: false }],
{
    let rest = code.push('`') + after;
    split_at_the_first(before, '`', rest);
    split_at_the_first(code, '`', after);
    split_once_parts(before, '`');
    assert(split_once(before, '`') is None) by {
        if let Some((head, tail)) = split_once(before, '`') {
            assert((head.push('`') + tail)[head.len() as int] == '`');
        }
    }
    assert(code_pieces(before.push('`') + rest, bold) =~= seq![
        InlineView { text: before, bold, code: false },
        InlineView { text: code, bold: false, code: true },
    ] + code_pieces(after, bold));
}

/// A line with a mark at its beginning is a heading of that level or a bullet, and holds all of
/// the line behind the mark; what stands below it is not touched.
pub proof fn marked_lines_are_blocks(title: Text, rest: Seq<Text>)
    requires
        title.len() > 0,
        !is_space(title.last()),
    ensures
        line_blocks(seq!["# "@ + title] + rest, seq![]) == seq![
            BlockView::Heading { level: 1, text: title },
        ] + line_blocks(rest, seq![]),
        line_blocks(seq!["## "@ + title] + rest, seq![]) == seq![
            BlockView::Heading { level: 2, text: title },
        ] + line_blocks(rest, seq![]),
        line_blocks(seq!["### "@ + title] + rest, seq![]) == seq![
            BlockView::Heading { level: 3, text: title },
        ] + line_blocks(rest, seq![]),
        line_blocks(seq!["- "@ + title] + rest, seq![]) == seq![
            BlockView::Bullet(inlines(title)),
        ] + line_blocks(rest, seq![]),
        line_blocks(seq!["* "@ + title] + rest, seq![]) == seq![
            BlockView::Bullet(inlines(title)),
        ] + line_blocks(rest, seq![]),
{
    reveal_strlit("# ");
    reveal_strlit("## ");
    reveal_strlit("### ");
    reveal_strlit("- ");
    reveal_strlit("* ");
    marked_line_is_a_block("# "@, title, rest, BlockView::Heading { level: 1, text: title });
    marked_line_is_a_block("## "@, title, rest, BlockView::Heading { level: 2, text: title });
    marked_line_is_a_block("### "@, title, rest, BlockView::Heading { level: 3, text: title });
    marked_line_is_a_block("- "@, title, rest, BlockView::Bullet(inlines(title)));
    marked_line_is_a_block("* "@, title, rest, BlockView::Bullet(inlines(title)));
}

proof fn marked_line_is_a_block(mark: Text, title: Text, rest: Seq<Text>, block: BlockView)
    requires
        title.len() > 0,
        !is_space(title.last()),
        mark.len() > 0,
        mark == "# "@ && block == (BlockView::Heading { level: 1, text: title }) || mark == "## "@
            && block == (BlockView::Heading { level: 2, text: title }) || mark == "### "@ && block
            == (BlockView::Heading { level: 3, text: title }) || mark == "- "@ && block
            == BlockView::Bullet(inlines(title)) || mark == "* "@ && block == BlockView::Bullet(
            inlines(title),
        ),
    ensures
        line_blocks(seq![mark + title] + rest, seq![]) == seq![block] + line_blocks(rest, seq![]),
{
    reveal_strlit("# ");
    reveal_strlit("## ");
    reveal_strlit("### ");
    reveal_strlit("- ");
    reveal_strlit("* ");
    let line = mark + title;
    let all = seq![line] + rest;
    assert(line.last() == title.last());
    assert(trim_end(line) == line);
    assert(all[0] == line);
    assert(all.skip(1) =~= rest);
    assert(line.skip(mark.len() as int) =~= title);
    assert(starts_with(line, mark));
    assert(line[0] == mark[0] && line[1] == mark[1]);
    if mark == "## "@ || mark == "### "@ {
        assert(line[2] == mark[2]);
    }
    if starts_with(line, "### "@) {
        assert(line[0] == '#' && line[1] == '#' && line[2] == '#');
    }
    if starts_with(line, "## "@) {
        assert(line[0] == '#' && line[1] == '#' && line[2] == ' ');
    }
    if starts_with(line, "# "@) {
        assert(line[0] == '#' && line[1] == ' ');
    }
    if starts_with(line, "- "@) {
        assert(line[0] == '-');
    }
    assert(line_block(line) == Some(block));
    assert(paragraph_block(seq![]) =~= seq![]);
    assert(paragraph_block(seq![]).push(block) + line_blocks(rest, seq![]) =~= seq![block]
        + line_blocks(rest, seq![]));
}

/// Lines without a mark make up a paragraph, joined by spaces; an empty line ends it.
pub proof fn plain_lines_make_paragraphs(first: Text, second: Text, rest: Seq<Text>)
    requires
        first.len() > 0,
        second.len() > 0,
        !is_space(first.last()),
        !is_space(second.last()),
        first[0] != '#' && first[0] != '-' && first[0] != '*',
        second[0] != '#' && second[0] != '-' && second[0] != '*',
    ensures
        line_blocks(seq![first, second, seq![]] + rest, seq![]) == seq![
            BlockView::Paragraph(inlines(first + " "@ + second)),
            BlockView::Gap,
        ] + line_blocks(rest, seq![]),
        line_blocks(seq![first], seq![]) == seq![BlockView::Paragraph(inlines(first))],
{
    reveal_strlit(" ");
    let all = seq![first, second, seq![]] + rest;
    let two = all.skip(1);
    let one = two.skip(1);
    plain_lines_are_no_blocks(first);
    plain_lines_are_no_blocks(second);
    assert(all[0] == first && two[0] == second && one[0] =~= Seq::<char>::empty());
    assert(one.skip(1) =~= rest);
    let paragraph = first + " "@ + second;
    assert(line_blocks(one, paragraph) =~= seq![
        BlockView::Paragraph(inlines(paragraph)),
        BlockView::Gap,
    ] + line_blocks(rest, seq![]));
    assert(line_blocks(two, first) == line_blocks(one, paragraph));
    assert(line_blocks(all, seq![]) == line_blocks(two, first));
    let single = seq![first];
    assert(single[0] == first);
    assert(single.skip(1) =~= seq![]);
    assert(line_blocks(single.skip(1), first) == paragraph_block(first));
}

proof fn plain_lines_are_no_blocks(line: Text)
    requires
        line.len() > 0,
        !is_space(line.last()),
        line[0] != '#' && line[0] != '-' && line[0] != '*',
    ensures
        line_block(line) is None,
        trim_end(line) == line,
{
    reveal_strlit("# ");
    reveal_strlit("## ");
    reveal_strlit("### ");
    reveal_strlit("- ");
    reveal_strlit("* ");
    if starts_with(line, "### "@) {
        assert(line[0] == "### "@[0]);
    }
    if starts_with(line, "## "@) {
        assert(line[0] == "## "@[0]);
    }
    if starts_with(line, "# "@) {
        assert(line[0] == "# "@[0]);
    }
    if starts_with(line, "- "@) {
        assert(line[0] == "- "@[0]);
    }
    if starts_with(line, "* "@) {
        assert(line[0] == "* "@[0]);
    }
}

} // verus!
