//! What the terminal client shows: its lines as plain data, how far they are
//! scrolled, and where the popups stand.

use crate::choices::{ModelChoice, ModelChoiceView};
use crate::labels::{age, can_shorten, relative_time, short_id, shortened};
use crate::protocol::{ReasoningEffort, SessionSummary, SessionSummaryView};
use crate::text::{concat, concat3, lines, lines_text, views, Text};
use crate::tui::{App, AppView, RunState, ToolState, TranscriptItem, TranscriptItemView};
use vstd::prelude::*;

verus! {

/// How a piece of text stands out.
#[derive(Clone, Copy, Debug, Eq, PartialEq, Structural)]
pub enum Tone {
    Plain,
    /// Black on the accent colour, bold.
    Badge,
    Accent,
    AccentBold,
    AnswerBold,
    Dim,
    Busy,
    Alert,
    Name,
}

/// The content of a [`Span`].
#[verifier::ext_equal]
pub struct SpanView {
    pub text: Text,
    pub tone: Tone,
}

/// A piece of a line.
#[derive(Debug, Eq, PartialEq)]
pub struct Span {
    pub text: String,
    pub tone: Tone,
}

impl View for Span {
    type V = SpanView;

    open spec fn view(&self) -> SpanView {
        SpanView {
            text: self.text@,
            tone: self.tone,
        }
    }
}

impl Clone for Span {
    fn clone(&self) -> (r: Self)
        ensures
            r@ == self@,
    {
        let r = Span {
            text: self.text.clone(),
            tone: self.tone,
        };
        assert(r@ =~~= self@);
        r
    }
}

/// The content of a [`Line`].
#[verifier::ext_equal]
pub struct LineView {
    pub spans: Seq<SpanView>,
}

/// A line of the screen before wrapping.
#[derive(Debug, Eq, PartialEq)]
pub struct Line {
    pub spans: Vec<Span>,
}

impl View for Line {
    type V = LineView;

    open spec fn view(&self) -> LineView {
        LineView {
            spans: views(self.spans@),
        }
    }
}

impl Clone for Line {
    fn clone(&self) -> (r: Self)
        ensures
            r@ == self@,
    {
        let r = Line {
            spans: self.spans.clone(),
        };
        assert(r@ =~~= self@);
        r
    }
}

/// A line of one piece.
pub open spec fn single(text: Text, tone: Tone) -> LineView {
    LineView { spans: seq![SpanView { text, tone }] }
}

pub open spec fn empty_line() -> LineView {
    LineView { spans: seq![] }
}

fn single_line(text: String, tone: Tone) -> (r: Line)
    ensures
        r@ == single(text@, tone),
{
    let mut spans: Vec<Span> = Vec::new();
    let ghost shown = SpanView { text: text@, tone };
    spans.push(Span { text, tone });
    let r = Line { spans };
    assert(r@.spans =~= seq![shown]);
    r
}

fn no_text() -> (r: Line)
    ensures
        r@ == empty_line(),
{
    let r = Line { spans: Vec::new() };
    assert(r@.spans =~= seq![]);
    r
}

/// The lines of a text under a heading, with an empty line above it unless it
/// comes first.
pub open spec fn headed(heading: Text, tone: Tone, text: Text, first: bool) -> Seq<LineView> {
    (if first {
        seq![]
    } else {
        seq![empty_line()]
    }) + seq![single(heading, tone)] + lines(text).map_values(
        |line: Text| single(line, Tone::Plain),
    )
}

/// The word and the tone for the state of a tool call.
pub open spec fn tool_label(state: ToolState) -> (Text, Tone) {
    match state {
        ToolState::Running => ("running"@, Tone::Busy),
        ToolState::Completed => ("done"@, Tone::Dim),
        ToolState::Failed => ("failed"@, Tone::Alert),
    }
}

/// The lines of one entry of the transcript.
pub open spec fn item_lines(item: TranscriptItemView, first: bool) -> Seq<LineView> {
    match item {
        TranscriptItemView::User(text) => headed("You"@, Tone::AccentBold, text, first),
        TranscriptItemView::Assistant { text, .. } => if text.len() == 0 {
            seq![]
        } else {
            headed("Assistant"@, Tone::AnswerBold, text, first)
        },
        TranscriptItemView::Tool { name, state, .. } => seq![
            LineView {
                spans: seq![
                    SpanView { text: "  ↳ "@, tone: Tone::Dim },
                    SpanView { text: name, tone: Tone::Name },
                    SpanView { text: " · "@ + tool_label(state).0, tone: tool_label(state).1 },
                ],
            },
        ],
        TranscriptItemView::Error(error) => seq![single("Run failed: "@ + error, Tone::Alert)],
    }
}

/// The lines of a transcript, entry by entry.
pub open spec fn all_item_lines(items: Seq<TranscriptItemView>) -> Seq<LineView>
    decreases items.len(),
{
    if items.len() == 0 {
        seq![]
    } else {
        let before = all_item_lines(items.drop_last());
        before + item_lines(items.last(), before.len() == 0)
    }
}

/// The lines of the transcript pane. An empty transcript shows an invitation.
pub open spec fn shown_transcript(items: Seq<TranscriptItemView>) -> Seq<LineView> {
    if items.len() == 0 {
        seq![
            empty_line(),
            single("  Start a conversation with the selected model."@, Tone::Dim),
        ]
    } else {
        all_item_lines(items)
    }
}

fn push_headed(shown: &mut Vec<Line>, heading: &str, tone: Tone, text: &str)
    ensures
        views(final(shown)@) == views(old(shown)@) + headed(
            heading@,
            tone,
            text@,
            old(shown)@.len() == 0,
        ),
{
    let ghost before = views(shown@);
    let ghost target = headed(heading@, tone, text@, shown@.len() == 0);
    let ghost start: int = target.len() - lines(text@).len();
    if shown.len() > 0 {
        shown.push(no_text());
    }
    shown.push(single_line(heading.to_owned(), tone));
    assert(views(shown@) =~= before + target.take(start));
    let all = lines_text(text);
    let mut i: usize = 0;
    while i < all.len()
        invariant
            i <= all@.len(),
            views(all@) == lines(text@),
            start + lines(text@).len() == target.len(),
            start >= 0,
            target.skip(start) =~= lines(text@).map_values(
                |line: Text| single(line, Tone::Plain),
            ),
            views(shown@) =~= before + target.take(start + i),
        decreases all@.len() - i,
    {
        let ghost earlier = views(shown@);
        let line = single_line(all[i].clone(), Tone::Plain);
        let ghost added = line@;
        assert(added == target.skip(start)[i as int]) by {
            assert(all@[i as int]@ == lines(text@)[i as int]);
        }
        assert(added == target[start + i]);
        shown.push(line);
        assert(views(shown@) =~= earlier.push(added));
        assert(target.take(start + i + 1) =~= target.take(start + i).push(added));
        i += 1;
    }
    assert(target.take(target.len() as int) =~= target);
}

fn tool_line(name: &str, state: ToolState) -> (r: Line)
    ensures
        r@ == (LineView {
            spans: seq![
                SpanView { text: "  ↳ "@, tone: Tone::Dim },
                SpanView { text: name@, tone: Tone::Name },
                SpanView { text: " · "@ + tool_label(state).0, tone: tool_label(state).1 },
            ],
        }),
{
    let (label, tone) = match state {
        ToolState::Running => ("running", Tone::Busy),
        ToolState::Completed => ("done", Tone::Dim),
        ToolState::Failed => ("failed", Tone::Alert),
    };
    let mut spans: Vec<Span> = Vec::new();
    spans.push(Span { text: "  ↳ ".to_owned(), tone: Tone::Dim });
    spans.push(Span { text: name.to_owned(), tone: Tone::Name });
    spans.push(Span { text: concat(" · ", label), tone });
    let r = Line { spans };
    assert(r@.spans =~= seq![
        SpanView { text: "  ↳ "@, tone: Tone::Dim },
        SpanView { text: name@, tone: Tone::Name },
        SpanView { text: " · "@ + tool_label(state).0, tone: tool_label(state).1 },
    ]);
    r
}

fn push_item_lines(shown: &mut Vec<Line>, item: &TranscriptItem)
    ensures
        views(final(shown)@) == views(old(shown)@) + item_lines(item@, old(shown)@.len() == 0),
{
    let ghost before = views(shown@);
    match item {
        TranscriptItem::User(text) => {
            push_headed(shown, "You", Tone::AccentBold, text);
        },
        TranscriptItem::Assistant { text, .. } => {
            if !text.as_str().is_empty() {
                push_headed(shown, "Assistant", Tone::AnswerBold, text);
            } else {
                assert(before + seq![] =~= before);
            }
        },
        TranscriptItem::Tool { name, state, .. } => {
            shown.push(tool_line(name, *state));
            assert(views(shown@) =~= before + item_lines(item@, before.len() == 0));
        },
        TranscriptItem::Error(error) => {
            shown.push(single_line(concat("Run failed: ", error), Tone::Alert));
            assert(views(shown@) =~= before + item_lines(item@, before.len() == 0));
        },
    }
}

/// The lines of the transcript pane.
pub fn transcript_lines(app: &App) -> (r: Vec<Line>)
    ensures
        views(r@) == shown_transcript(app@.transcript),
{
    let mut shown: Vec<Line> = Vec::new();
    if app.transcript.len() == 0 {
        shown.push(no_text());
        shown.push(
            single_line(
                "  Start a conversation with the selected model.".to_owned(),
                Tone::Dim,
            ),
        );
        assert(views(shown@) =~= shown_transcript(app@.transcript));
        return shown;
    }
    let ghost all = app@.transcript;
    let mut i: usize = 0;
    assert(all.take(0) =~= seq![]);
    assert(views(shown@) =~= seq![]);
    while i < app.transcript.len()
        invariant
            i <= app.transcript@.len(),
            all == app@.transcript,
            views(shown@) == all_item_lines(all.take(i as int)),
        decreases app.transcript@.len() - i,
    {
        assert(all.take(i as int + 1).drop_last() =~= all.take(i as int));
        assert(all.take(i as int + 1).last() == app.transcript@[i as int]@);
        push_item_lines(&mut shown, &app.transcript[i]);
        i += 1;
    }
    assert(all.take(all.len() as int) =~= all);
    shown
}

/// The columns that a text takes on a terminal.
pub uninterp spec fn display_width(text: Text) -> usize;

/// The terminal columns of a text, as `ratatui::text::Span::width` counts them:
/// it depends on the text alone. How many columns a character takes is left to
/// the outside function.
#[verifier::external_body]
pub(crate) fn text_width(text: &str) -> (r: usize)
    ensures
        r == display_width(text@),
{
    ratatui::text::Span::raw(text).width()
}

/// The sum of some numbers.
pub open spec fn sum(numbers: Seq<usize>) -> nat
    decreases numbers.len(),
{
    if numbers.len() == 0 {
        0
    } else {
        sum(numbers.drop_last()) + numbers.last() as nat
    }
}

proof fn part_of_sum(numbers: Seq<usize>, count: int)
    requires
        0 <= count <= numbers.len(),
    ensures
        sum(numbers.take(count)) <= sum(numbers),
    decreases numbers.len() - count,
{
    if count < numbers.len() {
        part_of_sum(numbers, count + 1);
        assert(numbers.take(count + 1).drop_last() =~= numbers.take(count));
    } else {
        assert(numbers.take(count) =~= numbers);
    }
}

/// The sum of some numbers, if it fits.
pub fn checked_sum(numbers: &Vec<usize>) -> (r: Option<usize>)
    ensures
        match r {
            Some(total) => total == sum(numbers@),
            None => sum(numbers@) > usize::MAX,
        },
{
    let mut total: usize = 0;
    let mut i: usize = 0;
    assert(numbers@.take(0) =~= seq![]);
    while i < numbers.len()
        invariant
            i <= numbers@.len(),
            total == sum(numbers@.take(i as int)),
        decreases numbers@.len() - i,
    {
        assert(numbers@.take(i as int + 1).drop_last() =~= numbers@.take(i as int));
        match total.checked_add(numbers[i]) {
            Some(more) => {
                total = more;
            },
            None => {
                proof {
                    part_of_sum(numbers@, i as int + 1);
                }
                return None;
            },
        }
        i += 1;
    }
    assert(numbers@.take(numbers@.len() as int) =~= numbers@);
    Some(total)
}

/// The columns of each piece of a line.
pub open spec fn span_widths(spans: Seq<SpanView>) -> Seq<usize> {
    spans.map_values(|span: SpanView| display_width(span.text))
}

/// The columns of a line: those of its pieces.
pub open spec fn line_width(spans: Seq<SpanView>) -> nat {
    sum(span_widths(spans))
}

/// The rows that a number of columns wraps into: at least one.
pub open spec fn rows(columns: nat, width: nat) -> nat {
    let used = if columns == 0 {
        1
    } else {
        columns
    };
    (used + width - 1) as nat / width
}

/// The width that lines are wrapped at: no narrower than one column.
pub open spec fn wrap_width(width: u16) -> nat {
    if width == 0 {
        1
    } else {
        width as nat
    }
}

/// The rows that lines of these columns take.
pub open spec fn row_sum(columns: Seq<usize>, width: u16) -> nat
    decreases columns.len(),
{
    if columns.len() == 0 {
        0
    } else {
        row_sum(columns.drop_last(), width) + rows(columns.last() as nat, wrap_width(width))
    }
}

proof fn part_of_rows(columns: Seq<usize>, width: u16, count: int)
    requires
        0 <= count <= columns.len(),
    ensures
        row_sum(columns.take(count), width) <= row_sum(columns, width),
    decreases columns.len() - count,
{
    if count < columns.len() {
        part_of_rows(columns, width, count + 1);
        assert(columns.take(count + 1).drop_last() =~= columns.take(count));
    } else {
        assert(columns.take(count) =~= columns);
    }
}

impl Line {
    /// The columns of a line, if they can be counted.
    pub fn width(&self) -> (r: Option<usize>)
        ensures
            match r {
                Some(columns) => columns == line_width(self@.spans),
                None => line_width(self@.spans) > usize::MAX,
            },
    {
        let ghost all = span_widths(self@.spans);
        let mut widths: Vec<usize> = Vec::new();
        let mut i: usize = 0;
        assert(widths@ =~= all.take(0));
        while i < self.spans.len()
            invariant
                i <= self.spans@.len(),
                all == span_widths(self@.spans),
                widths@ == all.take(i as int),
            decreases self.spans@.len() - i,
        {
            widths.push(text_width(&self.spans[i].text));
            assert(all.take(i as int + 1) =~= all.take(i as int).push(all[i as int]));
            i += 1;
        }
        assert(all.take(all.len() as int) =~= all);
        checked_sum(&widths)
    }
}

fn row_count(columns: usize, width: usize) -> (r: usize)
    requires
        width > 0,
    ensures
        r == rows(columns as nat, width as nat),
{
    let used: usize = if columns == 0 {
        1
    } else {
        columns
    };
    let full: usize = (used - 1) / width;
    proof {
        let u = used as int;
        let w = width as int;
        assert((u + w - 1) / w == (u - 1) / w + 1) by (nonlinear_arith)
            requires
                w > 0,
                u >= 1,
        ;
        assert((u - 1) / w < u) by (nonlinear_arith)
            requires
                w > 0,
                u >= 1,
        ;
    }
    full + 1
}

/// The rows that lines of these columns take once they are wrapped at a width,
/// if they can be counted.
pub fn wrapped_rows(columns: &Vec<usize>, width: u16) -> (r: Option<usize>)
    ensures
        match r {
            Some(count) => count == row_sum(columns@, width),
            None => row_sum(columns@, width) > usize::MAX,
        },
{
    let wrap: usize = if width == 0 {
        1
    } else {
        width as usize
    };
    let mut total: usize = 0;
    let mut i: usize = 0;
    assert(columns@.take(0) =~= seq![]);
    while i < columns.len()
        invariant
            i <= columns@.len(),
            wrap == wrap_width(width),
            wrap > 0,
            total == row_sum(columns@.take(i as int), width),
        decreases columns@.len() - i,
    {
        assert(columns@.take(i as int + 1).drop_last() =~= columns@.take(i as int));
        match total.checked_add(row_count(columns[i], wrap)) {
            Some(more) => {
                total = more;
            },
            None => {
                proof {
                    part_of_rows(columns@, width, i as int + 1);
                }
                return None;
            },
        }
        i += 1;
    }
    assert(columns@.take(columns@.len() as int) =~= columns@);
    Some(total)
}

/// The rows of all lines.
pub open spec fn total_rows(lines: Seq<LineView>, width: u16) -> nat
    decreases lines.len(),
{
    if lines.len() == 0 {
        0
    } else {
        total_rows(lines.drop_last(), width) + rows(
            line_width(lines.last().spans),
            wrap_width(width),
        )
    }
}

/// Whether every line's columns and the rows of all lines can be counted.
pub open spec fn countable(lines: Seq<LineView>, width: u16) -> bool {
    &&& forall|i: int| 0 <= i < lines.len() ==> line_width(#[trigger] lines[i].spans) <= usize::MAX
    &&& total_rows(lines, width) <= usize::MAX
}

/// The rows of lines are those of their columns.
proof fn rows_of_columns(lines: Seq<LineView>, columns: Seq<usize>, width: u16)
    requires
        columns.len() == lines.len(),
        forall|i: int| 0 <= i < lines.len() ==> columns[i] == line_width(#[trigger] lines[i].spans),
    ensures
        total_rows(lines, width) == row_sum(columns, width),
    decreases lines.len(),
{
    if lines.len() > 0 {
        let before = lines.drop_last();
        assert forall|i: int| 0 <= i < before.len() implies columns.drop_last()[i] == line_width(
            #[trigger] before[i].spans,
        ) by {
            assert(before[i] == lines[i]);
            assert(columns[i] == line_width(lines[i].spans));
        }
        rows_of_columns(before, columns.drop_last(), width);
        assert(columns.last() == line_width(lines[lines.len() - 1].spans));
    }
}

/// The rows that lines take once they are wrapped at a width, if they can be
/// counted.
pub fn visual_line_count(lines: &Vec<Line>, width: u16) -> (r: Option<usize>)
    ensures
        r is Some <==> countable(views(lines@), width),
        r matches Some(count) ==> count == total_rows(views(lines@), width),
{
    let ghost all = views(lines@);
    let mut columns: Vec<usize> = Vec::new();
    let mut i: usize = 0;
    while i < lines.len()
        invariant
            i <= lines@.len(),
            all == views(lines@),
            columns@.len() == i,
            forall|k: int| 0 <= k < i ==> columns@[k] == line_width(#[trigger] all[k].spans),
        decreases lines@.len() - i,
    {
        assert(all[i as int] == lines@[i as int]@);
        match lines[i].width() {
            Some(used) => {
                columns.push(used);
            },
            None => {
                assert(line_width(all[i as int].spans) > usize::MAX);
                return None;
            },
        }
        i += 1;
    }
    proof {
        rows_of_columns(all, columns@, width);
    }
    wrapped_rows(&columns, width)
}

/// A number cut to what the terminal's coordinates hold.
pub open spec fn coordinate(n: usize) -> u16 {
    if n > u16::MAX {
        u16::MAX
    } else {
        n as u16
    }
}

fn clamped(n: usize) -> (r: u16)
    ensures
        r == coordinate(n),
{
    if n > 65535 {
        65535
    } else {
        n as u16
    }
}

/// How far down a transcript can be scrolled.
pub open spec fn max_scroll(line_count: usize, height: u16) -> usize {
    if line_count > height {
        (line_count - height) as usize
    } else {
        0
    }
}

impl AppView {
    /// The state once the size of the transcript pane is known. A client that
    /// follows the tail stays there; one that was scrolled to the end follows it
    /// again.
    pub open spec fn settled(self, line_count: usize, height: u16) -> AppView {
        let last = max_scroll(line_count, height);
        if self.follow_tail {
            AppView { scroll: last, ..self }
        } else {
            AppView {
                scroll: if self.scroll < last {
                    self.scroll
                } else {
                    last
                },
                follow_tail: self.scroll >= last,
                ..self
            }
        }
    }

    /// How far the composer is scrolled so that the cursor stays visible.
    pub open spec fn composer_scroll(self, width: u16) -> usize {
        let available = wrap_width(width);
        if self.cursor as nat + 1 > available {
            (self.cursor + 1 - available) as usize
        } else {
            0
        }
    }
}

impl App {
    /// Settles the scroll position for a transcript pane of this height and
    /// returns it in the terminal's coordinates.
    pub fn settle_scroll(&mut self, line_count: usize, height: u16) -> (r: u16)
        ensures
            final(self)@ == old(self)@.settled(line_count, height),
            r == coordinate(final(self)@.scroll),
            old(self)@.well_formed() ==> final(self)@.well_formed(),
    {
        let last: usize = line_count.saturating_sub(height as usize);
        if self.follow_tail {
            self.scroll = last;
        } else if self.scroll >= last {
            self.scroll = last;
            self.follow_tail = true;
        }
        clamped(self.scroll)
    }

    /// How far the composer is scrolled, and the cursor's column in it.
    pub fn composer_view(&self, width: u16) -> (r: (u16, u16))
        ensures
            r.0 == coordinate(self@.composer_scroll(width)),
            r.1 == coordinate((self@.cursor - self@.composer_scroll(width)) as usize),
    {
        let available: usize = if width == 0 {
            1
        } else {
            width as usize
        };
        let scroll: usize = self.cursor.saturating_sub(available - 1);
        (clamped(scroll), clamped(self.cursor - scroll))
    }

    /// The composer's text; an empty one shows an invitation.
    pub fn composer_line(&self) -> (r: Line)
        ensures
            r@ == if self@.input.len() == 0 {
                single("Ask Nexa anything…"@, Tone::Dim)
            } else {
                single(self@.input, Tone::Plain)
            },
    {
        if self.input.len() == 0 {
            single_line("Ask Nexa anything…".to_owned(), Tone::Dim)
        } else {
            single_line(self.input_text(), Tone::Plain)
        }
    }

    /// The line below the composer: a notice, or the keys.
    pub fn footer_line(&self) -> (r: Line)
        ensures
            r@ == match self@.notice {
                Some(notice) => single(notice, Tone::Alert),
                None => single(
                    " Enter send  ·  F2 models  ·  PgUp/PgDn scroll  ·  Ctrl+C quit "@,
                    Tone::Dim,
                ),
            },
    {
        match &self.notice {
            Some(notice) => single_line(notice.clone(), Tone::Alert),
            None => single_line(
                " Enter send  ·  F2 models  ·  PgUp/PgDn scroll  ·  Ctrl+C quit ".to_owned(),
                Tone::Dim,
            ),
        }
    }
}

/// The title on the composer's border.
pub fn composer_title() -> (r: &'static str)
    ensures
        r@ == " Message "@,
{
    " Message "
}

/// The word shown for what the client is doing.
pub open spec fn state_word(submitting: bool, state: RunState) -> Text {
    if submitting {
        "sending"@
    } else {
        match state {
            RunState::Idle => "idle"@,
            RunState::Running => "running"@,
            RunState::Failed => "failed"@,
        }
    }
}

pub open spec fn state_tone(state: RunState) -> Tone {
    match state {
        RunState::Idle => Tone::Dim,
        RunState::Running => Tone::Busy,
        RunState::Failed => Tone::Alert,
    }
}

/// The words shown for the selected effort.
pub open spec fn effort_words(effort: Option<ReasoningEffort>) -> Text {
    match effort {
        Some(level) => "effort "@ + level.spelling(),
        None => "effort default"@,
    }
}

/// The line at the top: the selected model, the effort and the state.
pub open spec fn header(app: AppView) -> LineView {
    LineView {
        spans: seq![
            SpanView { text: " NEXA "@, tone: Tone::Badge },
            SpanView { text: "  local  "@, tone: Tone::Plain },
            SpanView {
                text: app.choice().provider_name + " / "@ + app.choice().model,
                tone: Tone::Accent,
            },
            SpanView { text: "  ·  "@, tone: Tone::Plain },
            SpanView { text: effort_words(app.effort), tone: Tone::Dim },
            SpanView { text: "  ·  "@, tone: Tone::Plain },
            SpanView {
                text: state_word(app.submitting, app.run_state),
                tone: state_tone(app.run_state),
            },
        ],
    }
}

pub fn header_line(app: &App) -> (r: Line)
    requires
        app@.well_formed(),
    ensures
        r@ == header(app@),
{
    let choice = app.model_choice();
    let word = if app.submitting {
        "sending"
    } else {
        match app.run_state {
            RunState::Idle => "idle",
            RunState::Running => "running",
            RunState::Failed => "failed",
        }
    };
    let tone = match app.run_state {
        RunState::Idle => Tone::Dim,
        RunState::Running => Tone::Busy,
        RunState::Failed => Tone::Alert,
    };
    let effort = match app.effort {
        Some(level) => concat("effort ", level.as_str()),
        None => "effort default".to_owned(),
    };
    let mut spans: Vec<Span> = Vec::new();
    spans.push(Span { text: " NEXA ".to_owned(), tone: Tone::Badge });
    spans.push(Span { text: "  local  ".to_owned(), tone: Tone::Plain });
    spans.push(
        Span {
            text: concat3(&choice.provider_name, " / ", &choice.model),
            tone: Tone::Accent,
        },
    );
    spans.push(Span { text: "  ·  ".to_owned(), tone: Tone::Plain });
    spans.push(Span { text: effort, tone: Tone::Dim });
    spans.push(Span { text: "  ·  ".to_owned(), tone: Tone::Plain });
    spans.push(Span { text: word.to_owned(), tone });
    let r = Line { spans };
    assert(r@.spans =~= header(app@).spans);
    r
}

/// The height of a popup with this many entries: two more for the border, two
/// for the help, within the screen but never below five.
pub open spec fn popup_rows(entries: usize, screen: u16) -> u16 {
    let wanted = if entries + 4 > u16::MAX {
        u16::MAX as int
    } else {
        entries + 4
    };
    let room = if screen >= 2 {
        screen - 2
    } else {
        0
    };
    let height = if wanted < room {
        wanted
    } else {
        room
    };
    if height < 5 {
        5
    } else {
        height as u16
    }
}

pub fn popup_height(entries: usize, screen: u16) -> (r: u16)
    ensures
        r == popup_rows(entries, screen),
{
    let wanted: u16 = clamped(entries.saturating_add(4));
    let room: u16 = screen.saturating_sub(2);
    let height: u16 = if wanted < room {
        wanted
    } else {
        room
    };
    if height < 5 {
        5
    } else {
        height
    }
}

/// The rows above a popup that stands in the middle, and the rows it gets.
pub fn popup_rows_on_screen(height: u16, screen: u16) -> (r: (u16, u16))
    ensures
        r.1 == if height < screen {
            height
        } else {
            screen
        },
        r.0 == (screen - r.1) / 2,
        r.0 + r.1 <= screen,
{
    let margin: u16 = screen.saturating_sub(height) / 2;
    (
        margin,
        if height < screen {
            height
        } else {
            screen
        },
    )
}

/// The columns on each side of a popup of this width, in percent.
pub fn popup_side_percent(width_percent: u16) -> (r: u16)
    requires
        width_percent <= 100,
    ensures
        r == (100 - width_percent) / 2,
{
    (100 - width_percent) / 2
}

/// The marker and the tone of an entry of a popup.
pub open spec fn entry_marker(chosen: bool) -> (Text, Tone) {
    if chosen {
        ("› "@, Tone::AccentBold)
    } else {
        ("  "@, Tone::Plain)
    }
}

/// An entry of the model popup.
pub open spec fn model_entry(choice: ModelChoiceView, chosen: bool) -> LineView {
    single(
        entry_marker(chosen).0 + choice.provider_name + " / "@ + choice.model + "  ("@
            + choice.provider_id + ")"@,
        entry_marker(chosen).1,
    )
}

/// The lines of the model popup.
pub open spec fn model_entries(choices: Seq<ModelChoiceView>, cursor: usize) -> Seq<LineView> {
    choices.map(|i: int, choice: ModelChoiceView| model_entry(choice, i == cursor)) + seq![
        empty_line(),
        single("↑/↓ select  ·  Enter choose  ·  Esc close"@, Tone::Dim),
    ]
}

fn model_line(choice: &ModelChoice, chosen: bool) -> (r: Line)
    ensures
        r@ == model_entry(choice@, chosen),
{
    let (marker, tone) = if chosen {
        ("› ", Tone::AccentBold)
    } else {
        ("  ", Tone::Plain)
    };
    let mut text = concat3(marker, &choice.provider_name, " / ");
    text.push_str(&choice.model);
    text.push_str("  (");
    text.push_str(&choice.provider_id);
    text.push_str(")");
    single_line(text, tone)
}

/// The lines of the model popup: every choice, the chosen one marked, and the
/// keys.
pub fn model_picker_lines(app: &App) -> (r: Vec<Line>)
    ensures
        views(r@) == model_entries(app@.choices, app@.picker_model),
{
    let ghost target = model_entries(app@.choices, app@.picker_model);
    let mut shown: Vec<Line> = Vec::new();
    let mut i: usize = 0;
    assert(target.take(0) =~= seq![]);
    assert(views(shown@) =~= seq![]);
    while i < app.choices.len()
        invariant
            i <= app.choices@.len(),
            target == model_entries(app@.choices, app@.picker_model),
            views(shown@) == target.take(i as int),
        decreases app.choices@.len() - i,
    {
        let ghost earlier = views(shown@);
        let line = model_line(&app.choices[i], i == app.picker_model);
        let ghost added = line@;
        assert(app@.choices[i as int] == app.choices@[i as int]@);
        assert(added == target[i as int]);
        shown.push(line);
        assert(views(shown@) =~= earlier.push(added));
        assert(target.take(i as int + 1) =~= target.take(i as int).push(added));
        i += 1;
    }
    let ghost listed = views(shown@);
    let gap = no_text();
    let help = single_line(
        "↑/↓ select  ·  Enter choose  ·  Esc close".to_owned(),
        Tone::Dim,
    );
    let ghost rest = seq![gap@, help@];
    shown.push(gap);
    shown.push(help);
    assert(views(shown@) =~= listed + rest);
    assert(target =~= listed + rest);
    shown
}

/// An entry of the session popup.
pub open spec fn session_entry(summary: SessionSummaryView, chosen: bool, now_ms: u64) -> LineView {
    single(
        entry_marker(chosen).0 + shortened(summary.id) + "  ·  last opened "@ + age(
            summary.last_opened_ms,
            now_ms,
        ),
        entry_marker(chosen).1,
    )
}

/// The lines of the session popup.
pub open spec fn session_entries(
    sessions: Seq<SessionSummaryView>,
    cursor: usize,
    now_ms: u64,
) -> Seq<LineView> {
    sessions.map(|i: int, summary: SessionSummaryView| session_entry(summary, i == cursor, now_ms))
        + seq![
        empty_line(),
        single("↑/↓ select  ·  Enter switch  ·  Esc close"@, Tone::Dim),
    ]
}

fn session_line(summary: &SessionSummary, chosen: bool, now_ms: u64) -> (r: Line)
    requires
        can_shorten(summary@.id),
    ensures
        r@ == session_entry(summary@, chosen, now_ms),
{
    let (marker, tone) = if chosen {
        ("› ", Tone::AccentBold)
    } else {
        ("  ", Tone::Plain)
    };
    let mut text = concat3(marker, &short_id(&summary.id), "  ·  last opened ");
    text.push_str(&relative_time(summary.last_opened_ms, now_ms));
    single_line(text, tone)
}

/// The lines of the session popup: every session with its age, the chosen one
/// marked, and the keys.
pub fn session_picker_lines(sessions: &Vec<SessionSummary>, cursor: usize, now_ms: u64) -> (r: Vec<
    Line,
>)
    requires
        forall|i: int| 0 <= i < sessions@.len() ==> can_shorten(#[trigger] sessions@[i]@.id),
    ensures
        views(r@) == session_entries(views(sessions@), cursor, now_ms),
{
    let ghost target = session_entries(views(sessions@), cursor, now_ms);
    let mut shown: Vec<Line> = Vec::new();
    let mut i: usize = 0;
    assert(target.take(0) =~= seq![]);
    assert(views(shown@) =~= seq![]);
    while i < sessions.len()
        invariant
            i <= sessions@.len(),
            forall|k: int| 0 <= k < sessions@.len() ==> can_shorten(#[trigger] sessions@[k]@.id),
            target == session_entries(views(sessions@), cursor, now_ms),
            views(shown@) == target.take(i as int),
        decreases sessions@.len() - i,
    {
        let ghost earlier = views(shown@);
        assert(can_shorten(sessions@[i as int]@.id));
        let line = session_line(&sessions[i], i == cursor, now_ms);
        let ghost added = line@;
        assert(views(sessions@)[i as int] == sessions@[i as int]@);
        assert(added == target[i as int]);
        shown.push(line);
        assert(views(shown@) =~= earlier.push(added));
        assert(target.take(i as int + 1) =~= target.take(i as int).push(added));
        i += 1;
    }
    let ghost listed = views(shown@);
    let gap = no_text();
    let help = single_line(
        "↑/↓ select  ·  Enter switch  ·  Esc close".to_owned(),
        Tone::Dim,
    );
    let ghost rest = seq![gap@, help@];
    shown.push(gap);
    shown.push(help);
    assert(views(shown@) =~= listed + rest);
    assert(target =~= listed + rest);
    shown
}

/// A client that follows the tail always shows the last row of the transcript,
/// and never scrolls beyond it.
pub proof fn following_shows_the_end(app: AppView, line_count: usize, height: u16)
    ensures
        app.settled(line_count, height).scroll <= max_scroll(line_count, height),
        app.settled(line_count, height).follow_tail ==> app.settled(line_count, height).scroll
            == max_scroll(line_count, height),
        app.settled(line_count, height).settled(line_count, height) == app.settled(
            line_count,
            height,
        ),
{
}

/// A message or an answer is shown under its heading with every line of its text, in order and
/// as it is; an answer that says nothing yet is not shown.
pub proof fn texts_are_shown_line_by_line(text: Text, run_id: Text, finalized: bool, first: bool)
    ensures
        ({
            let shown = item_lines(TranscriptItemView::User(text), first);
            let above = if first {
                1int
            } else {
                2int
            };
            &&& shown.len() == above + lines(text).len()
            &&& shown[above - 1] == single("You"@, Tone::AccentBold)
            &&& !first ==> shown[0].spans.len() == 0
            &&& forall|k: int|
                0 <= k < lines(text).len() ==> #[trigger] shown[above + k] == (LineView {
                    spans: seq![SpanView { text: lines(text)[k], tone: Tone::Plain }],
                })
        }),
        ({
            let item = TranscriptItemView::Assistant { run_id, text, finalized };
            let shown = item_lines(item, first);
            let above = if first {
                1int
            } else {
                2int
            };
            if text.len() == 0 {
                shown.len() == 0
            } else {
                &&& shown.len() == above + lines(text).len()
                &&& shown[above - 1] == single("Assistant"@, Tone::AnswerBold)
                &&& forall|k: int|
                    0 <= k < lines(text).len() ==> #[trigger] shown[above + k] == (LineView {
                        spans: seq![SpanView { text: lines(text)[k], tone: Tone::Plain }],
                    })
            }
        }),
{
}

/// A tool call is shown with its name and how it stands, a failure with its error.
pub proof fn calls_and_failures_are_shown(
    call_id: Text,
    name: Text,
    state: ToolState,
    error: Text,
    first: bool,
)
    ensures
        ({
            let shown = item_lines(TranscriptItemView::Tool { call_id, name, state }, first);
            &&& shown.len() == 1
            &&& shown[0].spans.len() == 3
            &&& shown[0].spans[1].text == name
            &&& shown[0].spans[2].text == " · "@ + match state {
                ToolState::Running => "running"@,
                ToolState::Completed => "done"@,
                ToolState::Failed => "failed"@,
            }
        }),
        item_lines(TranscriptItemView::Error(error), first) == seq![
            single("Run failed: "@ + error, Tone::Alert),
        ],
{
}

/// The transcript is shown entry by entry: what was shown stays, and the lines of a new entry
/// come below it.
pub proof fn transcripts_grow_downwards(items: Seq<TranscriptItemView>, item: TranscriptItemView)
    ensures
        ({
            let before = if items.len() == 0 {
                seq![]
            } else {
                shown_transcript(items)
            };
            shown_transcript(items.push(item)) == before + item_lines(item, before.len() == 0)
        }),
{
    assert(items.push(item).drop_last() =~= items);
    if items.len() == 0 {
        assert(all_item_lines(items) =~= seq![]);
    }
}

/// The header shows the selected model and effort and what the client is doing.
pub proof fn the_header_shows_the_selection(app: AppView)
    ensures
        header(app).spans[2].text == app.choice().provider_name + " / "@ + app.choice().model,
        header(app).spans[4].text == match app.effort {
            Some(level) => "effort "@ + level.spelling(),
            None => "effort default"@,
        },
        header(app).spans[6].text == if app.submitting {
            "sending"@
        } else {
            match app.run_state {
                RunState::Idle => "idle"@,
                RunState::Running => "running"@,
                RunState::Failed => "failed"@,
            }
        },
{
}

/// A line takes as many rows as its columns fill, the last one perhaps in part, and never
/// none.
pub proof fn lines_wrap_into_full_rows(columns: nat, width: nat)
    requires
        width > 0,
    ensures
        rows(columns, width) >= 1,
        columns <= rows(columns, width) * width,
        columns > 0 ==> (rows(columns, width) - 1) * width < columns,
        columns == 0 ==> rows(columns, width) == 1,
{
    let used = if columns == 0 {
        1int
    } else {
        columns as int
    };
    let n = (used + width - 1) / width as int;
    assert(rows(columns, width) == n);
    vstd::arithmetic::div_mod::lemma_fundamental_div_mod(used + width - 1, width as int);
    let left = (used + width - 1) % width as int;
    assert(used + width - 1 == width * n + left);
    assert(width * n == n * width) by (nonlinear_arith);
    assert((n - 1) * width == n * width - width) by (nonlinear_arith);
    assert(n >= 1) by (nonlinear_arith)
        requires
            used + width - 1 == width * n + left,
            0 <= left < width,
            used >= 1,
            width > 0,
    ;
    if columns == 0 {
        assert(n == 1) by (nonlinear_arith)
            requires
                width == width * n + left,
                0 <= left < width,
                width > 0,
                n >= 1,
        ;
    }
}

/// The rows of lines add up.
pub proof fn rows_add_up(above: Seq<LineView>, below: Seq<LineView>, width: u16)
    ensures
        total_rows(above + below, width) == total_rows(above, width) + total_rows(below, width),
    decreases below.len(),
{
    if below.len() == 0 {
        assert(above + below =~= above);
    } else {
        rows_add_up(above, below.drop_last(), width);
        assert((above + below).drop_last() =~= above + below.drop_last());
    }
}

/// Settling never moves a view that was scrolled back and is still within the transcript, and
/// touches nothing but the scroll position.
pub proof fn settling_keeps_the_view(app: AppView, line_count: usize, height: u16)
    ensures
        ({
            let last = if line_count > height {
                line_count - height
            } else {
                0
            };
            let next = app.settled(line_count, height);
            &&& app.follow_tail ==> next.scroll == last && next.follow_tail
            &&& !app.follow_tail && app.scroll < last ==> next == app
            &&& !app.follow_tail && app.scroll >= last ==> next.scroll == last && next.follow_tail
            &&& next == (AppView { scroll: next.scroll, follow_tail: next.follow_tail, ..app })
        }),
{
}

/// The cursor is always inside of the composer, which is scrolled no further than needed.
pub proof fn the_cursor_stays_in_the_composer(app: AppView, width: u16)
    requires
        width > 0,
        app.cursor < usize::MAX,
    ensures
        app.composer_scroll(width) <= app.cursor < app.composer_scroll(width) + width,
        app.cursor < width ==> app.composer_scroll(width) == 0,
        app.composer_scroll(width) > 0 ==> app.cursor == app.composer_scroll(width) + width - 1,
{
}

/// A popup shows all of its entries where the screen has room for them and their border, and
/// never more than the screen has but for a least height.
pub proof fn popups_fit_the_screen(entries: usize, screen: u16)
    ensures
        5 <= popup_rows(entries, screen),
        screen >= 7 ==> popup_rows(entries, screen) <= screen - 2,
        1 <= entries && entries + 6 <= screen ==> popup_rows(entries, screen) == entries + 4,
        screen >= 7 && entries + 6 > screen ==> popup_rows(entries, screen) == screen - 2,
{
}

/// Every model has an entry in the popup, with its provider's name, its id and its provider's
/// id; the one under the cursor is marked.
pub proof fn model_popups_list_every_model(choices: Seq<ModelChoiceView>, cursor: usize, k: int)
    requires
        0 <= k < choices.len(),
    ensures
        model_entries(choices, cursor).len() == choices.len() + 2,
        model_entries(choices, cursor)[k].spans.len() == 1,
        ({
            let text = model_entries(choices, cursor)[k].spans[0].text;
            &&& text.skip(2) == choices[k].provider_name + " / "@ + choices[k].model + "  ("@
                + choices[k].provider_id + ")"@
            &&& text[0] == '›' <==> k == cursor
        }),
{
    reveal_strlit("› ");
    reveal_strlit("  ");
    let choice = choices[k];
    let text = model_entries(choices, cursor)[k].spans[0].text;
    assert(text == entry_marker(k == cursor).0 + choice.provider_name + " / "@ + choice.model
        + "  ("@ + choice.provider_id + ")"@);
    assert(text.skip(2) =~= choice.provider_name + " / "@ + choice.model + "  ("@
        + choice.provider_id + ")"@);
}

/// Every session has an entry in the popup, with its short id and the time since it was
/// opened; the one under the cursor is marked.
pub proof fn session_popups_list_every_session(
    sessions: Seq<SessionSummaryView>,
    cursor: usize,
    now_ms: u64,
    k: int,
)
    requires
        0 <= k < sessions.len(),
    ensures
        session_entries(sessions, cursor, now_ms).len() == sessions.len() + 2,
        session_entries(sessions, cursor, now_ms)[k].spans.len() == 1,
        ({
            let text = session_entries(sessions, cursor, now_ms)[k].spans[0].text;
            &&& text.skip(2) == shortened(sessions[k].id) + "  ·  last opened "@ + age(
                sessions[k].last_opened_ms,
                now_ms,
            )
            &&& text[0] == '›' <==> k == cursor
        }),
{
    reveal_strlit("› ");
    reveal_strlit("  ");
    let session = sessions[k];
    let text = session_entries(sessions, cursor, now_ms)[k].spans[0].text;
    assert(text == entry_marker(k == cursor).0 + shortened(session.id) + "  ·  last opened "@
        + age(session.last_opened_ms, now_ms));
    assert(text.skip(2) =~= shortened(session.id) + "  ·  last opened "@ + age(
        session.last_opened_ms,
        now_ms,
    ));
}

/// The composer shows what was typed, and the footer shows a notice while there is one.
pub proof fn notices_and_input_are_shown(app: App, composer: Line, footer: Line)
    requires
        call_ensures(App::composer_line, (&app,), composer),
        call_ensures(App::footer_line, (&app,), footer),
    ensures
        app@.input.len() > 0 ==> composer@ == (LineView {
            spans: seq![SpanView { text: app@.input, tone: Tone::Plain }],
        }),
        app@.notice matches Some(notice) ==> footer@ == (LineView {
            spans: seq![SpanView { text: notice, tone: Tone::Alert }],
        }),
{
}

} // verus!
