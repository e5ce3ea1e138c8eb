//! Reading a provider's answer from its first bytes to its end: which payload
//! comes next, what it yields, and when the answer is over.

use crate::agent::{ProviderEvent, ProviderEventView};
use crate::openai::{
    all_pieces, assembled, choices_text, chunk_view, closing, handled, items_text, items_view,
    streamed_text_is_kept, text_events, tool_calls_are_assembled, with_choices,
    PartialToolCallView, ProviderStream, StreamChoiceView, StreamChunk, StreamChunkView,
};
use crate::sse::{
    after_frame, all_payloads, all_payloads_are_read_back, behind_the_bad_frame, carrying,
    is_payload, next_payload, payloads_are_read_back, sent, SseDecoder,
};
use crate::text::{opt_view, same, views, Text};
use vstd::prelude::*;

verus! {

/// The content of a [`StreamInput`].
#[verifier::ext_equal]
pub enum StreamInputView {
    Chunk(Seq<u8>),
    End,
    Decoded(Result<StreamChunkView, Text>),
    Failed(Text),
}

/// What came of an action: some bytes, the end of the answer, the payload in its
/// decoded form or the decoder's complaint, or a failure of the connection.
#[derive(Debug)]
pub enum StreamInput {
    Chunk(Vec<u8>),
    End,
    Decoded(Result<StreamChunk, String>),
    Failed(String),
}

impl View for StreamInput {
    type V = StreamInputView;

    open spec fn view(&self) -> StreamInputView {
        match self {
            StreamInput::Chunk(bytes) => StreamInputView::Chunk(bytes@),
            StreamInput::End => StreamInputView::End,
            StreamInput::Decoded(chunk) => StreamInputView::Decoded(chunk_view(*chunk)),
            StreamInput::Failed(error) => StreamInputView::Failed(error@),
        }
    }
}

/// The content of a [`StreamNext`].
#[verifier::ext_equal]
pub enum StreamNextView {
    Read,
    Decode(Text),
    Stop,
}

/// What is to be done next: read on, decode a payload, or stop.
#[derive(Debug, Eq, PartialEq)]
pub enum StreamNext {
    Read,
    Decode(String),
    Stop,
}

impl View for StreamNext {
    type V = StreamNextView;

    open spec fn view(&self) -> StreamNextView {
        match self {
            StreamNext::Read => StreamNextView::Read,
            StreamNext::Decode(payload) => StreamNextView::Decode(payload@),
            StreamNext::Stop => StreamNextView::Stop,
        }
    }
}

/// The content of a [`StreamAction`].
#[verifier::ext_equal]
pub struct StreamActionView {
    pub items: Seq<Result<ProviderEventView, Text>>,
    pub next: StreamNextView,
}

/// The items to pass on first, and what is to be done then.
#[derive(Debug, Eq, PartialEq)]
pub struct StreamAction {
    pub items: Vec<Result<ProviderEvent, String>>,
    pub next: StreamNext,
}

impl View for StreamAction {
    type V = StreamActionView;

    open spec fn view(&self) -> StreamActionView {
        StreamActionView { items: items_view(self.items@), next: self.next@ }
    }
}

/// The content of a [`ResponseReader`].
#[verifier::ext_equal]
pub struct ResponseReaderView {
    pub buffer: Seq<u8>,
    pub calls: Seq<PartialToolCallView>,
    pub pending: Option<Text>,
    pub left: Option<Seq<Text>>,
    pub over: bool,
}

/// How far an answer was read: its undecided bytes, its tool calls so far, the
/// payload that is being decoded, and, behind the end of the bytes, the payloads
/// that are left.
#[derive(Debug)]
pub struct ResponseReader {
    pub decoder: SseDecoder,
    pub stream: ProviderStream,
    pub pending: Option<String>,
    pub left: Option<Vec<String>>,
    pub over: bool,
}

impl View for ResponseReader {
    type V = ResponseReaderView;

    open spec fn view(&self) -> ResponseReaderView {
        ResponseReaderView {
            buffer: self.decoder.buffer@,
            calls: self.stream@,
            pending: opt_view(self.pending),
            left: match self.left {
                Some(list) => Some(views(list@)),
                None => None,
            },
            over: self.over,
        }
    }
}

impl ResponseReaderView {
    pub open spec fn started() -> ResponseReaderView {
        ResponseReaderView {
            buffer: seq![],
            calls: seq![],
            pending: None,
            left: None,
            over: false,
        }
    }

    /// What is to be done now.
    pub open spec fn wanted(self) -> StreamNextView {
        if self.over {
            StreamNextView::Stop
        } else {
            match self.pending {
                Some(payload) => StreamNextView::Decode(payload),
                None => StreamNextView::Read,
            }
        }
    }

    /// The answer is over with an error.
    pub open spec fn broken(
        self,
        items: Seq<Result<ProviderEventView, Text>>,
        error: Text,
    ) -> (ResponseReaderView, Seq<Result<ProviderEventView, Text>>) {
        (ResponseReaderView { over: true, ..self }, items.push(Err(error)))
    }

    /// The answer is complete: its tool calls and the completion close it.
    pub open spec fn closed(self, items: Seq<Result<ProviderEventView, Text>>) -> (
        ResponseReaderView,
        Seq<Result<ProviderEventView, Text>>,
    ) {
        (
            ResponseReaderView { calls: seq![], over: true, ..self },
            items + closing(self.calls),
        )
    }

    /// A payload was taken out: the mark of the end, or one to be decoded.
    pub open spec fn with_payload(
        self,
        payload: Text,
        items: Seq<Result<ProviderEventView, Text>>,
    ) -> (ResponseReaderView, Seq<Result<ProviderEventView, Text>>) {
        if payload == "[DONE]"@ {
            self.closed(items)
        } else {
            (ResponseReaderView { pending: Some(payload), ..self }, items)
        }
    }

    /// On to the next payload: from the bytes, as long as more may come, then
    /// from what is left, and then to the end.
    pub open spec fn advanced(self, items: Seq<Result<ProviderEventView, Text>>) -> (
        ResponseReaderView,
        Seq<Result<ProviderEventView, Text>>,
    ) {
        match self.left {
            None => {
                let rest = ResponseReaderView { buffer: after_frame(self.buffer), ..self };
                match next_payload(self.buffer) {
                    Err(error) => rest.broken(items, error),
                    Ok(None) => (rest, items),
                    Ok(Some(payload)) => rest.with_payload(payload, items),
                }
            },
            Some(left) => if left.len() == 0 {
                self.closed(items)
            } else {
                ResponseReaderView { left: Some(left.drop_first()), ..self }.with_payload(
                    left[0],
                    items,
                )
            },
        }
    }

    /// The reader once something came of its action, and the items to pass on.
    /// What does not belong to the action changes nothing.
    pub open spec fn stepped(self, input: StreamInputView) -> (
        ResponseReaderView,
        Seq<Result<ProviderEventView, Text>>,
    ) {
        if self.over {
            (self, seq![])
        } else {
            match (input, self.pending) {
                (StreamInputView::Failed(error), _) => self.broken(seq![], error),
                (StreamInputView::Chunk(bytes), None) => if self.left is None {
                    ResponseReaderView { buffer: self.buffer + bytes, ..self }.advanced(seq![])
                } else {
                    (self, seq![])
                },
                (StreamInputView::End, None) => if self.left is None {
                    let rest = ResponseReaderView {
                        buffer: behind_the_bad_frame(self.buffer),
                        ..self
                    };
                    match all_payloads(self.buffer) {
                        Err(error) => rest.broken(seq![], error),
                        Ok(left) => ResponseReaderView { left: Some(left), ..rest }.advanced(
                            seq![],
                        ),
                    }
                } else {
                    (self, seq![])
                },
                (StreamInputView::Decoded(chunk), Some(payload)) => {
                    let (calls, items, ended) = handled(self.calls, payload, chunk);
                    let next = ResponseReaderView { calls, pending: None, ..self };
                    if ended {
                        (ResponseReaderView { over: true, ..next }, items)
                    } else {
                        next.advanced(items)
                    }
                },
                _ => (self, seq![]),
            }
        }
    }

    /// The reader and its action once something came of the last one.
    pub open spec fn step(self, input: StreamInputView) -> (ResponseReaderView, StreamActionView) {
        let (next, items) = self.stepped(input);
        (next, StreamActionView { items, next: next.wanted() })
    }
}

impl ResponseReader {
    pub fn new() -> (r: ResponseReader)
        ensures
            r@ == ResponseReaderView::started(),
    {
        let r = ResponseReader {
            decoder: SseDecoder::default(),
            stream: ProviderStream::new(),
            pending: None,
            left: None,
            over: false,
        };
        assert(r@.buffer =~= seq![]);
        assert(r@.calls =~= seq![]);
        r
    }

    fn wanted(&self) -> (r: StreamNext)
        ensures
            r@ == self@.wanted(),
    {
        if self.over {
            StreamNext::Stop
        } else {
            match &self.pending {
                Some(payload) => StreamNext::Decode(payload.clone()),
                None => StreamNext::Read,
            }
        }
    }

    fn fail(&mut self, items: Vec<Result<ProviderEvent, String>>, error: String) -> (r: Vec<
        Result<ProviderEvent, String>,
    >)
        ensures
            old(self)@.broken(items_view(items@), error@) == (final(self)@, items_view(r@)),
    {
        let mut all = items;
        let ghost complaint = error@;
        all.push(Err(error));
        assert(items_view(all@) =~= items_view(items@).push(Err(complaint)));
        self.over = true;
        all
    }

    fn close(&mut self, items: Vec<Result<ProviderEvent, String>>) -> (r: Vec<
        Result<ProviderEvent, String>,
    >)
        ensures
            old(self)@.closed(items_view(items@)) == (final(self)@, items_view(r@)),
    {
        let mut all = items;
        let mut last = self.stream.finish();
        let ghost end = items_view(last@);
        all.append(&mut last);
        assert(items_view(all@) =~= items_view(items@) + end);
        assert(self.stream@ =~= seq![]);
        self.over = true;
        all
    }

    fn take_payload(&mut self, payload: String, items: Vec<Result<ProviderEvent, String>>) -> (r:
        Vec<Result<ProviderEvent, String>>)
        ensures
            old(self)@.with_payload(payload@, items_view(items@)) == (
                final(self)@,
                items_view(r@),
            ),
    {
        if same(&payload, "[DONE]") {
            self.close(items)
        } else {
            self.pending = Some(payload);
            items
        }
    }

    fn advance(&mut self, items: Vec<Result<ProviderEvent, String>>) -> (r: Vec<
        Result<ProviderEvent, String>,
    >)
        ensures
            old(self)@.advanced(items_view(items@)) == (final(self)@, items_view(r@)),
    {
        let ghost before = self@;
        match self.left.take() {
            None => {
                assert(self@ =~= before);
                match self.decoder.next_payload() {
                    Err(error) => self.fail(items, error),
                    Ok(None) => items,
                    Ok(Some(payload)) => self.take_payload(payload, items),
                }
            },
            Some(mut left) => {
                let ghost all = views(left@);
                if left.len() == 0 {
                    self.left = Some(left);
                    assert(self@ =~= before);
                    self.close(items)
                } else {
                    let payload = left.remove(0);
                    assert(views(left@) =~= all.drop_first());
                    self.left = Some(left);
                    self.take_payload(payload, items)
                }
            },
        }
    }

    /// Takes in what came of the last action and says what is to be done next.
    pub fn step(&mut self, input: StreamInput) -> (r: StreamAction)
        ensures
            old(self)@.step(input@) == (final(self)@, r@),
    {
        let items = self.take_in(input);
        StreamAction { items, next: self.wanted() }
    }

    fn take_in(&mut self, input: StreamInput) -> (r: Vec<Result<ProviderEvent, String>>)
        ensures
            old(self)@.stepped(input@) == (final(self)@, items_view(r@)),
    {
        let none: Vec<Result<ProviderEvent, String>> = Vec::new();
        assert(items_view(none@) =~= seq![]);
        if self.over {
            return none;
        }
        let ghost before = self@;
        match input {
            StreamInput::Failed(error) => self.fail(none, error),
            StreamInput::Chunk(bytes) => if self.pending.is_none() && self.left.is_none() {
                self.decoder.push(&bytes);
                self.advance(none)
            } else {
                none
            },
            StreamInput::End => if self.pending.is_none() && self.left.is_none() {
                match self.decoder.finish() {
                    Err(error) => self.fail(none, error),
                    Ok(left) => {
                        self.left = Some(left);
                        self.advance(none)
                    },
                }
            } else {
                none
            },
            StreamInput::Decoded(chunk) => match self.pending.take() {
                None => {
                    assert(self@ =~= before);
                    none
                },
                Some(payload) => {
                    let output = self.stream.handle_payload(&payload, chunk);
                    if output.ended {
                        self.over = true;
                        output.items
                    } else {
                        self.advance(output.items)
                    }
                },
            },
        }
    }
}

/// Whether an item ends an answer: the completion, or an error.
pub open spec fn is_last(item: Result<ProviderEventView, Text>) -> bool {
    item is Err || item == Ok::<ProviderEventView, Text>(ProviderEventView::Completed)
}

/// Whether some items hold no end.
pub open spec fn goes_on(items: Seq<Result<ProviderEventView, Text>>) -> bool {
    forall|i: int| 0 <= i < items.len() ==> !is_last(#[trigger] items[i])
}

/// Whether the last of some items, and no other, is an end.
pub open spec fn ends(items: Seq<Result<ProviderEventView, Text>>) -> bool {
    items.len() > 0 && is_last(items.last()) && goes_on(items.drop_last())
}

proof fn texts_go_on(choices: Seq<StreamChoiceView>)
    ensures
        goes_on(text_events(choices)),
    decreases choices.len(),
{
    if choices.len() > 0 {
        texts_go_on(choices.drop_last());
    }
}

proof fn closings_end(calls: Seq<PartialToolCallView>)
    ensures
        ends(closing(calls)),
    decreases calls.len(),
{
    if calls.len() > 0 && calls[0].id.len() > 0 && calls[0].name.len() > 0 {
        let rest = closing(calls.drop_first());
        closings_end(calls.drop_first());
        let all = closing(calls);
        assert(all == seq![all[0]] + rest);
        assert(all.drop_last() =~= seq![all[0]] + rest.drop_last());
    }
}

proof fn advancing_ends_once(
    s: ResponseReaderView,
    items: Seq<Result<ProviderEventView, Text>>,
)
    requires
        !s.over,
        goes_on(items),
    ensures
        ({
            let (next, all) = s.advanced(items);
            if next.over {
                ends(all)
            } else {
                goes_on(all)
            }
        }),
{
    let end = closing(s.calls);
    closings_end(s.calls);
    assert((items + end).drop_last() =~= items + end.drop_last());
    assert(forall|error: Text|
        #![auto]
        items.push(Err::<ProviderEventView, Text>(error)).drop_last() =~= items);
}

/// An answer ends once: as long as it goes on, its items are text and tool
/// calls; the step with which it is over yields exactly one end, the completion
/// or an error, as its last item; and behind that nothing comes any more.
pub proof fn answers_end_once(s: ResponseReaderView, input: StreamInputView)
    ensures
        ({
            let (next, action) = s.step(input);
            &&& s.over ==> next == s && action.items.len() == 0 && action.next is Stop
            &&& !s.over && next.over ==> ends(action.items) && action.next is Stop
            &&& !next.over ==> goes_on(action.items) && !(action.next is Stop)
        }),
{
    if !s.over {
        let none = Seq::<Result<ProviderEventView, Text>>::empty();
        match (input, s.pending) {
            (StreamInputView::Chunk(bytes), None) => {
                advancing_ends_once(
                    ResponseReaderView { buffer: s.buffer + bytes, ..s },
                    none,
                );
            },
            (StreamInputView::End, None) => {
                if let Ok(left) = all_payloads(s.buffer) {
                    advancing_ends_once(
                        ResponseReaderView {
                            buffer: behind_the_bad_frame(s.buffer),
                            left: Some(left),
                            ..s
                        },
                        none,
                    );
                }
            },
            (StreamInputView::Decoded(chunk), Some(payload)) => {
                let (calls, items, ended) = handled(s.calls, payload, chunk);
                closings_end(s.calls);
                if let Ok(chunk) = chunk {
                    texts_go_on(chunk.choices);
                }
                if !ended {
                    advancing_ends_once(
                        ResponseReaderView { calls, pending: None, ..s },
                        items,
                    );
                }
            },
            _ => {},
        }
    }
}

/// Whatever the bytes were, their end leads to the end of the answer: every
/// decoded payload leaves one less, and none is read any more.
pub proof fn what_is_left_runs_out(s: ResponseReaderView, chunk: Result<StreamChunkView, Text>)
    requires
        !s.over,
        s.pending is Some,
        s.left is Some,
    ensures
        ({
            let next = s.step(StreamInputView::Decoded(chunk)).0;
            next.over || (next.pending is Some && next.left is Some && next.left->0.len()
                < s.left->0.len())
        }),
{
}

/// A reader that takes some inputs, and all items it yields.
pub open spec fn reading(inputs: Seq<StreamInputView>) -> (
    ResponseReaderView,
    Seq<Result<ProviderEventView, Text>>,
)
    decreases inputs.len(),
{
    if inputs.len() == 0 {
        (ResponseReaderView::started(), seq![])
    } else {
        let (before, items) = reading(inputs.drop_last());
        let (after, more) = before.stepped(inputs.last());
        (after, items + more)
    }
}

/// The choices of all chunks that were decoded for the reader, in order.
pub open spec fn decoded_choices(inputs: Seq<StreamInputView>) -> Seq<StreamChoiceView>
    decreases inputs.len(),
{
    if inputs.len() == 0 {
        seq![]
    } else {
        let before = reading(inputs.drop_last()).0;
        let earlier = decoded_choices(inputs.drop_last());
        match inputs.last() {
            StreamInputView::Decoded(Ok(chunk)) if !before.over && before.pending is Some => earlier
                + chunk.choices,
            _ => earlier,
        }
    }
}

proof fn item_texts_join(
    a: Seq<Result<ProviderEventView, Text>>,
    b: Seq<Result<ProviderEventView, Text>>,
)
    ensures
        items_text(a + b) == items_text(a) + items_text(b),
    decreases b.len(),
{
    if b.len() == 0 {
        assert(a + b =~= a);
        assert(items_text(a) + items_text(b) =~= items_text(a));
    } else {
        item_texts_join(a, b.drop_last());
        assert((a + b).drop_last() =~= a + b.drop_last());
        assert(items_text(a + b) =~= items_text(a) + items_text(b));
    }
}

proof fn choice_texts_join(a: Seq<StreamChoiceView>, b: Seq<StreamChoiceView>)
    ensures
        choices_text(a + b) == choices_text(a) + choices_text(b),
    decreases b.len(),
{
    if b.len() == 0 {
        assert(a + b =~= a);
        assert(choices_text(a) + choices_text(b) =~= choices_text(a));
    } else {
        choice_texts_join(a, b.drop_last());
        assert((a + b).drop_last() =~= a + b.drop_last());
        assert(choices_text(a + b) =~= choices_text(a) + choices_text(b));
    }
}

proof fn choices_add_up(
    calls: Seq<PartialToolCallView>,
    a: Seq<StreamChoiceView>,
    b: Seq<StreamChoiceView>,
)
    ensures
        with_choices(calls, a + b) == with_choices(with_choices(calls, a), b),
    decreases b.len(),
{
    if b.len() == 0 {
        assert(a + b =~= a);
    } else {
        choices_add_up(calls, a, b.drop_last());
        assert((a + b).drop_last() =~= a + b.drop_last());
    }
}

proof fn closings_hold_no_text(calls: Seq<PartialToolCallView>)
    ensures
        items_text(closing(calls)) == Seq::<char>::empty(),
    decreases calls.len(),
{
    reveal_with_fuel(items_text, 2);
    let items = closing(calls);
    if calls.len() > 0 && calls[0].id.len() > 0 && calls[0].name.len() > 0 {
        closings_hold_no_text(calls.drop_first());
        let first = seq![items[0]];
        assert(items =~= first + closing(calls.drop_first()));
        item_texts_join(first, closing(calls.drop_first()));
        assert(first.drop_last() =~= seq![]);
    } else {
        assert(items.drop_last() =~= seq![]);
    }
}

proof fn advancing_adds_no_text(s: ResponseReaderView, items: Seq<Result<ProviderEventView, Text>>)
    requires
        !s.over,
        s.pending is None,
    ensures
        items_text(s.advanced(items).1) == items_text(items),
        s.advanced(items).0.pending != Some("[DONE]"@),
        !s.advanced(items).0.over ==> s.advanced(items).0.calls == s.calls,
{
    closings_hold_no_text(s.calls);
    item_texts_join(items, closing(s.calls));
    assert(items_text(items) + Seq::<char>::empty() =~= items_text(items));
    assert forall|error: Text| items_text(#[trigger] items.push(Err(error))) == items_text(
        items,
    ) by {
        let all = items.push(Err::<ProviderEventView, Text>(error));
        assert(all.drop_last() =~= items);
        assert(items_text(items) + Seq::<char>::empty() =~= items_text(items));
    }
}

/// Over a whole answer, however its bytes arrive and its payloads are cut: the
/// text that was yielded is the contents of all decoded chunks, character for
/// character, and as long as the answer goes on its tool calls are made of all
/// their pieces.
pub proof fn whole_answers_are_kept(inputs: Seq<StreamInputView>)
    ensures
        ({
            let (state, items) = reading(inputs);
            &&& items_text(items) == choices_text(decoded_choices(inputs))
            &&& !state.over ==> assembled(state.calls, all_pieces(decoded_choices(inputs)))
        }),
{
    answers_add_up(inputs);
    tool_calls_are_assembled(decoded_choices(inputs));
}

proof fn answers_add_up(inputs: Seq<StreamInputView>)
    ensures
        ({
            let (state, items) = reading(inputs);
            &&& items_text(items) == choices_text(decoded_choices(inputs))
            &&& state.pending != Some("[DONE]"@)
            &&& !state.over ==> state.calls == with_choices(seq![], decoded_choices(inputs))
        }),
    decreases inputs.len(),
{
    reveal_with_fuel(items_text, 2);
    if inputs.len() > 0 {
        answers_add_up(inputs.drop_last());
        let (s, items) = reading(inputs.drop_last());
        let more = s.stepped(inputs.last()).1;
        let earlier = decoded_choices(inputs.drop_last());
        let none = Seq::<Result<ProviderEventView, Text>>::empty();
        item_texts_join(items, more);
        assert(items_text(items) + Seq::<char>::empty() =~= items_text(items));
        if !s.over {
            match (inputs.last(), s.pending) {
                (StreamInputView::Failed(error), _) => {
                    assert(more.drop_last() =~= none);
                },
                (StreamInputView::Chunk(bytes), None) => {
                    if s.left is None {
                        advancing_adds_no_text(
                            ResponseReaderView { buffer: s.buffer + bytes, ..s },
                            none,
                        );
                    }
                },
                (StreamInputView::End, None) => {
                    if s.left is None {
                        let rest = ResponseReaderView {
                            buffer: behind_the_bad_frame(s.buffer),
                            ..s
                        };
                        match all_payloads(s.buffer) {
                            Ok(left) => {
                                advancing_adds_no_text(
                                    ResponseReaderView { left: Some(left), ..rest },
                                    none,
                                );
                            },
                            Err(error) => {
                                assert(more.drop_last() =~= none);
                            },
                        }
                    }
                },
                (StreamInputView::Decoded(chunk), Some(payload)) => {
                    let (calls, said, ended) = handled(s.calls, payload, chunk);
                    match chunk {
                        Ok(chunk) => {
                            streamed_text_is_kept(chunk.choices);
                            choice_texts_join(earlier, chunk.choices);
                            choices_add_up(seq![], earlier, chunk.choices);
                            advancing_adds_no_text(
                                ResponseReaderView { calls, pending: None, ..s },
                                said,
                            );
                        },
                        Err(error) => {
                            assert(more.drop_last() =~= none);
                        },
                    }
                },
                _ => {},
            }
        }
    }
}

/// Every payload is decoded in its turn: a reader that moves on to a frame asks
/// for the decoding of what the frame carries, and keeps what stands behind it.
/// The mark of the end closes the answer at once.
pub proof fn every_payload_is_decoded(
    s: ResponseReaderView,
    text: Text,
    rest: Seq<u8>,
    items: Seq<Result<ProviderEventView, Text>>,
)
    requires
        !s.over,
        s.pending is None,
        s.left is None,
        is_payload(text),
        s.buffer == carrying(text) + rest,
    ensures
        ({
            let next = s.advanced(items).0;
            &&& next.buffer == rest
            &&& text != "[DONE]"@ ==> !next.over && next.pending == Some(text) && next.wanted()
                == StreamNextView::Decode(text)
            &&& text == "[DONE]"@ ==> next.over
        }),
{
    payloads_are_read_back(text, rest);
}

/// At the end of the bytes every payload that is left is still decoded, in its
/// order, before the answer is closed.
pub proof fn nothing_is_left_at_the_end(s: ResponseReaderView, texts: Seq<Text>)
    requires
        !s.over,
        s.pending is None,
        s.left is None,
        forall|i: int| 0 <= i < texts.len() ==> is_payload(#[trigger] texts[i]),
        s.buffer == sent(texts),
    ensures
        ({
            let next = s.stepped(StreamInputView::End).0;
            &&& texts.len() == 0 ==> next.over
            &&& texts.len() > 0 && texts[0] != "[DONE]"@ ==> next.pending == Some(texts[0])
                && next.left == Some(texts.drop_first())
        }),
{
    all_payloads_are_read_back(texts);
}

} // verus!
