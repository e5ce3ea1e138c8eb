//! Server-sent events: cutting a byte stream into frames and reading the data
//! of a frame, for the provider's stream and for the runtime's own.

use crate::text::{
    concat, decode_text, find, find_is_first_match, is_line, is_space, join, join_text,
    joined_lines_are_read_back, lines, lines_text, match_at, needles_are_found, starts_with, strip_prefix_text,
    trim_start, trim_start_text, utf8_fault, views, Text,
};
use vstd::prelude::*;
use vstd::utf8::{
    char_is_scalar, decode_utf8, encode_scalar, encode_utf8, encode_utf8_decode_utf8,
    encode_utf8_valid_utf8, has_width_1_encoding, leading_byte_width_1, valid_utf8,
};

verus! {

/// A blank line after `\n` line ends.
pub open spec fn lf_break() -> Seq<u8> {
    seq![10u8, 10u8]
}

/// A blank line after `\r\n` line ends.
pub open spec fn crlf_break() -> Seq<u8> {
    seq![13u8, 10u8, 13u8, 10u8]
}

/// Where the first frame of a buffer ends, and how long the break behind it
/// is. The `\r\n` form counts only where the `\n` form does not occur.
pub open spec fn boundary(buffer: Seq<u8>) -> Option<(int, int)> {
    match find(buffer, lf_break()) {
        Some(at) => Some((at, 2)),
        None => match find(buffer, crlf_break()) {
            Some(at) => Some((at, 4)),
            None => None,
        },
    }
}

/// The first position of a break of one form.
fn find_break(buffer: &[u8], crlf: bool) -> (r: Option<usize>)
    ensures
        r is Some <==> find(
            buffer@,
            if crlf {
                crlf_break()
            } else {
                lf_break()
            },
        ) is Some,
        r matches Some(at) ==> find(
            buffer@,
            if crlf {
                crlf_break()
            } else {
                lf_break()
            },
        ) == Some(at as int) && at + (if crlf {
            4int
        } else {
            2int
        }) <= buffer@.len(),
{
    let ghost needle = if crlf {
        crlf_break()
    } else {
        lf_break()
    };
    let size: usize = buffer.len();
    let mut i: usize = 0;
    assert(buffer@.skip(0) =~= buffer@);
    loop
        invariant
            size == buffer@.len(),
            i <= size,
            needle == (if crlf {
                crlf_break()
            } else {
                lf_break()
            }),
            find(buffer@, needle) is Some <==> find(buffer@.skip(i as int), needle) is Some,
            find(buffer@.skip(i as int), needle) matches Some(at) ==> find(buffer@, needle) == Some(
                at + i,
            ),
        decreases size - i,
    {
        let ghost rest = buffer@.skip(i as int);
        let here = if crlf {
            size - i >= 4 && buffer[i] == 13 && buffer[i + 1] == 10 && buffer[i + 2] == 13
                && buffer[i + 3] == 10
        } else {
            size - i >= 2 && buffer[i] == 10 && buffer[i + 1] == 10
        };
        proof {
            if here {
                assert(rest.take(needle.len() as int) =~= needle);
            } else if starts_with(rest, needle) {
                let head = rest.take(needle.len() as int);
                assert(head == needle);
                assert(rest[0] == needle[0] && rest[1] == needle[1]) by {
                    assert(head[0] == rest[0] && head[1] == rest[1]);
                }
                if crlf {
                    assert(head[2] == rest[2] && head[3] == rest[3]);
                }
            }
        }
        if here {
            return Some(i);
        }
        if i == size {
            return None;
        }
        assert(rest.drop_first() =~= buffer@.skip(i as int + 1));
        i += 1;
    }
}

/// Where the first frame of a buffer ends, and how long the break behind it
/// is.
pub fn frame_boundary(buffer: &[u8]) -> (r: Option<(usize, usize)>)
    ensures
        r is Some <==> boundary(buffer@) is Some,
        r matches Some((at, size)) ==> boundary(buffer@) == Some((at as int, size as int)) && at
            + size <= buffer@.len(),
{
    match find_break(buffer, false) {
        Some(at) => Some((at, 2)),
        None => match find_break(buffer, true) {
            Some(at) => Some((at, 4)),
            None => None,
        },
    }
}

/// The data of the lines of a frame: what stands behind `data:`, without the
/// white space in front.
pub open spec fn data_lines(lines: Seq<Text>) -> Seq<Text>
    decreases lines.len(),
{
    if lines.len() == 0 {
        seq![]
    } else {
        let rest = data_lines(lines.drop_last());
        if starts_with(lines.last(), "data:"@) {
            rest.push(trim_start(lines.last().skip("data:"@.len() as int)))
        } else {
            rest
        }
    }
}

/// The data of a frame: that of its lines, one below the other.
pub open spec fn frame_data(frame: Text) -> Text {
    join(data_lines(lines(frame)), "\n"@)
}

/// The data of a frame.
pub fn frame_data_text(frame: &str) -> (r: String)
    ensures
        r@ == frame_data(frame@),
{
    let all = lines_text(frame);
    let mut data: Vec<String> = Vec::new();
    let mut i: usize = 0;
    let ghost content = views(all@);
    assert(content.take(0) =~= seq![]);
    assert(views(data@) =~= data_lines(content.take(0)));
    while i < all.len()
        invariant
            i <= all@.len(),
            content == views(all@),
            views(data@) == data_lines(content.take(i as int)),
        decreases all@.len() - i,
    {
        let ghost before = data@;
        assert(content.take(i as int + 1).drop_last() =~= content.take(i as int));
        assert(content.take(i as int + 1).last() == all@[i as int]@);
        if let Some(rest) = strip_prefix_text(&all[i], "data:") {
            data.push(trim_start_text(&rest));
            assert(views(data@) =~= views(before).push(trim_start(rest@)));
        }
        i += 1;
    }
    assert(content.take(all@.len() as int) =~= content);
    join_text(&data, "\n")
}

/// The payload of a provider's frame.
pub open spec fn payload(frame: Seq<u8>) -> Result<Text, Text> {
    if !valid_utf8(frame) {
        Err("provider stream was not UTF-8: "@ + utf8_fault(frame))
    } else if frame_data(decode_utf8(frame)).len() == 0 {
        Err("provider stream event contained no data"@)
    } else {
        Ok(frame_data(decode_utf8(frame)))
    }
}

/// The content of a payload or of the reason why there is none.
pub open spec fn text_result(r: Result<String, String>) -> Result<Text, Text> {
    match r {
        Ok(text) => Ok(text@),
        Err(error) => Err(error@),
    }
}

/// Reads the payload of a provider's frame.
pub fn parse_frame(frame: &[u8]) -> (r: Result<String, String>)
    ensures
        text_result(r) == payload(frame@),
{
    let text = match decode_text(frame) {
        Ok(text) => text,
        Err(error) => {
            return Err(concat("provider stream was not UTF-8: ", &error));
        },
    };
    let data = frame_data_text(&text);
    if data.as_str().is_empty() {
        return Err("provider stream event contained no data".to_owned());
    }
    Ok(data)
}

/// Cuts a provider's byte stream into payloads.
#[derive(Debug)]
pub struct SseDecoder {
    pub buffer: Vec<u8>,
}

impl Default for SseDecoder {
    fn default() -> (r: Self)
        ensures
            r.buffer@.len() == 0,
    {
        SseDecoder { buffer: Vec::new() }
    }
}

/// What reading one payload leaves in the buffer.
pub open spec fn after_frame(buffer: Seq<u8>) -> Seq<u8> {
    match boundary(buffer) {
        Some((at, size)) => buffer.skip(at + size),
        None => buffer,
    }
}

/// The next payload of a buffer, if a whole frame is there.
pub open spec fn next_payload(buffer: Seq<u8>) -> Result<Option<Text>, Text> {
    match boundary(buffer) {
        Some((at, _)) => match payload(buffer.take(at)) {
            Ok(text) => Ok(Some(text)),
            Err(error) => Err(error),
        },
        None => Ok(None),
    }
}

/// A boundary lies inside its buffer.
pub proof fn boundary_is_inside(buffer: Seq<u8>)
    ensures
        boundary(buffer) matches Some((at, size)) ==> 0 <= at && size > 0 && at + size
            <= buffer.len(),
{
    find_is_first_match(buffer, lf_break());
    find_is_first_match(buffer, crlf_break());
}

/// All payloads of a buffer at the end of the stream. What stands behind the
/// last break is a frame too, unless it is empty. The first bad frame decides.
pub open spec fn all_payloads(buffer: Seq<u8>) -> Result<Seq<Text>, Text>
    decreases buffer.len(),
{
    match boundary(buffer) {
        Some((at, size)) => if 0 <= at && 0 < size && at + size <= buffer.len() {
            match (payload(buffer.take(at)), all_payloads(buffer.skip(at + size))) {
                (Ok(first), Ok(rest)) => Ok(seq![first] + rest),
                (Ok(_), Err(error)) => Err(error),
                (Err(error), _) => Err(error),
            }
        } else {
            Ok(seq![])
        },
        None => if buffer.len() == 0 {
            Ok(seq![])
        } else {
            match payload(buffer) {
                Ok(last) => Ok(seq![last]),
                Err(error) => Err(error),
            }
        },
    }
}

/// What stands behind the first bad frame of a buffer at the end of the stream;
/// nothing, if every frame is good.
pub open spec fn behind_the_bad_frame(buffer: Seq<u8>) -> Seq<u8>
    decreases buffer.len(),
{
    match boundary(buffer) {
        Some((at, size)) => if 0 <= at && 0 < size && at + size <= buffer.len() {
            if payload(buffer.take(at)) is Err {
                buffer.skip(at + size)
            } else {
                behind_the_bad_frame(buffer.skip(at + size))
            }
        } else {
            seq![]
        },
        None => seq![],
    }
}

impl SseDecoder {
    /// Takes bytes as they arrive.
    pub fn push(&mut self, bytes: &[u8])
        ensures
            final(self).buffer@ == old(self).buffer@ + bytes@,
    {
        self.buffer.extend_from_slice(bytes);
        assert(self.buffer@ =~= old(self).buffer@ + bytes@);
    }

    /// Takes the next whole frame out of the buffer and returns its payload.
    pub fn next_payload(&mut self) -> (r: Result<Option<String>, String>)
        ensures
            final(self).buffer@ == after_frame(old(self).buffer@),
            match r {
                Ok(Some(text)) => next_payload(old(self).buffer@) == Ok::<Option<Text>, Text>(
                    Some(text@),
                ),
                Ok(None) => next_payload(old(self).buffer@) == Ok::<Option<Text>, Text>(None),
                Err(error) => next_payload(old(self).buffer@) == Err::<Option<Text>, Text>(error@),
            },
    {
        let ghost before = self.buffer@;
        match frame_boundary(&self.buffer) {
            None => Ok(None),
            Some((at, size)) => {
                let mut frame = self.buffer.split_off(0);
                let mut rest = frame.split_off(at);
                let tail = rest.split_off(size);
                assert(frame@ =~= before.take(at as int));
                assert(tail@ =~= before.skip(at + size));
                self.buffer = tail;
                match parse_frame(&frame) {
                    Ok(text) => Ok(Some(text)),
                    Err(error) => Err(error),
                }
            },
        }
    }

    /// The payloads that are left when the stream has ended. The buffer keeps
    /// what stands behind a bad frame.
    pub fn finish(&mut self) -> (r: Result<Vec<String>, String>)
        ensures
            final(self).buffer@ == behind_the_bad_frame(old(self).buffer@),
            match r {
                Ok(texts) => all_payloads(old(self).buffer@) == Ok::<Seq<Text>, Text>(
                    views(texts@),
                ) && final(self).buffer@.len() == 0,
                Err(error) => all_payloads(old(self).buffer@) == Err::<Seq<Text>, Text>(error@),
            },
    {
        let ghost whole = self.buffer@;
        let mut texts: Vec<String> = Vec::new();
        assert(views(texts@) =~= seq![]);
        let mut more = true;
        while more
            invariant
                whole == old(self).buffer@,
                behind_the_bad_frame(self.buffer@) == behind_the_bad_frame(whole),
                match all_payloads(self.buffer@) {
                    Ok(rest) => all_payloads(whole) == Ok::<Seq<Text>, Text>(views(texts@) + rest),
                    Err(error) => all_payloads(whole) == Err::<Seq<Text>, Text>(error),
                },
                !more ==> boundary(self.buffer@) is None,
            decreases
                self.buffer@.len(),
                if more {
                    1nat
                } else {
                    0nat
                },
        {
            let ghost before = self.buffer@;
            let ghost texts_before = texts@;
            proof {
                boundary_is_inside(before);
            }
            match self.next_payload() {
                Err(error) => {
                    return Err(error);
                },
                Ok(None) => {
                    more = false;
                },
                Ok(Some(text)) => {
                    texts.push(text);
                    assert(views(texts@) =~= views(texts_before).push(text@));
                    proof {
                        if let Ok(rest) = all_payloads(self.buffer@) {
                            assert(views(texts_before) + (seq![text@] + rest) =~= views(texts@)
                                + rest);
                        }
                    }
                },
            }
        }
        let ghost texts_before = texts@;
        let ghost last = self.buffer@;
        let frame = self.buffer.split_off(0);
        assert(frame@ =~= last);
        assert(self.buffer@ =~= seq![]);
        if frame.len() > 0 {
            match parse_frame(&frame) {
                Err(error) => {
                    return Err(error);
                },
                Ok(text) => {
                    texts.push(text);
                    assert(views(texts@) =~= views(texts_before) + seq![text@]);
                },
            }
        } else {
            assert(views(texts@) =~= views(texts@) + Seq::<Text>::empty());
        }
        Ok(texts)
    }
}

/// The whole frames of a buffer, and what is left behind the last of them.
pub open spec fn frames(buffer: Seq<u8>) -> (Seq<Seq<u8>>, Seq<u8>)
    decreases buffer.len(),
{
    match boundary(buffer) {
        Some((at, size)) => if 0 <= at && 0 < size && at + size <= buffer.len() {
            let (rest, left) = frames(buffer.skip(at + size));
            (seq![buffer.take(at)] + rest, left)
        } else {
            (seq![], buffer)
        },
        None => (seq![], buffer),
    }
}

/// Whether a stream uses one form of blank line throughout.
pub open spec fn one_line_end(stream: Seq<u8>) -> bool {
    find(stream, lf_break()) is None || find(stream, crlf_break()) is None
}

proof fn suffix_has_no_more(stream: Seq<u8>, from: int, needle: Seq<u8>)
    requires
        0 <= from <= stream.len(),
        find(stream, needle) is None,
    ensures
        find(stream.skip(from), needle) is None,
{
    find_is_first_match(stream, needle);
    find_is_first_match(stream.skip(from), needle);
    if let Some(at) = find(stream.skip(from), needle) {
        assert(stream.subrange(from + at, from + at + needle.len()) =~= stream.skip(from).subrange(
            at,
            at + needle.len(),
        ));
        assert(match_at(stream, needle, from + at));
    }
}

proof fn first_match_is_stable(a: Seq<u8>, b: Seq<u8>, needle: Seq<u8>)
    ensures
        find(a, needle) matches Some(at) ==> find(a + b, needle) == Some(at),
        find(a + b, needle) is None ==> find(a, needle) is None,
{
    find_is_first_match(a, needle);
    find_is_first_match(a + b, needle);
    if let Some(at) = find(a, needle) {
        assert((a + b).subrange(at, at + needle.len()) =~= a.subrange(at, at + needle.len()));
        assert(match_at(a + b, needle, at));
        let first = find(a + b, needle)->0;
        assert(a.subrange(first, first + needle.len()) =~= (a + b).subrange(
            first,
            first + needle.len(),
        ));
        assert(match_at(a, needle, first));
    }
}

/// How a stream is cut into chunks does not matter: reading all frames of `a`
/// and, after `b` has arrived, all frames of what was left together with `b`
/// gives the frames of the whole, as long as the stream does not mix its line
/// ends.
pub proof fn chunking_does_not_matter(a: Seq<u8>, b: Seq<u8>)
    requires
        one_line_end(a + b),
    ensures
        ({
            let (first, left) = frames(a);
            let (second, rest) = frames(left + b);
            frames(a + b) == (first + second, rest)
        }),
    decreases a.len(),
{
    let whole = a + b;
    first_match_is_stable(a, b, lf_break());
    first_match_is_stable(a, b, crlf_break());
    boundary_is_inside(a);
    boundary_is_inside(whole);
    match boundary(a) {
        None => {
            let (second, rest) = frames(whole);
            assert(Seq::<Seq<u8>>::empty() + second =~= second);
        },
        Some((at, size)) => {
            assert(boundary(whole) == Some((at, size)));
            let tail = a.skip(at + size);
            assert(whole.skip(at + size) =~= tail + b);
            assert(whole.take(at) =~= a.take(at));
            if find(whole, lf_break()) is None {
                suffix_has_no_more(whole, at + size, lf_break());
            } else {
                suffix_has_no_more(whole, at + size, crlf_break());
            }
            chunking_does_not_matter(tail, b);
            let (first, left) = frames(tail);
            let (second, rest) = frames(left + b);
            assert(seq![a.take(at)] + first + second =~= seq![a.take(at)] + (first + second));
        },
    }
}

/// More bytes do not move the end of a frame that is there as a whole, as long
/// as the stream does not mix its line ends.
pub proof fn first_frame_is_stable(a: Seq<u8>, b: Seq<u8>)
    requires
        one_line_end(a + b),
        boundary(a) is Some,
    ensures
        boundary(a + b) == boundary(a),
        after_frame(a + b) == after_frame(a) + b,
        one_line_end(after_frame(a) + b),
        after_frame(a).len() < a.len(),
        boundary(a) matches Some((at, _)) ==> (a + b).take(at) == a.take(at),
{
    let whole = a + b;
    first_match_is_stable(a, b, lf_break());
    first_match_is_stable(a, b, crlf_break());
    boundary_is_inside(a);
    let (at, size) = boundary(a)->0;
    assert(whole.skip(at + size) =~= a.skip(at + size) + b);
    assert(whole.take(at) =~= a.take(at));
    if find(whole, lf_break()) is None {
        suffix_has_no_more(whole, at + size, lf_break());
    } else {
        suffix_has_no_more(whole, at + size, crlf_break());
    }
}

/// Whether an item stands at a position of a sequence and at the next one.
spec fn twice_at<T>(s: Seq<T>, item: T, i: int) -> bool {
    0 <= i < s.len() - 1 && s[i] == item && s[i + 1] == item
}

/// Whether a line break follows another one in a text.
spec fn has_blank_line(s: Text) -> bool {
    exists|i: int| twice_at(s, '\n', i)
}

/// A character's bytes hold a line feed only if it is the line feed.
proof fn line_feed_is_a_byte(c: char)
    ensures
        c == '\n' ==> encode_scalar(c as u32) == seq![10u8],
        c != '\n' ==> !encode_scalar(c as u32).contains(10u8),
        encode_scalar(c as u32).len() > 0,
{
    let s = c as u32;
    char_is_scalar(c);
    let bytes = encode_scalar(s);
    if has_width_1_encoding(s) {
        assert((s & 0x7F) as u8 == 10u8 <==> s == 10) by (bit_vector)
            requires
                s <= 0x7F,
        ;
        assert(bytes =~= seq![leading_byte_width_1(s)]);
        assert(bytes.contains(10u8) ==> bytes[0] == 10u8);
    } else {
        assert(0xC0u8 | ((s >> 6) & 0x1F) as u8 != 10u8) by (bit_vector);
        assert(0xE0u8 | ((s >> 12) & 0x0F) as u8 != 10u8) by (bit_vector);
        assert(0xF0u8 | ((s >> 18) & 0x7) as u8 != 10u8) by (bit_vector);
        assert(0x80u8 | (s & 0x3F) as u8 != 10u8) by (bit_vector);
        assert(0x80u8 | ((s >> 6) & 0x3F) as u8 != 10u8) by (bit_vector);
        assert(0x80u8 | ((s >> 12) & 0x3F) as u8 != 10u8) by (bit_vector);
        assert forall|i: int| 0 <= i < bytes.len() implies #[trigger] bytes[i] != 10u8 by {}
    }
}

/// Line feeds among the bytes of a text are line breaks of the text.
proof fn line_feeds_are_line_breaks(s: Text)
    ensures
        encode_utf8(s).len() == 0 <==> s.len() == 0,
        s.len() > 0 && encode_utf8(s)[0] == 10 ==> s[0] == '\n',
        s.len() > 0 && encode_utf8(s).last() == 10 ==> s.last() == '\n',
        forall|i: int| #[trigger] twice_at(encode_utf8(s), 10u8, i) ==> has_blank_line(s),
    decreases s.len(),
{
    if s.len() > 0 {
        let bytes = encode_utf8(s);
        let first = encode_scalar(s[0] as u32);
        let rest = s.drop_first();
        let others = encode_utf8(rest);
        line_feed_is_a_byte(s[0]);
        line_feeds_are_line_breaks(rest);
        assert(bytes == first + others);
        assert forall|i: int| 0 <= i < first.len() && #[trigger] bytes[i] == 10 implies s[0] == '\n'
            by {
            assert(first.contains(first[i]));
        }
        if bytes.last() == 10 {
            if rest.len() > 0 {
                assert(bytes.last() == others.last());
                assert(rest.last() == s.last());
            } else {
                assert(bytes[bytes.len() - 1] == 10);
                assert(s.last() == s[0]);
            }
        }
        assert forall|i: int| #[trigger] twice_at(bytes, 10u8, i) implies has_blank_line(s) by {
            if i < first.len() {
                assert(first.len() == 1);
                assert(bytes[i + 1] == others[0]);
                assert(rest[0] == s[1]);
                assert(twice_at(s, '\n', 0));
            } else {
                let k = i - first.len();
                assert(twice_at(others, 10u8, k));
                let j = choose|j: int| twice_at(rest, '\n', j);
                assert(twice_at(s, '\n', j + 1));
            }
        }
    }
}

/// Lines that are not empty leave no blank line between them.
proof fn full_lines_leave_no_gap(items: Seq<Text>)
    requires
        items.len() > 0,
        forall|i: int|
            0 <= i < items.len() ==> is_line(#[trigger] items[i]) && items[i].len() > 0,
    ensures
        join(items, "\n"@).len() > 0,
        join(items, "\n"@).last() != '\n',
        !has_blank_line(join(items, "\n"@)),
    decreases items.len(),
{
    reveal_strlit("\n");
    let last = items.last();
    assert(last == items[items.len() - 1]);
    assert forall|i: int| 0 <= i < last.len() implies #[trigger] last[i] != '\n' by {
        assert(last.contains(last[i]));
    }
    let whole = join(items, "\n"@);
    if items.len() == 1 {
        assert(whole == last);
    } else {
        let before = items.drop_last();
        assert forall|i: int| 0 <= i < before.len() implies is_line(#[trigger] before[i])
            && before[i].len() > 0 by {
            assert(before[i] == items[i]);
        }
        full_lines_leave_no_gap(before);
        let head = join(before, "\n"@);
        assert(whole =~= head + "\n"@ + last);
        assert(whole.last() == last.last());
        if has_blank_line(whole) {
            let i = choose|i: int| twice_at(whole, '\n', i);
            if i + 1 < head.len() {
                assert(twice_at(head, '\n', i));
            } else if i + 1 == head.len() {
                assert(head.last() == whole[i]);
            } else {
                assert(whole[i + 1] == last[i - head.len()]);
            }
        }
    }
}

/// A break is made of two line feeds.
proof fn break_holds_line_feeds(s: Seq<u8>, i: int)
    requires
        match_at(s, lf_break(), i),
    ensures
        twice_at(s, 10u8, i),
{
    let here = s.subrange(i, i + 2);
    assert(here[0] == 10 && here[1] == 10);
    assert(here[0] == s[i] && here[1] == s[i + 1]);
}

/// A match with none before it is the one that is found.
proof fn first_match_is_found<T>(s: Seq<T>, needle: Seq<T>, at: int)
    requires
        match_at(s, needle, at),
        forall|i: int| 0 <= i < at ==> !#[trigger] match_at(s, needle, i),
    ensures
        find(s, needle) == Some(at),
{
    find_is_first_match(s, needle);
}

/// The break stands behind the frame.
proof fn break_stands_behind(frame: Seq<u8>, rest: Seq<u8>)
    ensures
        match_at(frame + lf_break() + rest, lf_break(), frame.len() as int),
{
    let stream = frame + lf_break() + rest;
    let at = frame.len() as int;
    assert(stream.subrange(at, at + 2) =~= lf_break());
}

/// Bytes without a break that do not end in a line feed hold no break, even
/// together with the one behind them.
proof fn no_break_before(frame: Seq<u8>, rest: Seq<u8>, i: int)
    requires
        forall|k: int| !#[trigger] twice_at(frame, 10u8, k),
        frame.len() > 0,
        frame.last() != 10,
        0 <= i < frame.len(),
    ensures
        !match_at(frame + lf_break() + rest, lf_break(), i),
{
    let stream = frame + lf_break() + rest;
    if match_at(stream, lf_break(), i) {
        break_holds_line_feeds(stream, i);
        assert(stream[i] == frame[i]);
        if i + 1 < frame.len() {
            assert(stream[i + 1] == frame[i + 1]);
            assert(twice_at(frame, 10u8, i));
        }
    }
}

/// The break behind some bytes is the first one, if they hold none and do not end
/// in a line feed.
proof fn break_behind_is_first(frame: Seq<u8>, rest: Seq<u8>)
    requires
        forall|i: int| !#[trigger] twice_at(frame, 10u8, i),
        frame.len() > 0,
        frame.last() != 10,
    ensures
        find(frame + lf_break() + rest, lf_break()) == Some(frame.len() as int),
{
    break_stands_behind(frame, rest);
    assert forall|i: int| 0 <= i < frame.len() implies !#[trigger] match_at(
        frame + lf_break() + rest,
        lf_break(),
        i,
    ) by {
        no_break_before(frame, rest, i);
    }
    first_match_is_found(frame + lf_break() + rest, lf_break(), frame.len() as int);
}

/// A text without a gap ends at the blank line behind it.
proof fn blank_line_ends_a_frame(text: Text, rest: Seq<u8>)
    requires
        text.len() > 0,
        text.last() != '\n',
        !has_blank_line(text),
    ensures
        ({
            let frame = encode_utf8(text);
            let stream = frame + lf_break() + rest;
            &&& boundary(stream) == Some((frame.len() as int, 2int))
            &&& stream.take(frame.len() as int) == frame
            &&& after_frame(stream) == rest
        }),
{
    let frame = encode_utf8(text);
    let stream = frame + lf_break() + rest;
    let at = frame.len() as int;
    line_feeds_are_line_breaks(text);
    break_behind_is_first(frame, rest);
    assert(stream.take(at) =~= frame);
    assert(stream.skip(at + 2) =~= rest);
}

/// What a frame carries is read back: lines, none of them empty, that are put
/// one below the other with a blank line behind them are cut out as one frame,
/// its data is that of the lines, and the stream goes on behind it.
pub proof fn frames_are_read_back(items: Seq<Text>, rest: Seq<u8>)
    requires
        items.len() > 0,
        forall|i: int|
            0 <= i < items.len() ==> is_line(#[trigger] items[i]) && items[i].len() > 0,
    ensures
        ({
            let frame = encode_utf8(join(items, "\n"@));
            let stream = frame + lf_break() + rest;
            &&& boundary(stream) == Some((frame.len() as int, 2int))
            &&& stream.take(frame.len() as int) == frame
            &&& after_frame(stream) == rest
            &&& valid_utf8(frame)
            &&& frame_data(decode_utf8(frame)) == join(data_lines(items), "\n"@)
        }),
{
    let text = join(items, "\n"@);
    full_lines_leave_no_gap(items);
    blank_line_ends_a_frame(text, rest);
    encode_utf8_valid_utf8(text);
    encode_utf8_decode_utf8(text);
    assert(items.last() == items[items.len() - 1]);
    joined_lines_are_read_back(items);
}

/// A text that a frame can carry on one line: it says something, and neither
/// begins with white space nor holds a line break.
pub open spec fn is_payload(text: Text) -> bool {
    text.len() > 0 && !is_space(text[0]) && is_line(text)
}

/// The bytes of a frame that carries a text.
pub open spec fn carrying(text: Text) -> Seq<u8> {
    encode_utf8("data: "@ + text) + lf_break()
}

proof fn data_of_a_line(text: Text)
    requires
        is_payload(text),
    ensures
        data_lines(seq!["data: "@ + text]) == seq![text],
        is_line("data: "@ + text),
{
    reveal_strlit("data: ");
    reveal_strlit("data:");
    reveal_with_fuel(data_lines, 2);
    reveal_with_fuel(trim_start, 3);
    let line = "data: "@ + text;
    assert(line.take(5) =~= "data:"@);
    assert(starts_with(line, "data:"@));
    assert(line.skip(5) =~= seq![' '] + text);
    assert(line.skip(5).drop_first() =~= text);
    assert(trim_start(line.skip(5)) == text);
    assert(seq![line].drop_last() =~= seq![]);
    assert(data_lines(seq![line]) =~= seq![text]);
    assert forall|i: int| 0 <= i < line.len() implies (#[trigger] line[i] != '\n') by {
        if i >= 6 {
            assert(line[i] == text[i - 6]);
        }
    }
    assert(line.last() == text.last());
}

/// A payload that is sent in a frame is what is read, and reading goes on behind
/// the frame. A frame of other lines only, such as comments, is an error.
pub proof fn payloads_are_read_back(text: Text, rest: Seq<u8>)
    requires
        is_payload(text),
    ensures
        next_payload(carrying(text) + rest) == Ok::<Option<Text>, Text>(Some(text)),
        after_frame(carrying(text) + rest) == rest,
        boundary(carrying(text) + rest) is Some,
{
    let line = "data: "@ + text;
    data_of_a_line(text);
    let items = seq![line];
    assert(join(items, "\n"@) == line);
    frames_are_read_back(items, rest);
    assert(join(seq![text], "\n"@) == text);
}

/// Payloads that are sent one after the other are all read, in their order, and
/// nothing else is.
pub proof fn all_payloads_are_read_back(texts: Seq<Text>)
    requires
        forall|i: int| 0 <= i < texts.len() ==> is_payload(#[trigger] texts[i]),
    ensures
        all_payloads(sent(texts)) == Ok::<Seq<Text>, Text>(texts),
    decreases texts.len(),
{
    if texts.len() == 0 {
        find_is_first_match(sent(texts), lf_break());
        find_is_first_match(sent(texts), crlf_break());
        assert(texts =~= seq![]);
    } else {
        let rest = texts.drop_first();
        assert forall|i: int| 0 <= i < rest.len() implies is_payload(#[trigger] rest[i]) by {
            assert(rest[i] == texts[i + 1]);
        }
        all_payloads_are_read_back(rest);
        payloads_are_read_back(texts[0], sent(rest));
        boundary_is_inside(sent(texts));
        assert(seq![texts[0]] + rest =~= texts);
    }
}

/// The bytes of some payloads, one frame behind the other.
pub open spec fn sent(texts: Seq<Text>) -> Seq<u8>
    decreases texts.len(),
{
    if texts.len() == 0 {
        seq![]
    } else {
        carrying(texts[0]) + sent(texts.drop_first())
    }
}

/// The data of a frame is that of its lines, each for itself and in order. Only
/// lines behind `data:` carry data, and no more than white space in front of it
/// is taken away.
pub proof fn data_is_read_line_by_line(first: Seq<Text>, second: Seq<Text>, line: Text)
    ensures
        data_lines(first + second) == data_lines(first) + data_lines(second),
        !("data:"@.is_prefix_of(line)) ==> data_lines(seq![line]).len() == 0,
        data_lines(seq!["data:"@ + line]) == seq![trim_start(line)],
    decreases second.len(),
{
    reveal_with_fuel(data_lines, 2);
    assert(seq![line].drop_last() =~= seq![]);
    assert(data_lines(seq![line].drop_last()) =~= seq![]);
    let whole = "data:"@ + line;
    assert(seq![whole].drop_last() =~= seq![]);
    assert(whole.take("data:"@.len() as int) =~= "data:"@);
    assert(whole.skip("data:"@.len() as int) =~= line);
    assert(data_lines(seq![whole]) =~= seq![trim_start(line)]);
    if second.len() == 0 {
        assert(first + second =~= first);
        assert(data_lines(first) + data_lines(second) =~= data_lines(first));
    } else {
        data_is_read_line_by_line(first, second.drop_last(), line);
        assert((first + second).drop_last() =~= first + second.drop_last());
        assert((first + second).last() == second.last());
        assert(data_lines(first + second) =~= data_lines(first) + data_lines(second));
    }
}

/// A stream with `\r\n` line ends is cut at its blank lines too: the first frame ends before the
/// break, and the stream goes on behind it.
pub proof fn crlf_frames_are_cut_out(frame: Seq<u8>, rest: Seq<u8>)
    requires
        find(frame + crlf_break() + rest, lf_break()) is None,
        find(frame + crlf_break().drop_last(), crlf_break()) is None,
    ensures
        boundary(frame + crlf_break() + rest) == Some((frame.len() as int, 4int)),
        (frame + crlf_break() + rest).take(frame.len() as int) == frame,
        after_frame(frame + crlf_break() + rest) == rest,
{
    let whole = frame + crlf_break() + rest;
    let size = frame.len() as int;
    needles_are_found(frame, crlf_break(), rest);
    assert(whole.take(size) =~= frame);
    assert(whole.skip(size + 4) =~= rest);
}

} // verus!
