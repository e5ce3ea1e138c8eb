//! Character-level helpers shared by every module, stated over `Seq<char>`.

use vstd::prelude::*;
use vstd::utf8::{decode_utf8, valid_utf8};

verus! {

/// The mathematical content of a piece of text.
pub type Text = Seq<char>;

/// Appends one character to a string (`std::string::String::push`).
pub assume_specification[ String::push ](s: &mut String, c: char)
    ensures
        final(s)@ == old(s)@.push(c),
;

/// Appends a string slice to a string (`std::string::String::push_str`).
pub assume_specification[ String::push_str ](s: &mut String, other: &str)
    ensures
        final(s)@ == old(s)@ + other@,
;

/// The views of the items of a sequence.
pub open spec fn views<T: View>(s: Seq<T>) -> Seq<T::V> {
    s.map_values(|t: T| t@)
}

/// The view of an optional value.
pub open spec fn opt_view<T: View>(o: Option<T>) -> Option<T::V> {
    match o {
        Some(t) => Some(t@),
        None => None,
    }
}

/// The views of the items of an optional list.
pub open spec fn opt_list<T: View>(o: Option<Vec<T>>) -> Option<Seq<T::V>> {
    match o {
        Some(list) => Some(views(list@)),
        None => None,
    }
}

/// The content of an optional list of texts.
pub open spec fn opt_texts(o: Option<Vec<String>>) -> Option<Seq<Text>> {
    match o {
        Some(list) => Some(views(list@)),
        None => None,
    }
}

/// The characters of `s`, in order.
pub fn to_chars(s: &str) -> (r: Vec<char>)
    ensures
        r@ == s@,
{
    let mut out: Vec<char> = Vec::new();
    for c in it: s.chars()
        invariant
            out@ =~= it.seq().take(it.index() as int),
            it.seq() == s@,
    {
        out.push(c);
    }
    out
}

/// The text made of the characters `chars[from..to]`.
pub fn from_range(chars: &[char], from: usize, to: usize) -> (r: String)
    requires
        from <= to <= chars@.len(),
    ensures
        r@ == chars@.subrange(from as int, to as int),
{
    let mut out = String::new();
    let mut i: usize = from;
    while i < to
        invariant
            from <= i <= to <= chars@.len(),
            out@ =~= chars@.subrange(from as int, i as int),
        decreases to - i,
    {
        out.push(chars[i]);
        i += 1;
    }
    out
}

/// The text made of all of `chars`.
pub fn from_chars(chars: &[char]) -> (r: String)
    ensures
        r@ == chars@,
{
    let r = from_range(chars, 0, chars.len());
    assert(chars@.subrange(0, chars@.len() as int) =~= chars@);
    r
}

/// Whether two character slices hold the same characters.
fn same_chars(a: &[char], b: &[char]) -> (r: bool)
    ensures
        r == (a@ == b@),
{
    if a.len() != b.len() {
        return false;
    }
    let mut i: usize = 0;
    while i < a.len()
        invariant
            i <= a@.len(),
            a@.len() == b@.len(),
            forall|k: int| 0 <= k < i ==> a@[k] == b@[k],
        decreases a@.len() - i,
    {
        if a[i] != b[i] {
            return false;
        }
        i += 1;
    }
    assert(a@ =~= b@);
    true
}

/// Whether two pieces of text are equal.
pub fn same(a: &str, b: &str) -> (r: bool)
    ensures
        r == (a@ == b@),
{
    let x = to_chars(a);
    let y = to_chars(b);
    same_chars(&x, &y)
}

/// The ASCII lowercase of one character.
pub open spec fn ascii_lower_char(c: char) -> char {
    if 'A' <= c <= 'Z' {
        (c as u8 + 32) as char
    } else {
        c
    }
}

/// The text with its ASCII letters in lowercase.
pub open spec fn ascii_lower(s: Text) -> Text {
    s.map_values(|c: char| ascii_lower_char(c))
}

pub fn lower_char(c: char) -> (r: char)
    ensures
        r == ascii_lower_char(c),
{
    if 'A' <= c && c <= 'Z' {
        (c as u8 + 32) as char
    } else {
        c
    }
}

/// `s` with its ASCII letters in lowercase.
pub fn ascii_lower_text(s: &str) -> (r: String)
    ensures
        r@ == ascii_lower(s@),
{
    let mut out = String::new();
    for c in it: s.chars()
        invariant
            out@ =~= ascii_lower(it.seq().take(it.index() as int)),
            it.seq() == s@,
    {
        out.push(lower_char(c));
    }
    assert(s@.take(s@.len() as int) =~= s@);
    out
}

/// The decimal digit of `d`, for `d < 10`.
pub open spec fn digit(d: nat) -> char {
    ('0' as u8 + d) as char
}

/// The decimal digits of `n`, without leading zeros.
pub open spec fn decimal(n: nat) -> Text
    decreases n,
{
    if n < 10 {
        seq![digit(n)]
    } else {
        decimal(n / 10).push(digit(n % 10))
    }
}

/// `n` written in decimal.
pub fn decimal_text(n: u64) -> (r: String)
    ensures
        r@ == decimal(n as nat),
    decreases n,
{
    if n < 10 {
        let mut out = String::new();
        out.push((48u8 + n as u8) as char);
        assert(out@ =~= decimal(n as nat));
        out
    } else {
        let mut out = decimal_text(n / 10);
        out.push((48u8 + (n % 10) as u8) as char);
        out
    }
}

/// The concatenation of two pieces of text.
pub fn concat(a: &str, b: &str) -> (r: String)
    ensures
        r@ == a@ + b@,
{
    let mut out = a.to_owned();
    out.push_str(b);
    out
}

/// The concatenation of three pieces of text.
pub fn concat3(a: &str, b: &str, c: &str) -> (r: String)
    ensures
        r@ == a@ + b@ + c@,
{
    let mut out = concat(a, b);
    out.push_str(c);
    out
}

/// What `{:?}` prints for a piece of text.
pub uninterp spec fn debug_form(s: Text) -> Text;

/// `s` as the standard `Debug` of `str` prints it: between double quotes, with
/// quotes, backslashes and unprintable characters escaped. The contract says
/// only that the result depends on `s` alone.
#[verifier::external_body]
pub(crate) fn debug_text(s: &str) -> (r: String)
    ensures
        r@ == debug_form(s@),
{
    format!("{s:?}")
}

/// The characters with the Unicode `White_Space` property.
pub open spec fn is_space(c: char) -> bool {
    let n = c as u32;
    ||| 0x09 <= n <= 0x0d
    ||| n == 0x20
    ||| n == 0x85
    ||| n == 0xa0
    ||| n == 0x1680
    ||| 0x2000 <= n <= 0x200a
    ||| n == 0x2028
    ||| n == 0x2029
    ||| n == 0x202f
    ||| n == 0x205f
    ||| n == 0x3000
}

pub fn is_space_char(c: char) -> (r: bool)
    ensures
        r == is_space(c),
{
    let n: u32 = c as u32;
    (0x09 <= n && n <= 0x0d) || n == 0x20 || n == 0x85 || n == 0xa0 || n == 0x1680 || (0x2000 <= n
        && n <= 0x200a) || n == 0x2028 || n == 0x2029 || n == 0x202f || n == 0x205f || n == 0x3000
}

/// `s` without its leading white space.
pub open spec fn trim_start(s: Text) -> Text
    decreases s.len(),
{
    if s.len() > 0 && is_space(s[0]) {
        trim_start(s.drop_first())
    } else {
        s
    }
}

/// `s` without its trailing white space.
pub open spec fn trim_end(s: Text) -> Text
    decreases s.len(),
{
    if s.len() > 0 && is_space(s.last()) {
        trim_end(s.drop_last())
    } else {
        s
    }
}

/// `s` without white space at either end.
pub open spec fn trim(s: Text) -> Text {
    trim_end(trim_start(s))
}

/// The first position at or after `from` that holds no white space.
fn space_end(chars: &[char], from: usize) -> (r: usize)
    requires
        from <= chars@.len(),
    ensures
        from <= r <= chars@.len(),
        trim_start(chars@.skip(from as int)) == chars@.skip(r as int),
{
    let mut i: usize = from;
    while i < chars.len() && is_space_char(chars[i])
        invariant
            from <= i <= chars@.len(),
            trim_start(chars@.skip(from as int)) == trim_start(chars@.skip(i as int)),
        decreases chars@.len() - i,
    {
        assert(chars@.skip(i as int).drop_first() =~= chars@.skip(i as int + 1));
        i += 1;
    }
    i
}

/// The end of `chars[from..]` without its trailing white space.
fn space_start(chars: &[char], from: usize) -> (r: usize)
    requires
        from <= chars@.len(),
    ensures
        from <= r <= chars@.len(),
        trim_end(chars@.skip(from as int)) == chars@.subrange(from as int, r as int),
{
    let mut i: usize = chars.len();
    assert(chars@.skip(from as int) =~= chars@.subrange(from as int, i as int));
    while i > from && is_space_char(chars[i - 1])
        invariant
            from <= i <= chars@.len(),
            trim_end(chars@.skip(from as int)) == trim_end(chars@.subrange(from as int, i as int)),
        decreases i,
    {
        assert(chars@.subrange(from as int, i as int).drop_last() =~= chars@.subrange(
            from as int,
            i - 1,
        ));
        i -= 1;
    }
    i
}

/// `s` without leading white space.
pub fn trim_start_text(s: &str) -> (r: String)
    ensures
        r@ == trim_start(s@),
{
    let chars = to_chars(s);
    let from = space_end(&chars, 0);
    assert(chars@.skip(0) =~= chars@);
    assert(chars@.skip(from as int) =~= chars@.subrange(from as int, chars@.len() as int));
    from_range(&chars, from, chars.len())
}

/// `s` without white space at either end.
pub fn trim_text(s: &str) -> (r: String)
    ensures
        r@ == trim(s@),
{
    let chars = to_chars(s);
    let from = space_end(&chars, 0);
    assert(chars@.skip(0) =~= chars@);
    let to = space_start(&chars, from);
    from_range(&chars, from, to)
}

/// Whether `s` holds nothing but white space.
pub fn is_blank(s: &str) -> (r: bool)
    ensures
        r == (trim(s@).len() == 0),
{
    trim_text(s).as_str().is_empty()
}

/// Whether `s` begins with `prefix`.
pub open spec fn starts_with<T>(s: Seq<T>, prefix: Seq<T>) -> bool {
    prefix.is_prefix_of(s)
}

fn prefix_at(chars: &[char], from: usize, prefix: &[char]) -> (r: bool)
    requires
        from <= chars@.len(),
    ensures
        r == starts_with(chars@.skip(from as int), prefix@),
{
    let size: usize = chars.len();
    if size - from < prefix.len() {
        return false;
    }
    let mut i: usize = 0;
    while i < prefix.len()
        invariant
            size == chars@.len(),
            from + prefix@.len() <= size,
            i <= prefix@.len(),
            forall|k: int| 0 <= k < i ==> chars@[from + k] == prefix@[k],
        decreases prefix@.len() - i,
    {
        if chars[from + i] != prefix[i] {
            assert(chars@.skip(from as int)[i as int] != prefix@[i as int]);
            return false;
        }
        i += 1;
    }
    assert(prefix@ =~= chars@.skip(from as int).take(prefix@.len() as int));
    true
}

pub fn has_prefix(s: &str, prefix: &str) -> (r: bool)
    ensures
        r == starts_with(s@, prefix@),
{
    let chars = to_chars(s);
    assert(chars@.skip(0) =~= chars@);
    prefix_at(&chars, 0, &to_chars(prefix))
}

/// What follows `prefix` in `s`, if `s` begins with it.
pub fn strip_prefix_text(s: &str, prefix: &str) -> (r: Option<String>)
    ensures
        r is Some <==> starts_with(s@, prefix@),
        r matches Some(rest) ==> rest@ == s@.skip(prefix@.len() as int),
{
    let chars = to_chars(s);
    let head = to_chars(prefix);
    assert(chars@.skip(0) =~= chars@);
    if prefix_at(&chars, 0, &head) {
        assert(chars@.subrange(head@.len() as int, chars@.len() as int) =~= chars@.skip(
            head@.len() as int,
        ));
        Some(from_range(&chars, head.len(), chars.len()))
    } else {
        None
    }
}

/// The first position of `c` in `s`, or the length of `s`.
pub open spec fn index_of(s: Text, c: char) -> int
    decreases s.len(),
{
    if s.len() == 0 || s[0] == c {
        0
    } else {
        1 + index_of(s.drop_first(), c)
    }
}

pub proof fn index_of_bounds(s: Text, c: char)
    ensures
        0 <= index_of(s, c) <= s.len(),
        index_of(s, c) < s.len() ==> s[index_of(s, c)] == c,
        forall|k: int| 0 <= k < index_of(s, c) ==> #[trigger] s[k] != c,
        index_of(s, c) < s.len() <==> s.contains(c),
    decreases s.len(),
{
    if s.len() > 0 && s[0] != c {
        let rest = s.drop_first();
        index_of_bounds(rest, c);
        assert forall|k: int| 0 <= k < index_of(s, c) implies #[trigger] s[k] != c by {
            if k > 0 {
                assert(s[k] == rest[k - 1]);
            }
        }
        if s.contains(c) {
            let k = choose|k: int| 0 <= k < s.len() && s[k] == c;
            assert(rest[k - 1] == c);
        }
    }
}

/// The first position at or after `from` that holds `c`, or the end.
pub fn find_char(chars: &[char], from: usize, c: char) -> (r: usize)
    requires
        from <= chars@.len(),
    ensures
        from <= r <= chars@.len(),
        r - from == index_of(chars@.skip(from as int), c),
{
    let mut i: usize = from;
    while i < chars.len() && chars[i] != c
        invariant
            from <= i <= chars@.len(),
            i - from + index_of(chars@.skip(i as int), c) == index_of(chars@.skip(from as int), c),
        decreases chars@.len() - i,
    {
        assert(chars@.skip(i as int).drop_first() =~= chars@.skip(i as int + 1));
        i += 1;
    }
    i
}

/// `s` split at the first `c`, which belongs to neither part.
pub open spec fn split_once(s: Text, c: char) -> Option<(Text, Text)> {
    let at = index_of(s, c);
    if at < s.len() {
        Some((s.take(at), s.skip(at + 1)))
    } else {
        None
    }
}

pub fn split_once_text(s: &str, c: char) -> (r: Option<(String, String)>)
    ensures
        r is Some <==> split_once(s@, c) is Some,
        r matches Some((head, tail)) ==> split_once(s@, c) == Some((head@, tail@)),
{
    let chars = to_chars(s);
    let at = find_char(&chars, 0, c);
    assert(chars@.skip(0) =~= chars@);
    if at < chars.len() {
        assert(chars@.subrange(0, at as int) =~= chars@.take(at as int));
        assert(chars@.subrange(at as int + 1, chars@.len() as int) =~= chars@.skip(at as int + 1));
        Some((from_range(&chars, 0, at), from_range(&chars, at + 1, chars.len())))
    } else {
        None
    }
}

/// A line without the carriage return that may end it.
pub open spec fn strip_return(line: Text) -> Text {
    if line.len() > 0 && line.last() == '\r' {
        line.drop_last()
    } else {
        line
    }
}

/// The lines of `s`: ended by `\n` or `\r\n`, the last one possibly by the end
/// of the text. The text that ends in a line break has no empty line behind it.
pub open spec fn lines(s: Text) -> Seq<Text>
    decreases s.len(),
{
    let at = index_of(s, '\n');
    if s.len() == 0 {
        seq![]
    } else if 0 <= at < s.len() {
        seq![strip_return(s.take(at))] + lines(s.skip(at + 1))
    } else {
        seq![s]
    }
}

/// The lines of `s`, without their line breaks.
pub fn lines_text(s: &str) -> (r: Vec<String>)
    ensures
        views(r@) == lines(s@),
{
    let chars = to_chars(s);
    let mut out: Vec<String> = Vec::new();
    let mut from: usize = 0;
    assert(chars@.skip(0) =~= chars@);
    assert(views(out@) + lines(chars@) =~= lines(chars@));
    while from < chars.len()
        invariant
            from <= chars@.len(),
            views(out@) + lines(chars@.skip(from as int)) == lines(chars@),
        decreases chars@.len() - from,
    {
        let ghost rest = chars@.skip(from as int);
        let ghost before = out@;
        let at = find_char(&chars, from, '\n');
        proof {
            index_of_bounds(rest, '\n');
        }
        if at < chars.len() {
            let to = if at > from && chars[at - 1] == '\r' {
                at - 1
            } else {
                at
            };
            let line = from_range(&chars, from, to);
            assert(line@ =~= strip_return(rest.take(at - from)));
            assert(rest.skip(at - from + 1) =~= chars@.skip(at as int + 1));
            out.push(line);
            assert(views(out@) =~= views(before).push(line@));
            assert(views(out@) + lines(chars@.skip(at as int + 1)) =~= views(before) + lines(rest));
            from = at + 1;
        } else {
            let line = from_range(&chars, from, chars.len());
            assert(line@ =~= rest);
            out.push(line);
            assert(views(out@) =~= views(before).push(line@));
            assert(chars@.skip(chars@.len() as int) =~= seq![]);
            assert(views(out@) + lines(seq![]) =~= views(before) + lines(rest));
            from = chars.len();
        }
    }
    assert(chars@.skip(from as int) =~= seq![]);
    assert(views(out@) =~= views(out@) + lines(seq![]));
    out
}

/// The items one behind the other, with `sep` between two neighbours.
pub open spec fn join(items: Seq<Text>, sep: Text) -> Text
    decreases items.len(),
{
    if items.len() == 0 {
        seq![]
    } else if items.len() == 1 {
        items[0]
    } else {
        join(items.drop_last(), sep) + sep + items.last()
    }
}

/// The items one behind the other, with `sep` between two neighbours.
pub fn join_text(items: &Vec<String>, sep: &str) -> (r: String)
    ensures
        r@ == join(views(items@), sep@),
{
    let mut out = String::new();
    let mut i: usize = 0;
    let ghost all = views(items@);
    assert(all.take(0) =~= seq![]);
    assert(out@ =~= join(all.take(0), sep@));
    while i < items.len()
        invariant
            i <= items@.len(),
            all == views(items@),
            out@ == join(all.take(i as int), sep@),
        decreases items@.len() - i,
    {
        assert(all.take(i as int + 1).drop_last() =~= all.take(i as int));
        if i > 0 {
            out.push_str(sep);
        }
        out.push_str(&items[i]);
        assert(out@ =~= join(all.take(i as int + 1), sep@));
        i += 1;
    }
    assert(all.take(items@.len() as int) =~= all);
    out
}

/// Whether `needle` stands in `s` at position `i`.
pub open spec fn match_at<T>(s: Seq<T>, needle: Seq<T>, i: int) -> bool {
    0 <= i && i + needle.len() <= s.len() && s.subrange(i, i + needle.len()) == needle
}

/// The first position of `needle` in `s`, if it stands there at all.
pub open spec fn find<T>(s: Seq<T>, needle: Seq<T>) -> Option<int>
    decreases s.len(),
{
    if starts_with(s, needle) {
        Some(0)
    } else if s.len() == 0 {
        None
    } else {
        match find(s.drop_first(), needle) {
            Some(i) => Some(i + 1),
            None => None,
        }
    }
}

/// Whether `needle` stands in `s` at position `at` and nowhere else.
pub open spec fn only_match<T>(s: Seq<T>, needle: Seq<T>, at: int) -> bool {
    match_at(s, needle, at) && forall|i: int| #[trigger] match_at(s, needle, i) ==> i == at
}

/// At how many positions below `end` `needle` stands in `s`.
pub open spec fn count_below(s: Text, needle: Text, end: int) -> nat
    decreases end,
{
    if end <= 0 {
        0
    } else if match_at(s, needle, end - 1) {
        count_below(s, needle, end - 1) + 1
    } else {
        count_below(s, needle, end - 1)
    }
}

/// At how many positions `needle` stands in `s`. Occurrences may overlap.
pub open spec fn count_matches(s: Text, needle: Text) -> nat {
    count_below(s, needle, s.len() as int + 1)
}

/// `find` gives the least position at which `needle` stands.
pub proof fn find_is_first_match<T>(s: Seq<T>, needle: Seq<T>)
    ensures
        find(s, needle) matches Some(at) ==> match_at(s, needle, at) && forall|i: int|
            #[trigger] match_at(s, needle, i) ==> at <= i,
        find(s, needle) is None ==> forall|i: int| !#[trigger] match_at(s, needle, i),
    decreases s.len(),
{
    if starts_with(s, needle) {
        assert(s.subrange(0, needle.len() as int) =~= s.take(needle.len() as int));
    } else if s.len() == 0 {
        assert forall|i: int| !#[trigger] match_at(s, needle, i) by {
            if match_at(s, needle, i) {
                assert(s.subrange(0, needle.len() as int) =~= s.take(needle.len() as int));
            }
        }
    } else {
        let rest = s.drop_first();
        find_is_first_match(rest, needle);
        assert forall|i: int| #[trigger] match_at(s, needle, i) implies match_at(rest, needle, i - 1)
            && i > 0 by {
            if i == 0 {
                assert(s.subrange(0, needle.len() as int) =~= s.take(needle.len() as int));
            } else {
                assert(rest.subrange(i - 1, i - 1 + needle.len()) =~= s.subrange(
                    i,
                    i + needle.len(),
                ));
            }
        }
        if let Some(at) = find(rest, needle) {
            assert(s.subrange(at + 1, at + 1 + needle.len()) =~= rest.subrange(
                at,
                at + needle.len(),
            ));
        }
    }
}

proof fn prefix_is_match<T>(s: Seq<T>, needle: Seq<T>, i: int)
    requires
        0 <= i <= s.len(),
    ensures
        starts_with(s.skip(i), needle) == match_at(s, needle, i),
{
    if i + needle.len() <= s.len() {
        assert(s.skip(i).take(needle.len() as int) =~= s.subrange(i, i + needle.len()));
    }
}

/// The positions below `end` where `needle` stands: with none the count is
/// zero, with one it is one, and with two different ones it is more.
proof fn count_below_facts(s: Text, needle: Text, end: int)
    ensures
        forall|i: int|
            i < end && #[trigger] match_at(s, needle, i) ==> count_below(s, needle, end) > 0,
        forall|i: int, j: int|
            i < j < end && #[trigger] match_at(s, needle, i) && #[trigger] match_at(s, needle, j)
                ==> count_below(s, needle, end) > 1,
        (forall|i: int| i < end ==> !#[trigger] match_at(s, needle, i)) ==> count_below(
            s,
            needle,
            end,
        ) == 0,
    decreases end,
{
    if end > 0 {
        count_below_facts(s, needle, end - 1);
    }
}

proof fn one_match_counts_one(s: Text, needle: Text, at: int, end: int)
    requires
        only_match(s, needle, at),
    ensures
        count_below(s, needle, end) == if at < end {
            1nat
        } else {
            0nat
        },
    decreases end,
{
    if end > 0 {
        one_match_counts_one(s, needle, at, end - 1);
    }
}

/// How `find` and the number of positions belong together.
pub proof fn count_from_first_match(s: Text, needle: Text)
    ensures
        find(s, needle) is None <==> count_matches(s, needle) == 0,
        find(s, needle) matches Some(at) ==> (only_match(s, needle, at) <==> count_matches(
            s,
            needle,
        ) == 1),
{
    find_is_first_match(s, needle);
    count_below_facts(s, needle, s.len() as int + 1);
    if let Some(at) = find(s, needle) {
        if only_match(s, needle, at) {
            one_match_counts_one(s, needle, at, s.len() as int + 1);
        } else {
            let other = choose|i: int| #[trigger] match_at(s, needle, i) && i != at;
            assert(match_at(s, needle, at) && match_at(s, needle, other));
        }
    }
}

/// The first position of `needle` at or after `from`.
fn find_from(chars: &[char], from: usize, needle: &[char]) -> (r: Option<usize>)
    requires
        from <= chars@.len(),
    ensures
        r is Some <==> find(chars@.skip(from as int), needle@) is Some,
        r matches Some(at) ==> from <= at && at + needle@.len() <= chars@.len() && find(
            chars@.skip(from as int),
            needle@,
        ) == Some(at - from),
{
    let mut i: usize = from;
    let size: usize = chars.len();
    loop
        invariant
            size == chars@.len(),
            from <= i <= size,
            find(chars@.skip(from as int), needle@) is Some <==> find(
                chars@.skip(i as int),
                needle@,
            ) is Some,
            find(chars@.skip(i as int), needle@) matches Some(at) ==> find(
                chars@.skip(from as int),
                needle@,
            ) == Some(at + i - from),
        decreases size - i,
    {
        if prefix_at(chars, i, needle) {
            return Some(i);
        }
        if i == size {
            return None;
        }
        assert(chars@.skip(i as int).drop_first() =~= chars@.skip(i as int + 1));
        i += 1;
    }
}

/// Whether `needle` stands somewhere in `s`.
pub fn contains_text(s: &str, needle: &str) -> (r: bool)
    ensures
        r == (find(s@, needle@) is Some),
{
    let chars = to_chars(s);
    assert(chars@.skip(0) =~= chars@);
    find_from(&chars, 0, &to_chars(needle)).is_some()
}

/// At how many positions `needle` stands in `s`. Occurrences may overlap.
pub fn count_text(s: &str, needle: &str) -> (r: usize)
    requires
        needle@.len() > 0,
    ensures
        r == count_matches(s@, needle@),
{
    let chars = to_chars(s);
    let part = to_chars(needle);
    let size: usize = chars.len();
    let mut i: usize = 0;
    let mut count: usize = 0;
    while i < size
        invariant
            size == chars@.len(),
            part@ == needle@,
            chars@ == s@,
            count <= i <= size,
            count == count_below(s@, needle@, i as int),
        decreases size - i,
    {
        proof {
            prefix_is_match(chars@, part@, i as int);
        }
        if prefix_at(&chars, i, &part) {
            count += 1;
        }
        i += 1;
    }
    assert(!match_at(s@, needle@, size as int));
    count
}

/// `s` with the part of length `size` at `at` replaced.
pub open spec fn splice(s: Text, at: int, size: nat, new: Text) -> Text {
    s.take(at) + new + s.skip(at + size)
}

/// `s` with the first `needle` in it replaced, if there is one.
pub open spec fn replace_first(s: Text, needle: Text, new: Text) -> Text {
    match find(s, needle) {
        Some(at) => splice(s, at, needle.len(), new),
        None => s,
    }
}

pub fn replace_first_text(s: &str, needle: &str, new: &str) -> (r: String)
    ensures
        r@ == replace_first(s@, needle@, new@),
{
    let chars = to_chars(s);
    let part = to_chars(needle);
    assert(chars@.skip(0) =~= chars@);
    match find_from(&chars, 0, &part) {
        None => s.to_owned(),
        Some(at) => {
            let size: usize = chars.len();
            let mut out = from_range(&chars, 0, at);
            out.push_str(new);
            out.push_str(&from_range(&chars, at + part.len(), size));
            assert(out@ =~= splice(s@, at as int, needle@.len(), new@));
            out
        },
    }
}

/// The parts of `s` between the occurrences of `c`. There is always at least
/// one part.
pub open spec fn split(s: Text, c: char) -> Seq<Text>
    decreases s.len(),
{
    let at = index_of(s, c);
    if 0 <= at < s.len() {
        seq![s.take(at)] + split(s.skip(at + 1), c)
    } else {
        seq![s]
    }
}

/// The parts of `s` between the occurrences of `c`.
pub fn split_text(s: &str, c: char) -> (r: Vec<String>)
    ensures
        views(r@) == split(s@, c),
{
    let chars = to_chars(s);
    let size: usize = chars.len();
    let mut out: Vec<String> = Vec::new();
    let mut from: usize = 0;
    assert(chars@.skip(0) =~= chars@);
    assert(views(out@) + split(chars@, c) =~= split(chars@, c));
    loop
        invariant
            size == chars@.len(),
            chars@ == s@,
            from <= size,
            views(out@) + split(chars@.skip(from as int), c) == split(s@, c),
        decreases size - from,
    {
        let ghost rest = chars@.skip(from as int);
        let ghost before = out@;
        let at = find_char(&chars, from, c);
        proof {
            index_of_bounds(rest, c);
        }
        let part = from_range(&chars, from, at);
        out.push(part);
        assert(views(out@) =~= views(before).push(part@));
        if at < size {
            assert(part@ =~= rest.take(at - from));
            assert(rest.skip(at - from + 1) =~= chars@.skip(at as int + 1));
            assert(views(out@) + split(chars@.skip(at as int + 1), c) =~= views(before) + split(
                rest,
                c,
            ));
            from = at + 1;
        } else {
            assert(part@ =~= rest);
            assert(views(out@) =~= views(before) + split(rest, c));
            return out;
        }
    }
}

/// The hexadecimal digit of `d`, for `d < 16`, in lowercase.
pub open spec fn hex_digit(d: nat) -> char {
    if d < 10 {
        ('0' as u8 + d) as char
    } else {
        ('a' as u8 + d - 10) as char
    }
}

/// Two lowercase hexadecimal digits for each byte.
pub open spec fn hex(bytes: Seq<u8>) -> Text {
    Seq::new(
        2 * bytes.len(),
        |i: int|
            if i % 2 == 0 {
                hex_digit((bytes[i / 2] / 16) as nat)
            } else {
                hex_digit((bytes[i / 2] % 16) as nat)
            },
    )
}

fn hex_char(d: u8) -> (r: char)
    requires
        d < 16,
    ensures
        r == hex_digit(d as nat),
{
    if d < 10 {
        (48u8 + d) as char
    } else {
        (87u8 + d) as char
    }
}

/// `bytes[..count]` in lowercase hexadecimal.
pub fn hex_text(bytes: &[u8], count: usize) -> (r: String)
    requires
        count <= bytes@.len(),
    ensures
        r@ == hex(bytes@.take(count as int)),
{
    let mut out = String::new();
    let mut i: usize = 0;
    while i < count
        invariant
            i <= count <= bytes@.len(),
            out@ =~= hex(bytes@.take(i as int)),
        decreases count - i,
    {
        out.push(hex_char(bytes[i] / 16));
        out.push(hex_char(bytes[i] % 16));
        i += 1;
    }
    out
}

/// The standard library's account of why some bytes are not UTF-8.
pub uninterp spec fn utf8_fault(bytes: Seq<u8>) -> Text;

/// Decodes UTF-8 (`std::str::from_utf8`): succeeds exactly on well-formed
/// bytes, with the characters they encode. The text of the error depends on
/// the bytes alone; what it says is left open.
#[verifier::external_body]
pub(crate) fn decode_text(bytes: &[u8]) -> (r: Result<String, String>)
    ensures
        r is Ok <==> valid_utf8(bytes@),
        r matches Ok(text) ==> text@ == decode_utf8(bytes@),
        r matches Err(error) ==> error@ == utf8_fault(bytes@),
{
    match std::str::from_utf8(bytes) {
        Ok(text) => Ok(text.to_owned()),
        Err(error) => Err(error.to_string()),
    }
}

/// The Unicode lowercase of a piece of text.
pub uninterp spec fn lowercase(s: Text) -> Text;

/// `s` in lowercase (`str::to_lowercase`). The contract says only that the
/// result depends on `s` alone.
#[verifier::external_body]
pub(crate) fn lowercase_text(s: &str) -> (r: String)
    ensures
        r@ == lowercase(s@),
{
    s.to_lowercase()
}

/// The order of texts: by their first difference, a prefix before its
/// extensions. Characters are ordered by code point.
pub open spec fn precedes(a: Text, b: Text) -> bool
    decreases a.len(),
{
    if b.len() == 0 {
        false
    } else if a.len() == 0 {
        true
    } else if a[0] == b[0] {
        precedes(a.drop_first(), b.drop_first())
    } else {
        a[0] < b[0]
    }
}

/// The order of texts is total, irreflexive and transitive.
pub proof fn precedes_is_an_order(a: Text, b: Text, c: Text)
    ensures
        !precedes(a, a),
        precedes(a, b) || precedes(b, a) || a == b,
        precedes(a, b) ==> !precedes(b, a) && a != b,
        precedes(a, b) && precedes(b, c) ==> precedes(a, c),
    decreases a.len(),
{
    if a.len() > 0 {
        let at = a.drop_first();
        let bt = if b.len() > 0 {
            b.drop_first()
        } else {
            b
        };
        let ct = if c.len() > 0 {
            c.drop_first()
        } else {
            c
        };
        precedes_is_an_order(at, bt, ct);
        if b.len() > 0 && a[0] == b[0] && at == bt {
            assert(a =~= seq![a[0]] + at);
            assert(b =~= seq![b[0]] + bt);
        }
    } else if b.len() == 0 {
        assert(a =~= b);
    }
}

/// Whether `a` comes before `b`.
pub fn text_precedes(a: &str, b: &str) -> (r: bool)
    ensures
        r == precedes(a@, b@),
{
    let x = to_chars(a);
    let y = to_chars(b);
    let mut i: usize = 0;
    assert(x@.skip(0) =~= x@);
    assert(y@.skip(0) =~= y@);
    while i < x.len() && i < y.len() && x[i] == y[i]
        invariant
            i <= x@.len(),
            i <= y@.len(),
            precedes(x@.skip(i as int), y@.skip(i as int)) == precedes(a@, b@),
        decreases x@.len() - i,
    {
        assert(x@.skip(i as int).drop_first() =~= x@.skip(i as int + 1));
        assert(y@.skip(i as int).drop_first() =~= y@.skip(i as int + 1));
        i += 1;
    }
    if i >= y.len() {
        false
    } else if i >= x.len() {
        true
    } else {
        x[i] < y[i]
    }
}

/// `s` without the occurrences of `c` at its end.
pub open spec fn trim_end_char(s: Text, c: char) -> Text
    decreases s.len(),
{
    if s.len() > 0 && s.last() == c {
        trim_end_char(s.drop_last(), c)
    } else {
        s
    }
}

pub fn trim_end_char_text(s: &str, c: char) -> (r: String)
    ensures
        r@ == trim_end_char(s@, c),
{
    let chars = to_chars(s);
    let mut end: usize = chars.len();
    assert(chars@.take(end as int) =~= chars@);
    while end > 0 && chars[end - 1] == c
        invariant
            end <= chars@.len(),
            trim_end_char(chars@.take(end as int), c) == trim_end_char(s@, c),
        decreases end,
    {
        assert(chars@.take(end as int).drop_last() =~= chars@.take(end as int - 1));
        end -= 1;
    }
    assert(chars@.subrange(0, end as int) =~= chars@.take(end as int));
    from_range(&chars, 0, end)
}

/// The first position of white space in `s`, or the length of `s`.
pub open spec fn space_index(s: Text) -> int
    decreases s.len(),
{
    if s.len() == 0 || is_space(s[0]) {
        0
    } else {
        1 + space_index(s.drop_first())
    }
}

pub proof fn space_index_bounds(s: Text)
    ensures
        0 <= space_index(s) <= s.len(),
        s.len() > 0 && !is_space(s[0]) ==> space_index(s) > 0,
    decreases s.len(),
{
    if s.len() > 0 && !is_space(s[0]) {
        space_index_bounds(s.drop_first());
    }
}

pub proof fn trim_start_bounds(s: Text)
    ensures
        trim_start(s).len() <= s.len(),
        trim_start(s).len() > 0 ==> !is_space(trim_start(s)[0]),
    decreases s.len(),
{
    if s.len() > 0 && is_space(s[0]) {
        trim_start_bounds(s.drop_first());
    }
}

/// The words of `s`: its parts between white space.
pub open spec fn words(s: Text) -> Seq<Text>
    decreases s.len(),
{
    let rest = trim_start(s);
    let end = space_index(rest);
    if rest.len() == 0 || rest.len() > s.len() || end <= 0 || end > rest.len() {
        seq![]
    } else {
        seq![rest.take(end)] + words(rest.skip(end))
    }
}

/// The words of `s`.
pub fn words_text(s: &str) -> (r: Vec<String>)
    ensures
        views(r@) == words(s@),
{
    let chars = to_chars(s);
    let size: usize = chars.len();
    let mut out: Vec<String> = Vec::new();
    let mut from: usize = 0;
    assert(chars@.skip(0) =~= chars@);
    assert(views(out@) + words(chars@) =~= words(chars@));
    loop
        invariant
            size == chars@.len(),
            chars@ == s@,
            from <= size,
            views(out@) + words(chars@.skip(from as int)) == words(s@),
        decreases size - from,
    {
        let ghost here = chars@.skip(from as int);
        let ghost before = out@;
        let start = space_end(&chars, from);
        let ghost rest = chars@.skip(start as int);
        proof {
            trim_start_bounds(here);
            space_index_bounds(rest);
        }
        if start == size {
            assert(views(out@) + words(here) =~= views(out@));
            return out;
        }
        let mut end: usize = start;
        while end < size && !is_space_char(chars[end])
            invariant
                size == chars@.len(),
                start <= end <= size,
                rest == chars@.skip(start as int),
                end - start + space_index(chars@.skip(end as int)) == space_index(rest),
            decreases size - end,
        {
            assert(chars@.skip(end as int).drop_first() =~= chars@.skip(end as int + 1));
            end += 1;
        }
        let word = from_range(&chars, start, end);
        assert(word@ =~= rest.take(end - start));
        assert(rest.skip(end - start) =~= chars@.skip(end as int));
        out.push(word);
        assert(views(out@) =~= views(before).push(word@));
        assert(views(out@) + words(chars@.skip(end as int)) =~= views(before) + words(here));
        from = end;
    }
}

/// `s` split at the first `needle`, which belongs to neither part.
pub open spec fn cut(s: Text, needle: Text) -> Option<(Text, Text)> {
    match find(s, needle) {
        Some(at) => Some((s.take(at), s.skip(at + needle.len()))),
        None => None,
    }
}

/// Both parts of a cut and the needle make up the text.
pub proof fn cut_parts(s: Text, needle: Text)
    ensures
        cut(s, needle) matches Some((head, tail)) ==> head + needle + tail == s && head.len()
            + needle.len() + tail.len() == s.len(),
{
    find_is_first_match(s, needle);
    if let Some(at) = find(s, needle) {
        assert(match_at(s, needle, at));
        assert(s.take(at) + s.subrange(at, at + needle.len()) + s.skip(at + needle.len()) =~= s);
    }
}

pub fn cut_text(s: &str, needle: &str) -> (r: Option<(String, String)>)
    ensures
        r is Some <==> cut(s@, needle@) is Some,
        r matches Some((head, tail)) ==> cut(s@, needle@) == Some((head@, tail@)),
{
    let chars = to_chars(s);
    let part = to_chars(needle);
    assert(chars@.skip(0) =~= chars@);
    match find_from(&chars, 0, &part) {
        None => None,
        Some(at) => {
            let size: usize = chars.len();
            let head = from_range(&chars, 0, at);
            let tail = from_range(&chars, at + part.len(), size);
            assert(head@ =~= s@.take(at as int));
            assert(tail@ =~= s@.skip(at + needle@.len()));
            Some((head, tail))
        },
    }
}

/// Both parts of a split and the separator make up the text.
pub proof fn split_once_parts(s: Text, c: char)
    ensures
        split_once(s, c) matches Some((head, tail)) ==> head.push(c) + tail == s && !head.contains(
            c,
        ) && head.len() + 1 + tail.len() == s.len(),
        split_once(s, c) is None ==> !s.contains(c),
{
    index_of_bounds(s, c);
    if let Some((head, tail)) = split_once(s, c) {
        assert(head.push(c) + tail =~= s);
    }
}

pub fn trim_end_text(s: &str) -> (r: String)
    ensures
        r@ == trim_end(s@),
{
    let chars = to_chars(s);
    assert(chars@.skip(0) =~= chars@);
    let end = space_start(&chars, 0);
    from_range(&chars, 0, end)
}

/// Whether a text can stand as a line of its own: it holds no line break and
/// does not end in a carriage return.
pub open spec fn is_line(s: Text) -> bool {
    !s.contains('\n') && (s.len() > 0 ==> s.last() != '\r')
}

/// A line and what stands below it are told apart again.
pub proof fn first_line_is_read_back(line: Text, rest: Text)
    requires
        is_line(line),
    ensures
        lines(line + "\n"@ + rest) == seq![line] + lines(rest),
{
    reveal_strlit("\n");
    let s = line + "\n"@ + rest;
    index_of_bounds(s, '\n');
    let at = index_of(s, '\n');
    assert(s[line.len() as int] == '\n');
    if at < line.len() {
        assert(line[at] == s[at]);
        assert(line.contains(line[at]));
    }
    assert(at == line.len());
    assert(s.take(at) =~= line);
    assert(s.skip(at + 1) =~= rest);
}

/// The first of several joined items stands in front.
pub proof fn join_from_the_front(items: Seq<Text>, sep: Text)
    requires
        items.len() > 1,
    ensures
        join(items, sep) == items[0] + sep + join(items.drop_first(), sep),
    decreases items.len(),
{
    let rest = items.drop_first();
    if items.len() == 2 {
        assert(join(items.drop_last(), sep) == items[0]);
        assert(join(rest, sep) == items[1]);
    } else {
        join_from_the_front(items.drop_last(), sep);
        assert(items.drop_last().drop_first() =~= rest.drop_last());
        assert(join(items, sep) =~= items[0] + sep + join(rest, sep));
    }
}

/// Lines that are put one below the other, the last of them not empty, are read
/// back as they were.
pub proof fn joined_lines_are_read_back(items: Seq<Text>)
    requires
        items.len() > 0,
        forall|i: int| 0 <= i < items.len() ==> is_line(#[trigger] items[i]),
        items.last().len() > 0,
    ensures
        lines(join(items, "\n"@)) == items,
    decreases items.len(),
{
    if items.len() == 1 {
        index_of_bounds(items[0], '\n');
        assert(items =~= seq![items[0]]);
    } else {
        let rest = items.drop_first();
        join_from_the_front(items, "\n"@);
        assert forall|i: int| 0 <= i < rest.len() implies is_line(#[trigger] rest[i]) by {
            assert(rest[i] == items[i + 1]);
        }
        joined_lines_are_read_back(rest);
        first_line_is_read_back(items[0], join(rest, "\n"@));
        assert(items =~= seq![items[0]] + rest);
    }
}

/// Whether a text is white space only.
pub open spec fn all_space(s: Text) -> bool {
    forall|i: int| 0 <= i < s.len() ==> is_space(#[trigger] s[i])
}

/// Whether a text holds no white space.
pub open spec fn no_space(s: Text) -> bool {
    forall|i: int| 0 <= i < s.len() ==> !is_space(#[trigger] s[i])
}

/// Blanks, tabs and line breaks are white space; letters, digits and the signs
/// of ASCII are not.
pub proof fn white_space_of_ascii(c: char)
    requires
        c <= '\u{7f}',
    ensures
        is_space(c) <==> c == ' ' || c == '\t' || c == '\n' || c == '\r' || c == '\u{b}' || c
            == '\u{c}',
{
}

proof fn start_is_trimmed(s: Text)
    ensures
        trim_start(s).len() <= s.len(),
        s.skip(s.len() - trim_start(s).len()) == trim_start(s),
        all_space(s.take(s.len() - trim_start(s).len())),
        trim_start(s).len() > 0 ==> !is_space(trim_start(s)[0]),
    decreases s.len(),
{
    if s.len() > 0 && is_space(s[0]) {
        let rest = s.drop_first();
        start_is_trimmed(rest);
        let n = s.len() - trim_start(s).len();
        assert(s.skip(n) =~= rest.skip(n - 1));
        assert forall|i: int| 0 <= i < n implies is_space(#[trigger] s.take(n)[i]) by {
            if i > 0 {
                assert(s.take(n)[i] == rest.take(n - 1)[i - 1]);
            }
        }
    } else {
        assert(s.skip(0) =~= s);
    }
}

proof fn end_is_trimmed(s: Text)
    ensures
        trim_end(s).len() <= s.len(),
        s.take(trim_end(s).len() as int) == trim_end(s),
        all_space(s.skip(trim_end(s).len() as int)),
        trim_end(s).len() > 0 ==> !is_space(trim_end(s).last()),
    decreases s.len(),
{
    if s.len() > 0 && is_space(s.last()) {
        let rest = s.drop_last();
        end_is_trimmed(rest);
        let n = trim_end(s).len() as int;
        assert(s.take(n) =~= rest.take(n));
        assert forall|i: int| 0 <= i < s.len() - n implies is_space(#[trigger] s.skip(n)[i]) by {
            if i < rest.len() - n {
                assert(s.skip(n)[i] == rest.skip(n)[i]);
            } else {
                assert(s.skip(n)[i] == s.last());
            }
        }
    } else {
        assert(s.take(s.len() as int) =~= s);
    }
}

/// Trimming takes away white space at both ends, all of it, and nothing else.
pub proof fn trimming_takes_white_space_only(s: Text)
    ensures
        exists|before: Text, after: Text|
            #![trigger before + trim(s) + after]
            s == before + trim(s) + after && all_space(before) && all_space(after),
        trim(s).len() > 0 ==> !is_space(trim(s)[0]) && !is_space(trim(s).last()),
        trim(trim(s)) == trim(s),
{
    let rest = trim_start(s);
    start_is_trimmed(s);
    end_is_trimmed(rest);
    let before = s.take(s.len() - rest.len());
    let after = rest.skip(trim(s).len() as int);
    assert(before + trim(s) + after =~= s);
    if trim(s).len() > 0 {
        assert(trim(s)[0] == rest[0]);
    }
}

/// The number that decimal digits stand for.
pub open spec fn number_of(digits: Text) -> int
    decreases digits.len(),
{
    if digits.len() == 0 {
        0
    } else {
        10 * number_of(digits.drop_last()) + (digits.last() as int - '0' as int)
    }
}

/// A number in decimal stands for that number: it is made of digits, and does
/// not begin with a zero unless it is zero.
pub proof fn decimals_are_read_back(n: nat)
    ensures
        number_of(decimal(n)) == n,
        decimal(n).len() > 0,
        forall|i: int| 0 <= i < decimal(n).len() ==> '0' <= #[trigger] decimal(n)[i] <= '9',
        n > 0 ==> decimal(n)[0] != '0',
    decreases n,
{
    reveal_with_fuel(number_of, 2);
    if n < 10 {
        assert(decimal(n).drop_last() =~= seq![]);
    } else {
        decimals_are_read_back(n / 10);
        assert(decimal(n).drop_last() =~= decimal(n / 10));
        assert forall|i: int| 0 <= i < decimal(n).len() implies '0' <= #[trigger] decimal(n)[i]
            <= '9' by {
            if i < decimal(n / 10).len() {
                assert(decimal(n)[i] == decimal(n / 10)[i]);
            }
        }
        assert(decimal(n)[0] == decimal(n / 10)[0]);
    }
}

/// The value of a lowercase hexadecimal digit.
pub open spec fn hex_value(c: char) -> int {
    if '0' <= c <= '9' {
        c as int - '0' as int
    } else {
        c as int - 'a' as int + 10
    }
}

/// Every byte is read back from its two hexadecimal digits.
pub proof fn hex_is_read_back(bytes: Seq<u8>, i: int)
    requires
        0 <= i < bytes.len(),
    ensures
        hex(bytes).len() == 2 * bytes.len(),
        bytes[i] == 16 * hex_value(hex(bytes)[2 * i]) + hex_value(hex(bytes)[2 * i + 1]),
{
    let b = bytes[i];
    assert((2 * i) / 2 == i && (2 * i) % 2 == 0);
    assert((2 * i + 1) / 2 == i && (2 * i + 1) % 2 == 1);
    assert(b / 16 < 16 && b % 16 < 16);
    assert(16 * (b / 16) + b % 16 == b);
}

/// The parts of a text between a character make up the text again, and none of
/// them holds the character.
pub proof fn splits_are_joined_again(s: Text, c: char)
    ensures
        split(s, c).len() > 0,
        join(split(s, c), seq![c]) == s,
        forall|i: int| 0 <= i < split(s, c).len() ==> !(#[trigger] split(s, c)[i]).contains(c),
    decreases s.len(),
{
    index_of_bounds(s, c);
    let at = index_of(s, c);
    let parts = split(s, c);
    if 0 <= at < s.len() {
        let rest = split(s.skip(at + 1), c);
        splits_are_joined_again(s.skip(at + 1), c);
        join_from_the_front(parts, seq![c]);
        assert(parts.drop_first() =~= rest);
        assert(s.take(at) + seq![c] + s.skip(at + 1) =~= s);
        assert forall|i: int| 0 <= i < parts.len() implies !(#[trigger] parts[i]).contains(c) by {
            if i > 0 {
                assert(parts[i] == rest[i - 1]);
            }
        }
    } else {
        assert(join(parts, seq![c]) == s);
    }
}

/// Joining two rows of items gives the first row joined, the separator, and the
/// second row joined; one item alone is itself.
pub proof fn joins_add_up(a: Seq<Text>, b: Seq<Text>, sep: Text, item: Text)
    ensures
        join(seq![item], sep) == item,
        a.len() > 0 && b.len() > 0 ==> join(a + b, sep) == join(a, sep) + sep + join(b, sep),
    decreases b.len(),
{
    if a.len() > 0 && b.len() > 0 {
        assert((a + b).drop_last() =~= a + b.drop_last());
        assert((a + b).last() == b.last());
        if b.len() == 1 {
            assert(a + b.drop_last() =~= a);
        } else {
            joins_add_up(a, b.drop_last(), sep, item);
            assert(join(a + b, sep) =~= join(a, sep) + sep + join(b, sep));
        }
    }
}

proof fn word_ends_at_space(word: Text, rest: Text)
    requires
        no_space(word),
        rest.len() > 0 ==> is_space(rest[0]),
    ensures
        space_index(word + rest) == word.len(),
    decreases word.len(),
{
    let all = word + rest;
    if word.len() == 0 {
        assert(all =~= rest);
    } else {
        assert(!is_space(word[0]));
        assert(all.drop_first() =~= word.drop_first() + rest);
        assert(no_space(word.drop_first()));
        word_ends_at_space(word.drop_first(), rest);
    }
}

proof fn leading_space_is_skipped(space: Text, rest: Text)
    requires
        all_space(space),
    ensures
        trim_start(space + rest) == trim_start(rest),
    decreases space.len(),
{
    if space.len() == 0 {
        assert(space + rest =~= rest);
    } else {
        assert(is_space(space[0]));
        assert((space + rest).drop_first() =~= space.drop_first() + rest);
        assert(all_space(space.drop_first()));
        leading_space_is_skipped(space.drop_first(), rest);
    }
}

/// The words of a text are what stands between white space, in order, whatever
/// white space it is.
pub proof fn words_stand_between_space(space: Text, word: Text, rest: Text)
    requires
        all_space(space),
        no_space(word),
        word.len() > 0,
        rest.len() > 0 ==> is_space(rest[0]),
    ensures
        words(space + word + rest) == seq![word] + words(rest),
        words(space).len() == 0,
{
    let tail = word + rest;
    assert(space + word + rest =~= space + tail);
    leading_space_is_skipped(space, tail);
    assert(!is_space(tail[0])) by {
        assert(!is_space(word[0]));
    }
    word_ends_at_space(word, rest);
    assert(tail.take(word.len() as int) =~= word);
    assert(tail.skip(word.len() as int) =~= rest);
    let none = Seq::<char>::empty();
    leading_space_is_skipped(space, none);
    assert(space + none =~= space);
}

/// Only the capitals of ASCII change when a text is put in lowercase, each to its
/// small letter.
pub proof fn only_capitals_are_lowered(s: Text, i: int)
    requires
        0 <= i < s.len(),
    ensures
        ascii_lower(s).len() == s.len(),
        'A' <= s[i] <= 'Z' ==> ascii_lower(s)[i] as int == s[i] as int + 32,
        !('A' <= s[i] <= 'Z') ==> ascii_lower(s)[i] == s[i],
{
}

proof fn end_char_is_trimmed(s: Text, c: char)
    ensures
        trim_end_char(s, c).len() <= s.len(),
        s.take(trim_end_char(s, c).len() as int) == trim_end_char(s, c),
        forall|i: int| trim_end_char(s, c).len() <= i < s.len() ==> #[trigger] s[i] == c,
        trim_end_char(s, c).len() > 0 ==> trim_end_char(s, c).last() != c,
    decreases s.len(),
{
    if s.len() > 0 && s.last() == c {
        let rest = s.drop_last();
        end_char_is_trimmed(rest, c);
        let n = trim_end_char(s, c).len() as int;
        assert(s.take(n) =~= rest.take(n));
        assert forall|i: int| n <= i < s.len() implies #[trigger] s[i] == c by {
            if i < rest.len() {
                assert(rest[i] == s[i]);
            }
        }
    } else {
        assert(s.take(s.len() as int) =~= s);
    }
}

/// A character is taken away from the end of a text, as often as it stands there,
/// and nothing else is.
pub proof fn only_the_end_is_trimmed(s: Text, c: char)
    ensures
        trim_end_char(s, c).is_prefix_of(s),
        forall|i: int| trim_end_char(s, c).len() <= i < s.len() ==> #[trigger] s[i] == c,
        trim_end_char(s, c).len() > 0 ==> trim_end_char(s, c).last() != c,
{
    end_char_is_trimmed(s, c);
    assert(trim_end_char(s, c) =~= s.take(trim_end_char(s, c).len() as int));
}

/// What is looked for is found where it first stands: behind a text in which it does not begin.
pub proof fn needles_are_found<T>(head: Seq<T>, needle: Seq<T>, rest: Seq<T>)
    requires
        needle.len() > 0,
        find(head + needle.drop_last(), needle) is None,
    ensures
        find(head + needle + rest, needle) == Some(head.len() as int),
    decreases head.len(),
{
    let whole = head + needle + rest;
    let start = head + needle.drop_last();
    if head.len() == 0 {
        assert(whole =~= needle + rest);
        assert(starts_with(whole, needle));
    } else {
        let shorter = head.drop_first();
        assert(whole.drop_first() =~= shorter + needle + rest);
        assert(start.drop_first() =~= shorter + needle.drop_last());
        if starts_with(whole, needle) {
            assert(start.len() >= needle.len());
            assert(needle =~= start.take(needle.len() as int)) by {
                assert forall|i: int| 0 <= i < needle.len() implies #[trigger] needle[i]
                    == start[i] by {
                    assert(needle[i] == whole[i]);
                }
            }
            assert(starts_with(start, needle));
        }
        needles_are_found(shorter, needle, rest);
    }
}

} // verus!
