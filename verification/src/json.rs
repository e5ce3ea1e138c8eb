//! Compact JSON text, and the decoded JSON values that listings carry.

use crate::text::{
    concat3, hex, is_line, join, join_from_the_front, join_text, opt_view, same, views, Text,
};
use vstd::prelude::*;

verus! {

/// A character as it stands in a JSON string literal.
pub open spec fn json_escaped(c: char) -> Text {
    if c == '"' || c == '\\' {
        seq!['\\', c]
    } else if c == '\u{8}' {
        seq!['\\', 'b']
    } else if c == '\t' {
        seq!['\\', 't']
    } else if c == '\n' {
        seq!['\\', 'n']
    } else if c == '\u{c}' {
        seq!['\\', 'f']
    } else if c == '\r' {
        seq!['\\', 'r']
    } else if (c as u32) < 0x20 {
        seq!['\\', 'u', '0', '0'] + hex(seq![c as u8])
    } else {
        seq![c]
    }
}

/// A piece of text as it stands in a JSON string literal.
pub open spec fn json_contents(s: Text) -> Text
    decreases s.len(),
{
    if s.len() == 0 {
        seq![]
    } else {
        json_contents(s.drop_last()) + json_escaped(s.last())
    }
}

/// The JSON string literal of a piece of text.
pub open spec fn json_quoted(s: Text) -> Text {
    seq!['"'] + json_contents(s) + seq!['"']
}

/// `s` as a JSON string literal, as `serde_json::to_string` writes it for a
/// `&str`: between double quotes, with a backslash before quotes and backslashes,
/// the short escapes for backspace, tab, line feed, form feed and carriage
/// return, `\u00` and two lowercase hexadecimal digits for the other control
/// characters below the space, and every other character as it is.
#[verifier::external_body]
pub(crate) fn json_string(s: &str) -> (r: String)
    ensures
        r@ == json_quoted(s@),
{
    serde_json::to_string(s).expect("a string always has a JSON form")
}

/// The JSON text of a list of JSON texts.
pub open spec fn json_list(items: Seq<Text>) -> Text {
    "["@ + join(items, ","@) + "]"@
}

/// The JSON text of one member of an object.
pub open spec fn json_member(key: Text, value: Text) -> Text {
    json_quoted(key) + ":"@ + value
}

/// The JSON text of an object with these members, each a JSON text.
pub open spec fn json_object(members: Seq<Text>) -> Text {
    "{"@ + join(members, ","@) + "}"@
}

pub fn list_json(items: &Vec<String>) -> (r: String)
    ensures
        r@ == json_list(views(items@)),
{
    concat3("[", &join_text(items, ","), "]")
}

pub fn member_json(key: &str, value: &str) -> (r: String)
    ensures
        r@ == json_member(key@, value@),
{
    concat3(&json_string(key), ":", value)
}

pub fn object_json(members: &Vec<String>) -> (r: String)
    ensures
        r@ == json_object(views(members@)),
{
    concat3("{", &join_text(members, ","), "}")
}

/// The member `key` whose value is the string `value`.
pub open spec fn json_text_member(key: Text, value: Text) -> Text {
    json_member(key, json_quoted(value))
}

pub fn text_member(key: &str, value: &str) -> (r: String)
    ensures
        r@ == json_text_member(key@, value@),
{
    member_json(key, &json_string(value))
}

/// A list of owned texts, for building JSON member by member.
pub fn one(a: String) -> (r: Vec<String>)
    ensures
        views(r@) == seq![a@],
{
    let mut out: Vec<String> = Vec::new();
    out.push(a);
    assert(views(out@) =~= seq![a@]);
    out
}

pub fn two(a: String, b: String) -> (r: Vec<String>)
    ensures
        views(r@) == seq![a@, b@],
{
    let mut out = one(a);
    let ghost before = views(out@);
    out.push(b);
    assert(views(out@) =~= before.push(b@));
    assert(views(out@) =~= seq![a@, b@]);
    out
}

pub fn three(a: String, b: String, c: String) -> (r: Vec<String>)
    ensures
        views(r@) == seq![a@, b@, c@],
{
    let mut out = two(a, b);
    let ghost before = views(out@);
    out.push(c);
    assert(views(out@) =~= before.push(c@));
    assert(views(out@) =~= seq![a@, b@, c@]);
    out
}

pub fn four(a: String, b: String, c: String, d: String) -> (r: Vec<String>)
    ensures
        views(r@) == seq![a@, b@, c@, d@],
{
    let mut out = three(a, b, c);
    let ghost before = views(out@);
    out.push(d);
    assert(views(out@) =~= before.push(d@));
    assert(views(out@) =~= seq![a@, b@, c@, d@]);
    out
}

/// A decoded JSON value. Numbers are kept as they are written; the members of
/// an object have distinct names.
#[derive(Debug, Eq, PartialEq)]
pub enum Json {
    Null,
    Bool(bool),
    Number(String),
    Text(String),
    List(Vec<Json>),
    Object(Vec<(String, Json)>),
}

/// The value of the member `key`, if there is one.
pub open spec fn json_get(members: Seq<(String, Json)>, key: Text) -> Option<Json>
    decreases members.len(),
{
    if members.len() == 0 {
        None
    } else if members[0].0@ == key {
        Some(members[0].1)
    } else {
        json_get(members.drop_first(), key)
    }
}

/// The value of the member `key`, if there is one.
pub fn get_member<'a>(members: &'a Vec<(String, Json)>, key: &str) -> (r: Option<&'a Json>)
    ensures
        r is Some <==> json_get(members@, key@) is Some,
        r matches Some(value) ==> json_get(members@, key@) == Some(*value),
{
    let mut i: usize = 0;
    assert(members@.skip(0) =~= members@);
    while i < members.len()
        invariant
            i <= members@.len(),
            json_get(members@, key@) == json_get(members@.skip(i as int), key@),
        decreases members@.len() - i,
    {
        assert(members@.skip(i as int).drop_first() =~= members@.skip(i as int + 1));
        if same(&members[i].0, key) {
            return Some(&members[i].1);
        }
        i += 1;
    }
    None
}

/// The members of the JSON object that a text holds, in the order of their
/// keys, each with its text if it is a string. `None` if the text holds no
/// JSON object.
pub uninterp spec fn json_members(s: Text) -> Option<Seq<(Text, Option<Text>)>>;

/// The contents of one member.
pub open spec fn member_view(member: (String, Option<String>)) -> (Text, Option<Text>) {
    (member.0@, opt_view(member.1))
}

/// Reads a text with `serde_json::from_str` into a `serde_json::Value` and hands
/// out the members of an object, the strings among them as text. The contract
/// says only that the result depends on the text alone; how JSON is written is
/// left to the outside function.
#[verifier::external_body]
pub(crate) fn object_members(s: &str) -> (r: Option<Vec<(String, Option<String>)>>)
    ensures
        match r {
            Some(members) => json_members(s@) == Some(
                members@.map_values(|member: (String, Option<String>)| member_view(member)),
            ),
            None => json_members(s@) is None,
        },
{
    match serde_json::from_str::<serde_json::Value>(s) {
        Ok(serde_json::Value::Object(members)) => Some(
            members.into_iter().map(
                |(key, value)| (key, value.as_str().map(str::to_owned)),
            ).collect(),
        ),
        _ => None,
    }
}

proof fn contents_have_no_controls(s: Text)
    ensures
        forall|i: int| 0 <= i < json_contents(s).len() ==> (#[trigger] json_contents(s)[i]) as u32
            >= 0x20,
    decreases s.len(),
{
    if s.len() > 0 {
        contents_have_no_controls(s.drop_last());
        let c = s.last();
        let end = json_escaped(c);
        assert forall|i: int| 0 <= i < end.len() implies (#[trigger] end[i]) as u32 >= 0x20 by {
            if (c as u32) < 0x20 && end.len() == 6 && i >= 4 {
                assert(end[i] == hex(seq![c as u8])[i - 4]);
            }
        }
        let all = json_contents(s);
        let before = json_contents(s.drop_last());
        assert forall|i: int| 0 <= i < all.len() implies (#[trigger] all[i]) as u32 >= 0x20 by {
            if i < before.len() {
                assert(all[i] == before[i]);
            } else {
                assert(all[i] == end[i - before.len()]);
            }
        }
    }
}

/// A literal holds no control character, and so no line break: whatever a text
/// holds, its literal stays on one line.
pub proof fn literals_stay_on_one_line(s: Text)
    ensures
        forall|i: int| 0 <= i < json_quoted(s).len() ==> (#[trigger] json_quoted(s)[i]) as u32
            >= 0x20,
        is_line(json_quoted(s)),
{
    contents_have_no_controls(s);
}

/// The value of a lowercase hexadecimal digit.
pub open spec fn digit_value(c: char) -> int {
    if '0' <= c <= '9' {
        c as int - '0' as int
    } else {
        c as int - 'a' as int + 10
    }
}

/// Reads a string literal behind its opening quote: what it says, and what
/// stands behind its closing quote.
pub open spec fn read_literal(t: Text) -> Option<(Text, Text)>
    decreases t.len(),
{
    if t.len() == 0 {
        None
    } else if t[0] == '"' {
        Some((seq![], t.drop_first()))
    } else if t[0] != '\\' {
        match read_literal(t.drop_first()) {
            Some((said, rest)) => Some((seq![t[0]] + said, rest)),
            None => None,
        }
    } else if t.len() < 2 {
        None
    } else if t[1] == 'u' {
        if t.len() < 6 {
            None
        } else {
            let c = (4096 * digit_value(t[2]) + 256 * digit_value(t[3]) + 16 * digit_value(t[4])
                + digit_value(t[5])) as char;
            match read_literal(t.skip(6)) {
                Some((said, rest)) => Some((seq![c] + said, rest)),
                None => None,
            }
        }
    } else {
        let c = if t[1] == 'b' {
            '\u{8}'
        } else if t[1] == 't' {
            '\t'
        } else if t[1] == 'n' {
            '\n'
        } else if t[1] == 'f' {
            '\u{c}'
        } else if t[1] == 'r' {
            '\r'
        } else {
            t[1]
        };
        match read_literal(t.skip(2)) {
            Some((said, rest)) => Some((seq![c] + said, rest)),
            None => None,
        }
    }
}

proof fn contents_from_the_front(s: Text)
    requires
        s.len() > 0,
    ensures
        json_contents(s) == json_escaped(s[0]) + json_contents(s.drop_first()),
    decreases s.len(),
{
    if s.len() == 1 {
        assert(s.drop_last() =~= seq![]);
        assert(s.drop_first() =~= seq![]);
        assert(json_contents(s) =~= json_escaped(s[0]) + json_contents(s.drop_first()));
    } else {
        contents_from_the_front(s.drop_last());
        assert(s.drop_last().drop_first() =~= s.drop_first().drop_last());
        assert(json_contents(s) =~= json_escaped(s[0]) + json_contents(s.drop_first()));
    }
}

proof fn escapes_are_read(c: char, t: Text)
    requires
        read_literal(t) is Some,
    ensures
        read_literal(json_escaped(c) + t) == Some(
            (seq![c] + (read_literal(t)->0).0, (read_literal(t)->0).1),
        ),
{
    let all = json_escaped(c) + t;
    assert(all.skip(json_escaped(c).len() as int) =~= t);
    if json_escaped(c).len() == 1 {
        assert(all.drop_first() =~= t);
    } else if json_escaped(c).len() == 6 {
        let pair = hex(seq![c as u8]);
        let b = c as u8;
        assert(pair.len() == 2);
        assert(seq![c as u8][0] == b);
        assert(b / 16 < 16 && b % 16 < 16);
        assert(all[4] == pair[0] && all[5] == pair[1]);
        assert(digit_value(all[2]) == 0 && digit_value(all[3]) == 0);
        assert(digit_value(all[4]) == b / 16);
        assert(digit_value(all[5]) == b % 16);
        assert(16 * (b / 16) + b % 16 == b);
    }
}

/// A literal is read back as the text it was written for, whatever stands
/// behind it.
pub proof fn literals_are_read_back(s: Text, rest: Text)
    ensures
        json_quoted(s).len() > 0,
        json_quoted(s)[0] == '"',
        read_literal((json_quoted(s) + rest).drop_first()) == Some((s, rest)),
    decreases s.len(),
{
    let tail = (json_quoted(s) + rest).drop_first();
    if s.len() == 0 {
        assert(tail =~= seq!['"'] + rest);
        assert(tail.drop_first() =~= rest);
        assert(s =~= seq![]);
    } else {
        let front = s.drop_first();
        literals_are_read_back(front, rest);
        contents_from_the_front(s);
        let after = (json_quoted(front) + rest).drop_first();
        assert(tail =~= json_escaped(s[0]) + after);
        escapes_are_read(s[0], after);
        assert(seq![s[0]] + front =~= s);
    }
}

/// Two literals that begin the same text are literals of the same text, and the
/// same stands behind them.
pub proof fn literals_are_told_apart(a: Text, b: Text, x: Text, y: Text)
    requires
        json_quoted(a) + x == json_quoted(b) + y,
    ensures
        a == b,
        x == y,
{
    literals_are_read_back(a, x);
    literals_are_read_back(b, y);
}

/// How objects and lists are written: their parts one behind the other, with a
/// comma between two of them, inside braces or brackets.
pub proof fn lists_are_written_in_order(items: Seq<Text>, item: Text)
    ensures
        json_list(seq![]) == "[]"@,
        json_list(seq![item]) == "["@ + item + "]"@,
        items.len() > 0 ==> json_list(items.push(item)) == json_list(items).drop_last() + ","@ + item
            + "]"@,
        json_object(seq![item]) == "{"@ + item + "}"@,
        items.len() > 0 ==> json_object(items.push(item)) == json_object(items).drop_last() + ","@
            + item + "}"@,
{
    reveal_strlit("[");
    reveal_strlit("]");
    reveal_strlit("[]");
    reveal_strlit("{");
    reveal_strlit("}");
    assert(json_list(seq![]) =~= "[]"@);
    assert(items.push(item).drop_last() =~= items);
    assert(json_list(items).drop_last() =~= "["@ + join(items, ","@));
    assert(json_object(items).drop_last() =~= "{"@ + join(items, ","@));
    if items.len() > 0 {
        assert(json_list(items.push(item)) =~= json_list(items).drop_last() + ","@ + item + "]"@);
        assert(json_object(items.push(item)) =~= json_object(items).drop_last() + ","@ + item
            + "}"@);
    }
}

/// Two lists whose items can be told apart are told apart, whatever stands
/// behind them.
pub proof fn lists_are_told_apart<T>(
    a: Seq<T>,
    b: Seq<T>,
    write: spec_fn(T) -> Text,
    alike: spec_fn(T, T) -> bool,
    x: Text,
    y: Text,
)
    requires
        forall|p: T, q: T, u: Text, v: Text|
            #![trigger write(p) + u, write(q) + v]
            write(p) + u == write(q) + v ==> alike(p, q) && u == v,
        forall|p: T| (#[trigger] write(p)).len() > 0 && write(p)[0] == '{',
        join(a.map_values(write), ","@) + "]"@ + x == join(b.map_values(write), ","@) + "]"@ + y,
    ensures
        a.len() == b.len(),
        forall|i: int| 0 <= i < a.len() ==> alike(#[trigger] a[i], b[i]),
        x == y,
    decreases a.len(),
{
    reveal_strlit("]");
    reveal_strlit(",");
    let left = join(a.map_values(write), ","@) + "]"@ + x;
    let right = join(b.map_values(write), ","@) + "]"@ + y;
    if a.len() == 0 || b.len() == 0 {
        if a.len() > 0 {
            first_item_first(a, write);
            assert(left[0] == '{');
            assert(right[0] == ']');
        } else if b.len() > 0 {
            first_item_first(b, write);
            assert(right[0] == '{');
            assert(left[0] == ']');
        } else {
            assert(left.drop_first() =~= x);
            assert(right.drop_first() =~= y);
        }
    } else {
        let u = list_rest(a, write, x);
        let v = list_rest(b, write, y);
        split_first(a, write, x);
        split_first(b, write, y);
        assert(write(a[0]) + u == write(b[0]) + v);
        if a.len() == 1 || b.len() == 1 {
            if a.len() > 1 {
                assert(u[0] == ',' && v[0] == ']');
            }
            if b.len() > 1 {
                assert(v[0] == ',' && u[0] == ']');
            }
            assert(u.drop_first() =~= x);
            assert(v.drop_first() =~= y);
        } else {
            assert(u.drop_first() =~= join(a.drop_first().map_values(write), ","@) + "]"@ + x);
            assert(v.drop_first() =~= join(b.drop_first().map_values(write), ","@) + "]"@ + y);
            lists_are_told_apart(a.drop_first(), b.drop_first(), write, alike, x, y);
            assert forall|i: int| 0 <= i < a.len() implies alike(#[trigger] a[i], b[i]) by {
                if i > 0 {
                    assert(alike(a.drop_first()[i - 1], b.drop_first()[i - 1]));
                }
            }
        }
    }
}

spec fn list_rest<T>(a: Seq<T>, write: spec_fn(T) -> Text, x: Text) -> Text {
    if a.len() == 1 {
        "]"@ + x
    } else {
        ","@ + join(a.drop_first().map_values(write), ","@) + "]"@ + x
    }
}

proof fn split_first<T>(a: Seq<T>, write: spec_fn(T) -> Text, x: Text)
    requires
        a.len() > 0,
    ensures
        join(a.map_values(write), ","@) + "]"@ + x == write(a[0]) + list_rest(a, write, x),
{
    let items = a.map_values(write);
    if a.len() > 1 {
        join_from_the_front(items, ","@);
        assert(items.drop_first() =~= a.drop_first().map_values(write));
    }
    assert(join(items, ","@) + "]"@ + x =~= write(a[0]) + list_rest(a, write, x));
}

proof fn first_item_first<T>(a: Seq<T>, write: spec_fn(T) -> Text)
    requires
        a.len() > 0,
        write(a[0]).len() > 0,
    ensures
        join(a.map_values(write), ","@).len() > 0,
        join(a.map_values(write), ","@)[0] == write(a[0])[0],
{
    let items = a.map_values(write);
    if a.len() > 1 {
        join_from_the_front(items, ","@);
    }
}

/// A member of an object with what stands behind it: its key, a colon, its value.
pub open spec fn member_then(key: Text, value: Text, rest: Text) -> Text {
    json_quoted(key) + (":"@ + (value + rest))
}

/// Three texts one behind the other, however they are grouped.
pub proof fn regroup(a: Text, b: Text, c: Text)
    ensures
        (a + b) + c == a + (b + c),
{
    assert((a + b) + c =~= a + (b + c));
}

/// How a member is written, whatever stands behind it.
pub proof fn members_are_written_out(key: Text, value: Text, rest: Text)
    ensures
        json_member(key, value) + rest == member_then(key, value, rest),
{
    regroup(json_quoted(key) + ":"@, value, rest);
    regroup(json_quoted(key), ":"@, value + rest);
}

proof fn items_then(items: Seq<Text>, rest: Text)
    requires
        items.len() > 0,
    ensures
        join(items, ","@) + rest == items[0] + (if items.len() == 1 {
            rest
        } else {
            ","@ + (join(items.drop_first(), ","@) + rest)
        }),
{
    if items.len() > 1 {
        join_from_the_front(items, ","@);
        let tail = join(items.drop_first(), ","@);
        regroup(items[0] + ","@, tail, rest);
        regroup(items[0], ","@, tail + rest);
    }
}

proof fn object_opens(members: Seq<Text>, rest: Text)
    ensures
        json_object(members) + rest == "{"@ + (join(members, ","@) + ("}"@ + rest)),
{
    regroup("{"@ + join(members, ","@), "}"@, rest);
    regroup("{"@, join(members, ","@), "}"@ + rest);
}

/// How a list is written, whatever stands behind it.
pub proof fn lists_are_written_out(items: Seq<Text>, rest: Text)
    ensures
        json_list(items) + rest == "["@ + (join(items, ","@) + ("]"@ + rest)),
{
    regroup("["@ + join(items, ","@), "]"@, rest);
    regroup("["@, join(items, ","@), "]"@ + rest);
}

/// How an object with one member is written, whatever stands behind it.
pub proof fn one_member(a: Text, rest: Text)
    ensures
        json_object(seq![a]) + rest == "{"@ + (a + ("}"@ + rest)),
{
    object_opens(seq![a], rest);
    items_then(seq![a], "}"@ + rest);
}

/// How an object with two members is written, whatever stands behind it.
pub proof fn two_members(a: Text, b: Text, rest: Text)
    ensures
        json_object(seq![a, b]) + rest == "{"@ + (a + (","@ + (b + ("}"@ + rest)))),
{
    let end = "}"@ + rest;
    object_opens(seq![a, b], rest);
    items_then(seq![a, b], end);
    assert(seq![a, b].drop_first() =~= seq![b]);
    items_then(seq![b], end);
}

/// How an object with three members is written, whatever stands behind it.
pub proof fn three_members(a: Text, b: Text, c: Text, rest: Text)
    ensures
        json_object(seq![a, b, c]) + rest == "{"@ + (a + (","@ + (b + (","@ + (c + ("}"@
            + rest)))))),
{
    let end = "}"@ + rest;
    object_opens(seq![a, b, c], rest);
    items_then(seq![a, b, c], end);
    assert(seq![a, b, c].drop_first() =~= seq![b, c]);
    items_then(seq![b, c], end);
    assert(seq![b, c].drop_first() =~= seq![c]);
    items_then(seq![c], end);
}

/// How an object with four members is written, whatever stands behind it.
pub proof fn four_members(a: Text, b: Text, c: Text, d: Text, rest: Text)
    ensures
        json_object(seq![a, b, c, d]) + rest == "{"@ + (a + (","@ + (b + (","@ + (c + (","@ + (d + (
        "}"@ + rest)))))))),
{
    let end = "}"@ + rest;
    object_opens(seq![a, b, c, d], rest);
    items_then(seq![a, b, c, d], end);
    assert(seq![a, b, c, d].drop_first() =~= seq![b, c, d]);
    items_then(seq![b, c, d], end);
    assert(seq![b, c, d].drop_first() =~= seq![c, d]);
    items_then(seq![c, d], end);
    assert(seq![c, d].drop_first() =~= seq![d]);
    items_then(seq![d], end);
}

/// How the first three of seven or more members are written, and what follows.
pub proof fn first_three_members(members: Seq<Text>, rest: Text)
    requires
        members.len() > 3,
    ensures
        json_object(members) + rest == "{"@ + (members[0] + (","@ + (members[1] + (","@ + (
        members[2] + (","@ + (join(members.skip(3), ","@) + ("}"@ + rest)))))))),
{
    let end = "}"@ + rest;
    object_opens(members, rest);
    items_then(members, end);
    assert(members.drop_first() =~= members.skip(1));
    items_then(members.skip(1), end);
    assert(members.skip(1).drop_first() =~= members.skip(2));
    items_then(members.skip(2), end);
    assert(members.skip(2).drop_first() =~= members.skip(3));
}

/// How four items are joined, whatever stands behind them.
pub proof fn four_items(a: Text, b: Text, c: Text, d: Text, rest: Text)
    ensures
        join(seq![a, b, c, d], ","@) + rest == a + (","@ + (b + (","@ + (c + (","@ + (d
            + rest)))))),
{
    items_then(seq![a, b, c, d], rest);
    assert(seq![a, b, c, d].drop_first() =~= seq![b, c, d]);
    items_then(seq![b, c, d], rest);
    assert(seq![b, c, d].drop_first() =~= seq![c, d]);
    items_then(seq![c, d], rest);
    assert(seq![c, d].drop_first() =~= seq![d]);
    items_then(seq![d], rest);
}

/// What stands behind a common beginning is the same in two equal texts.
pub proof fn same_behind(head: Text, x: Text, y: Text)
    requires
        head + x == head + y,
    ensures
        x == y,
{
    assert((head + x).skip(head.len() as int) =~= x);
    assert((head + y).skip(head.len() as int) =~= y);
}

/// Two members with the same key that begin the same text: their values are
/// followed by the same.
pub proof fn values_stand_behind_keys(key: Text, v: Text, w: Text, x: Text, y: Text)
    requires
        member_then(key, v, x) == member_then(key, w, y),
    ensures
        v + x == w + y,
{
    same_behind(json_quoted(key), ":"@ + (v + x), ":"@ + (w + y));
    same_behind(":"@, v + x, w + y);
}

/// Two members with the same key and string values that begin the same text hold
/// the same text, and the same stands behind them.
pub proof fn text_members_are_told_apart(key: Text, a: Text, b: Text, x: Text, y: Text)
    requires
        member_then(key, json_quoted(a), x) == member_then(key, json_quoted(b), y),
    ensures
        a == b,
        x == y,
{
    values_stand_behind_keys(key, json_quoted(a), json_quoted(b), x, y);
    literals_are_told_apart(a, b, x, y);
}

} // verus!
