//! Effort levels implied by a model id when the provider did not enumerate
//! them: GPT-5.6 and later include `max`, GPT-5.2 to 5.5 include `xhigh` but
//! not `max`, and unknown ids are left to the caller.

use crate::protocol::ReasoningEffort;
use crate::text::{
    ascii_lower, ascii_lower_text, contains_text, decimal, decimals_are_read_back, find,
    has_prefix, index_of, index_of_bounds, number_of, same, split, split_text, starts_with,
    strip_prefix_text, to_chars, views, Text,
};
use vstd::prelude::*;

verus! {

pub const GPT5: [ReasoningEffort; 5] = [
    ReasoningEffort::Minimal,
    ReasoningEffort::Low,
    ReasoningEffort::Medium,
    ReasoningEffort::High,
    ReasoningEffort::XHigh,
];

pub const GPT51: [ReasoningEffort; 3] = [
    ReasoningEffort::Low,
    ReasoningEffort::Medium,
    ReasoningEffort::High,
];

pub const GPT52: [ReasoningEffort; 4] = [
    ReasoningEffort::Low,
    ReasoningEffort::Medium,
    ReasoningEffort::High,
    ReasoningEffort::XHigh,
];

/// GPT-5.6 Sol, Luna, Terra and later. A level of `none` is the picker's
/// default, so it is not listed.
pub const GPT56: [ReasoningEffort; 5] = [
    ReasoningEffort::Low,
    ReasoningEffort::Medium,
    ReasoningEffort::High,
    ReasoningEffort::XHigh,
    ReasoningEffort::Max,
];

pub const GROK45: [ReasoningEffort; 3] = [
    ReasoningEffort::Low,
    ReasoningEffort::Medium,
    ReasoningEffort::High,
];

/// The levels of a list, as an owned list.
pub fn levels(list: &[ReasoningEffort]) -> (r: Vec<ReasoningEffort>)
    ensures
        r@ == list@,
{
    let mut out: Vec<ReasoningEffort> = Vec::new();
    let mut i: usize = 0;
    while i < list.len()
        invariant
            i <= list@.len(),
            out@ =~= list@.take(i as int),
        decreases list@.len() - i,
    {
        out.push(list[i]);
        i += 1;
    }
    assert(list@.take(list@.len() as int) =~= list@);
    out
}

/// The part of a model id behind its last slash.
pub open spec fn leaf(model_id: Text) -> Text {
    split(model_id, '/').last()
}

fn model_leaf(model_id: &str) -> (r: String)
    ensures
        r@ == leaf(model_id@),
{
    let parts = split_text(model_id, '/');
    proof {
        split_is_not_empty(model_id@, '/');
    }
    let last: usize = parts.len() - 1;
    assert(views(parts@).last() == parts@[last as int]@);
    parts[last].clone()
}

/// Splitting gives at least one part.
pub proof fn split_is_not_empty(s: Text, c: char)
    ensures
        split(s, c).len() > 0,
{
}

/// Whether an id belongs to the GPT-5 family.
pub open spec fn gpt5_family(id: Text) -> bool {
    let id = ascii_lower(id);
    ||| id == "gpt-5"@
    ||| starts_with(id, "gpt-5-"@)
    ||| starts_with(id, "gpt-5."@)
    ||| starts_with(id, "gpt5-"@)
    ||| starts_with(id, "gpt5."@)
}

fn is_gpt5_family(id: &str) -> (r: bool)
    ensures
        r == gpt5_family(id@),
{
    let id = ascii_lower_text(id);
    same(&id, "gpt-5") || has_prefix(&id, "gpt-5-") || has_prefix(&id, "gpt-5.") || has_prefix(
        &id,
        "gpt5-",
    ) || has_prefix(&id, "gpt5.")
}

pub open spec fn is_digit(c: char) -> bool {
    '0' <= c <= '9'
}

/// The digits that `s` begins with.
pub open spec fn leading_digits(s: Text) -> Text
    decreases s.len(),
{
    if s.len() > 0 && is_digit(s[0]) {
        seq![s[0]] + leading_digits(s.drop_first())
    } else {
        seq![]
    }
}

/// The number that a row of decimal digits stands for.
pub open spec fn number(digits: Text) -> nat
    decreases digits.len(),
{
    if digits.len() == 0 {
        0
    } else {
        10 * number(digits.drop_last()) + (digits.last() as u32 - '0' as u32) as nat
    }
}

/// The minor version of a GPT-5 id: the number behind `gpt-5` or `gpt5` and a
/// dot or dash. A number that does not fit 32 bits counts as none.
pub open spec fn gpt5_minor(id: Text) -> Option<nat> {
    let id = ascii_lower(id);
    let rest = if starts_with(id, "gpt-5"@) {
        Some(id.skip("gpt-5"@.len() as int))
    } else if starts_with(id, "gpt5"@) {
        Some(id.skip("gpt5"@.len() as int))
    } else {
        None
    };
    match rest {
        Some(rest) => if rest.len() > 0 && (rest[0] == '.' || rest[0] == '-') {
            let digits = leading_digits(rest.drop_first());
            if digits.len() > 0 && number(digits) <= u32::MAX {
                Some(number(digits))
            } else {
                None
            }
        } else {
            None
        },
        None => None,
    }
}

/// The number at the start of `chars[from..]`, if there is one that fits.
fn leading_number(chars: &[char], from: usize) -> (r: Option<u32>)
    requires
        from <= chars@.len(),
    ensures
        r is Some <==> ({
            let digits = leading_digits(chars@.skip(from as int));
            digits.len() > 0 && number(digits) <= u32::MAX
        }),
        r matches Some(n) ==> n == number(leading_digits(chars@.skip(from as int))),
{
    let ghost rest = chars@.skip(from as int);
    let ghost mut seen: Text = seq![];
    let mut value: Option<u32> = Some(0);
    let mut i: usize = from;
    assert(seen + leading_digits(rest) =~= leading_digits(rest));
    while i < chars.len() && '0' <= chars[i] && chars[i] <= '9'
        invariant
            from <= i <= chars@.len(),
            rest == chars@.skip(from as int),
            seen.len() == i - from,
            seen + leading_digits(chars@.skip(i as int)) == leading_digits(rest),
            value matches Some(n) ==> n == number(seen),
            value is None ==> number(seen) > u32::MAX,
        decreases chars@.len() - i,
    {
        let c = chars[i];
        let d: u32 = c as u32 - 48;
        proof {
            let here = chars@.skip(i as int);
            assert(here.drop_first() =~= chars@.skip(i as int + 1));
            assert(seen.push(c).drop_last() =~= seen);
            assert(seen + (seq![c] + leading_digits(here.drop_first())) =~= seen.push(c)
                + leading_digits(here.drop_first()));
            seen = seen.push(c);
        }
        value = match value {
            None => None,
            Some(n) => match n.checked_mul(10) {
                None => None,
                Some(tens) => tens.checked_add(d),
            },
        };
        i += 1;
    }
    assert(seen + leading_digits(chars@.skip(i as int)) =~= seen);
    if i == from {
        None
    } else {
        value
    }
}

fn gpt5_version(id: &str) -> (r: Option<u32>)
    ensures
        r is Some <==> gpt5_minor(id@) is Some,
        r matches Some(version) ==> gpt5_minor(id@) == Some(version as nat),
{
    let id = ascii_lower_text(id);
    let rest = match strip_prefix_text(&id, "gpt-5") {
        Some(rest) => rest,
        None => match strip_prefix_text(&id, "gpt5") {
            Some(rest) => rest,
            None => {
                return None;
            },
        },
    };
    let chars = to_chars(&rest);
    if chars.len() == 0 || !(chars[0] == '.' || chars[0] == '-') {
        return None;
    }
    assert(chars@.skip(1) =~= chars@.drop_first());
    leading_number(&chars, 1)
}

/// The levels implied by a model id, if its family is known.
pub open spec fn inferred(model_id: Text) -> Option<Seq<ReasoningEffort>> {
    let id = leaf(model_id);
    match gpt5_minor(id) {
        Some(version) => Some(
            if version >= 6 {
                GPT56@
            } else if version >= 2 {
                GPT52@
            } else {
                GPT51@
            },
        ),
        None => if gpt5_family(id) {
            Some(GPT5@)
        } else if find(id, "grok-4.6"@) is Some || find(id, "grok-4-6"@) is Some {
            Some(GPT52@)
        } else if find(id, "grok-4.5"@) is Some || find(id, "grok-4-5"@) is Some {
            Some(GROK45@)
        } else {
            None
        },
    }
}

/// Effort levels implied by `model_id` when listing metadata did not say.
/// Returns `None` for ids with no known family so callers can fall back to
/// [`ReasoningEffort::COMMON`].
pub fn inferred_reasoning_efforts(model_id: &str) -> (r: Option<Vec<ReasoningEffort>>)
    ensures
        r is Some <==> inferred(model_id@) is Some,
        r matches Some(list) ==> inferred(model_id@) == Some(list@),
{
    let id = model_leaf(model_id);
    if let Some(version) = gpt5_version(&id) {
        return Some(
            if version >= 6 {
                levels(&GPT56)
            } else if version >= 2 {
                levels(&GPT52)
            } else {
                levels(&GPT51)
            },
        );
    }
    if is_gpt5_family(&id) {
        return Some(levels(&GPT5));
    }
    if contains_text(&id, "grok-4.6") || contains_text(&id, "grok-4-6") {
        return Some(levels(&GPT52));
    }
    if contains_text(&id, "grok-4.5") || contains_text(&id, "grok-4-5") {
        return Some(levels(&GROK45));
    }
    None
}

/// Inferred levels go from less to more effort and name none twice, and `max`
/// is among them only for GPT-5.6 and later.
pub proof fn inferred_levels_are_ordered(model_id: Text)
    ensures
        inferred(model_id) matches Some(list) ==> list.len() > 0 && (forall|i: int, j: int|
            0 <= i < j < list.len() ==> (#[trigger] list[i]).rank() < (
            #[trigger] list[j]).rank()) && (list.contains(ReasoningEffort::Max) <==> (gpt5_minor(
            leaf(model_id),
        ) matches Some(version) && version >= 6)),
{
    if let Some(list) = inferred(model_id) {
        if gpt5_minor(leaf(model_id)) matches Some(version) && version >= 6 {
            assert(list[list.len() - 1] == ReasoningEffort::Max);
        }
    }
}

proof fn leaves_stand_behind_slashes(parent: Text, name: Text)
    requires
        !name.contains('/'),
    ensures
        leaf(parent.push('/') + name) == name,
        leaf(name) == name,
    decreases parent.len(),
{
    let whole = parent.push('/') + name;
    index_of_bounds(name, '/');
    assert(split(name, '/') == seq![name]);
    index_of_bounds(whole, '/');
    let at = index_of(whole, '/');
    assert(whole[parent.len() as int] == '/');
    assert(at <= parent.len()) by {
        if at > parent.len() {
            assert(whole[parent.len() as int] != '/');
        }
    }
    let rest = whole.skip(at + 1);
    if at == parent.len() {
        assert(rest =~= name);
    } else {
        let shorter = parent.skip(at + 1);
        assert(rest =~= shorter.push('/') + name);
        leaves_stand_behind_slashes(shorter, name);
    }
    split_is_not_empty(rest, '/');
    assert(split(whole, '/') == seq![whole.take(at)] + split(rest, '/'));
    assert(split(whole, '/').last() == split(rest, '/').last());
}

/// The levels follow from the model's own name: what stands before the last slash of an id does
/// not matter.
pub proof fn vendors_do_not_matter(vendor: Text, name: Text)
    requires
        !name.contains('/'),
    ensures
        inferred(vendor.push('/') + name) == inferred(name),
{
    leaves_stand_behind_slashes(vendor, name);
}

proof fn digits_lead(digits: Text, rest: Text)
    requires
        forall|i: int| 0 <= i < digits.len() ==> is_digit(#[trigger] digits[i]),
        rest.len() > 0 ==> !is_digit(rest[0]),
    ensures
        leading_digits(digits + rest) == digits,
    decreases digits.len(),
{
    let all = digits + rest;
    if digits.len() == 0 {
        assert(all =~= rest);
        assert(leading_digits(all) =~= digits);
    } else {
        let fewer = digits.drop_first();
        assert(all[0] == digits[0]);
        assert(is_digit(digits[0]));
        assert forall|i: int| 0 <= i < fewer.len() implies is_digit(#[trigger] fewer[i]) by {
            assert(fewer[i] == digits[i + 1]);
        }
        digits_lead(fewer, rest);
        assert(all.drop_first() =~= fewer + rest);
        assert(seq![digits[0]] + fewer =~= digits);
    }
}

proof fn numbers_agree(digits: Text)
    requires
        forall|i: int| 0 <= i < digits.len() ==> is_digit(#[trigger] digits[i]),
    ensures
        number(digits) == number_of(digits),
    decreases digits.len(),
{
    if digits.len() > 0 {
        let front = digits.drop_last();
        assert forall|i: int| 0 <= i < front.len() implies is_digit(#[trigger] front[i]) by {
            assert(front[i] == digits[i]);
        }
        assert(is_digit(digits[digits.len() - 1]));
        numbers_agree(front);
    }
}

/// The levels of a GPT-5 model follow from its minor version, whatever stands behind the number:
/// up to the first three, from 5.2 on also `xhigh`, from 5.6 on also `max`.
pub proof fn versions_decide_the_levels(version: nat, rest: Text)
    requires
        version <= u32::MAX,
        rest.len() > 0 ==> !('0' <= rest[0] <= '9'),
        !rest.contains('/'),
    ensures
        ({
            let levels = inferred("gpt-5."@ + decimal(version) + rest);
            let three = seq![ReasoningEffort::Low, ReasoningEffort::Medium, ReasoningEffort::High];
            if version >= 6 {
                levels == Some(three.push(ReasoningEffort::XHigh).push(ReasoningEffort::Max))
            } else if version >= 2 {
                levels == Some(three.push(ReasoningEffort::XHigh))
            } else {
                levels == Some(three)
            }
        }),
{
    reveal_strlit("gpt-5.");
    reveal_strlit("gpt-5");
    let digits = decimal(version);
    decimals_are_read_back(version);
    assert forall|i: int| 0 <= i < digits.len() implies is_digit(#[trigger] digits[i]) by {
        assert('0' <= digits[i] <= '9');
    }
    numbers_agree(digits);
    let id = "gpt-5."@ + digits + rest;
    assert(!id.contains('/')) by {
        if id.contains('/') {
            let i = choose|i: int| 0 <= i < id.len() && id[i] == '/';
            if i >= 6 + digits.len() {
                assert(rest[i - 6 - digits.len()] == '/');
            } else if i >= 6 {
                assert(is_digit(digits[i - 6]));
            }
        }
    }
    leaves_stand_behind_slashes(seq![], id);
    let low = ascii_lower(id);
    let tail = ascii_lower(rest);
    assert(low =~= "gpt-5."@ + digits + tail) by {
        assert forall|i: int| 0 <= i < id.len() implies #[trigger] low[i] == ("gpt-5."@ + digits
            + tail)[i] by {
            if i < 6 {
                assert(id[i] == "gpt-5."@[i]);
            } else if i < 6 + digits.len() {
                assert(id[i] == digits[i - 6]);
                assert(is_digit(digits[i - 6]));
            } else {
                assert(id[i] == rest[i - 6 - digits.len()]);
            }
        }
    }
    assert(low.take(5) =~= "gpt-5"@);
    assert(starts_with(low, "gpt-5"@));
    let behind = low.skip(5);
    assert(behind[0] == '.');
    assert(behind.drop_first() =~= digits + tail);
    digits_lead(digits, tail);
    assert(gpt5_minor(id) == Some(version));
    let three = seq![ReasoningEffort::Low, ReasoningEffort::Medium, ReasoningEffort::High];
    assert(GPT51@ =~= three);
    assert(GPT52@ =~= three.push(ReasoningEffort::XHigh));
    assert(GPT56@ =~= three.push(ReasoningEffort::XHigh).push(ReasoningEffort::Max));
}

/// A Grok model is known by its name, with a dot or a dash in its version, whatever stands around
/// it.
pub proof fn grok_models_are_known(id: Text)
    requires
        !id.contains('/'),
        gpt5_minor(id) is None,
        !gpt5_family(id),
    ensures
        find(id, "grok-4.6"@) is Some || find(id, "grok-4-6"@) is Some ==> inferred(id) == Some(
            seq![
                ReasoningEffort::Low,
                ReasoningEffort::Medium,
                ReasoningEffort::High,
                ReasoningEffort::XHigh,
            ],
        ),
        find(id, "grok-4.6"@) is None && find(id, "grok-4-6"@) is None && (find(id, "grok-4.5"@)
            is Some || find(id, "grok-4-5"@) is Some) ==> inferred(id) == Some(
            seq![ReasoningEffort::Low, ReasoningEffort::Medium, ReasoningEffort::High],
        ),
        find(id, "grok-4.6"@) is None && find(id, "grok-4-6"@) is None && find(id, "grok-4.5"@)
            is None && find(id, "grok-4-5"@) is None ==> inferred(id) is None,
{
    leaves_stand_behind_slashes(seq![], id);
    assert(GPT52@ =~= seq![
        ReasoningEffort::Low,
        ReasoningEffort::Medium,
        ReasoningEffort::High,
        ReasoningEffort::XHigh,
    ]);
    assert(GROK45@ =~= seq![
        ReasoningEffort::Low,
        ReasoningEffort::Medium,
        ReasoningEffort::High,
    ]);
}

} // verus!
