//! Short texts that the clients show: titles, labels, ids and times.

use crate::protocol::ReasoningEffort;
use crate::text::{
    concat, concat3, decimal, decimal_text, first_line_is_read_back, from_range, index_of,
    index_of_bounds, is_blank, is_line, lines, lines_text, split_once, split_once_text, starts_with, strip_prefix_text, to_chars, trim,
    trim_end_char, trim_end_char_text, trim_text, views, Text,
};
use vstd::prelude::*;
use vstd::utf8::{
    decode_utf8, encode_utf8, encode_utf8_decode_utf8, encode_utf8_valid_utf8, is_ascii_chars,
    is_ascii_chars_encode_utf8, is_char_boundary, is_char_boundary_iff_is_leading_byte,
    is_leading_byte_width_1,
};

verus! {

/// The name shown for a selected effort.
pub open spec fn effort_name(effort: Option<ReasoningEffort>) -> Text {
    match effort {
        None => "Default"@,
        Some(ReasoningEffort::Minimal) => "Minimal"@,
        Some(ReasoningEffort::Low) => "Low"@,
        Some(ReasoningEffort::Medium) => "Medium"@,
        Some(ReasoningEffort::High) => "High"@,
        Some(ReasoningEffort::XHigh) => "Extra high"@,
        Some(ReasoningEffort::Max) => "Max"@,
    }
}

pub fn effort_label(effort: Option<ReasoningEffort>) -> (r: &'static str)
    ensures
        r@ == effort_name(effort),
{
    match effort {
        None => "Default",
        Some(ReasoningEffort::Minimal) => "Minimal",
        Some(ReasoningEffort::Low) => "Low",
        Some(ReasoningEffort::Medium) => "Medium",
        Some(ReasoningEffort::High) => "High",
        Some(ReasoningEffort::XHigh) => "Extra high",
        Some(ReasoningEffort::Max) => "Max",
    }
}

/// The explanation shown beside an effort.
pub open spec fn effort_explanation(effort: ReasoningEffort) -> Text {
    match effort {
        ReasoningEffort::Minimal => "Lowest latency, almost no extra thinking"@,
        ReasoningEffort::Low => "Faster, lighter reasoning"@,
        ReasoningEffort::Medium => "Balanced thinking and speed"@,
        ReasoningEffort::High => "Deeper reasoning for harder tasks"@,
        ReasoningEffort::XHigh => "Extended reasoning"@,
        ReasoningEffort::Max => "Largest reasoning budget"@,
    }
}

pub fn effort_hint(effort: ReasoningEffort) -> (r: &'static str)
    ensures
        r@ == effort_explanation(effort),
{
    match effort {
        ReasoningEffort::Minimal => "Lowest latency, almost no extra thinking",
        ReasoningEffort::Low => "Faster, lighter reasoning",
        ReasoningEffort::Medium => "Balanced thinking and speed",
        ReasoningEffort::High => "Deeper reasoning for harder tasks",
        ReasoningEffort::XHigh => "Extended reasoning",
        ReasoningEffort::Max => "Largest reasoning budget",
    }
}

/// What follows the last occurrence of a character; the whole text if it does
/// not occur.
pub open spec fn last_part(s: Text, c: char) -> Text
    decreases s.len(),
{
    if s.len() == 0 || s.last() == c {
        seq![]
    } else {
        last_part(s.drop_last(), c).push(s.last())
    }
}

/// The last component of a workspace path, or the whole path if there is none.
pub open spec fn label_of_workspace(workspace: Text) -> Text {
    let label = last_part(trim_end_char(workspace, '/'), '/');
    if label.len() == 0 {
        workspace
    } else {
        label
    }
}

/// The last path component of a workspace, for compact display: a project shows
/// as `nexa` instead of `/home/user/code/nexa`.
pub fn workspace_label(workspace: &str) -> (r: String)
    ensures
        r@ == label_of_workspace(workspace@),
{
    let trimmed = trim_end_char_text(workspace, '/');
    let chars = to_chars(&trimmed);
    let size: usize = chars.len();
    let mut from: usize = size;
    let ghost whole = last_part(chars@, '/');
    assert(chars@.take(size as int) =~= chars@);
    assert(chars@.subrange(size as int, size as int) =~= seq![]);
    assert(whole =~= last_part(chars@.take(size as int), '/') + chars@.subrange(
        size as int,
        size as int,
    ));
    while from > 0 && chars[from - 1] != '/'
        invariant
            from <= size,
            size == chars@.len(),
            whole == last_part(chars@.take(from as int), '/') + chars@.subrange(
                from as int,
                size as int,
            ),
        decreases from,
    {
        let ghost front = chars@.take(from as int);
        assert(front.last() == chars@[from - 1]);
        assert(front.drop_last() =~= chars@.take(from - 1));
        assert(last_part(front, '/') + chars@.subrange(from as int, size as int) =~= last_part(
            chars@.take(from - 1),
            '/',
        ) + chars@.subrange(from - 1, size as int));
        from -= 1;
    }
    assert(chars@.take(from as int).len() > 0 ==> chars@.take(from as int).last() == chars@[from
        - 1]);
    assert(whole =~= chars@.subrange(from as int, size as int));
    if from == size {
        workspace.to_owned()
    } else {
        from_range(&chars, from, size)
    }
}

/// The age of a time stamp in whole seconds; a future one counts as new.
pub open spec fn age_seconds(past_ms: u64, now_ms: u64) -> nat {
    if now_ms > past_ms {
        ((now_ms - past_ms) / 1000) as nat
    } else {
        0
    }
}

/// A coarse label for the time that has passed.
pub open spec fn age(past_ms: u64, now_ms: u64) -> Text {
    let seconds = age_seconds(past_ms, now_ms);
    if seconds < 60 {
        "just now"@
    } else if seconds < 3600 {
        decimal(seconds / 60) + " min ago"@
    } else if seconds < 86_400 {
        decimal(seconds / 3600) + " h ago"@
    } else {
        decimal(seconds / 86_400) + " d ago"@
    }
}

/// Coarse "time since" label; precise stamps live in session metadata.
pub fn relative_time(past_ms: u64, now_ms: u64) -> (r: String)
    ensures
        r@ == age(past_ms, now_ms),
{
    let seconds: u64 = now_ms.saturating_sub(past_ms) / 1000;
    if seconds < 60 {
        "just now".to_owned()
    } else if seconds < 3600 {
        concat(&decimal_text(seconds / 60), " min ago")
    } else if seconds < 86_400 {
        concat(&decimal_text(seconds / 3600), " h ago")
    } else {
        concat(&decimal_text(seconds / 86_400), " d ago")
    }
}

/// A text cut to at most `max` characters; an ellipsis marks a cut.
pub open spec fn truncated(text: Text, max: nat) -> Text {
    if text.len() <= max {
        text
    } else {
        text.take(max as int) + "…"@
    }
}

pub fn truncate(text: &str, max_chars: usize) -> (r: String)
    ensures
        r@ == truncated(text@, max_chars as nat),
{
    let chars = to_chars(text);
    if chars.len() <= max_chars {
        text.to_owned()
    } else {
        let taken = from_range(&chars, 0, max_chars);
        assert(taken@ =~= text@.take(max_chars as int));
        concat(&taken, "…")
    }
}

/// The first line that is not blank.
pub open spec fn first_written(lines: Seq<Text>) -> Option<Text>
    decreases lines.len(),
{
    if lines.len() == 0 {
        None
    } else if trim(lines[0]).len() > 0 {
        Some(lines[0])
    } else {
        first_written(lines.skip(1))
    }
}

/// The title of a chat: the first line of its first message that says
/// something, trimmed and cut to 42 characters.
pub open spec fn title_of(message: Text) -> Text {
    let line = match first_written(lines(message)) {
        Some(line) => line,
        None => message,
    };
    truncated(trim(line), 42)
}

pub fn title_from_message(text: &str) -> (r: String)
    ensures
        r@ == title_of(text@),
{
    let all = lines_text(text);
    let mut i: usize = 0;
    assert(views(all@).skip(0) =~= views(all@));
    while i < all.len()
        invariant
            i <= all@.len(),
            views(all@) == lines(text@),
            first_written(lines(text@)) == first_written(views(all@).skip(i as int)),
        decreases all@.len() - i,
    {
        assert(views(all@).skip(i as int)[0] == all@[i as int]@);
        if !is_blank(&all[i]) {
            return truncate(&trim_text(&all[i]), 42);
        }
        assert(views(all@).skip(i as int).skip(1) =~= views(all@).skip(i as int + 1));
        i += 1;
    }
    truncate(&trim_text(text), 42)
}

/// The part of a session id that tells it from others: what follows the common
/// prefix.
pub open spec fn distinctive_part(id: Text) -> Text {
    if starts_with(id, "session-"@) {
        id.skip("session-"@.len() as int)
    } else {
        id
    }
}

/// The first bytes of a text; all of it if it is no longer than that.
pub open spec fn first_bytes(text: Text, count: int) -> Text {
    if encode_utf8(text).len() <= count {
        text
    } else {
        decode_utf8(encode_utf8(text).subrange(0, count))
    }
}

/// Whether an id can be shortened: four bytes of its fingerprint end at a
/// character's end.
pub open spec fn can_shorten(id: Text) -> bool {
    match split_once(distinctive_part(id), '-') {
        Some((fingerprint, _)) => encode_utf8(fingerprint).len() <= 4 || is_char_boundary(
            encode_utf8(fingerprint),
            4,
        ),
        None => true,
    }
}

/// An id for display: `1a2b…9c8d7e6f` for `session-1a2b3c4d-9c8d7e6f`.
pub open spec fn shortened(id: Text) -> Text {
    match split_once(distinctive_part(id), '-') {
        Some((fingerprint, suffix)) => first_bytes(fingerprint, 4) + "…"@ + suffix,
        None => id,
    }
}

/// Trims the deterministic prefix of a session id for display.
pub fn short_id(id: &str) -> (r: String)
    requires
        can_shorten(id@),
    ensures
        r@ == shortened(id@),
{
    let rest = match strip_prefix_text(id, "session-") {
        Some(rest) => rest,
        None => id.to_owned(),
    };
    assert(rest@ == distinctive_part(id@));
    match split_once_text(&rest, '-') {
        Some((fingerprint, suffix)) => {
            let bytes = fingerprint.as_str().as_bytes();
            if bytes.len() <= 4 {
                concat3(&fingerprint, "…", &suffix)
            } else {
                let (head, _) = fingerprint.as_str().split_at(4);
                proof {
                    encode_utf8_decode_utf8(head@);
                    assert(encode_utf8(head@) =~= encode_utf8(fingerprint@).subrange(0, 4));
                }
                concat3(head, "…", &suffix)
            }
        },
        None => id.to_owned(),
    }
}

/// Every ASCII id can be shortened.
pub proof fn ascii_ids_can_be_shortened(id: Text)
    requires
        is_ascii_chars(id),
    ensures
        can_shorten(id),
{
    let rest = distinctive_part(id);
    if let Some((fingerprint, _)) = split_once(rest, '-') {
        let prefix = "session-"@.len() as int;
        index_of_bounds(rest, '-');
        assert forall|i: int| 0 <= i < fingerprint.len() implies '\0' <= #[trigger] fingerprint[i]
            <= '\u{7f}' by {
            assert(fingerprint[i] == rest[i]);
            if starts_with(id, "session-"@) {
                assert(rest[i] == id[prefix + i]);
            } else {
                assert(rest[i] == id[i]);
            }
        }
        let bytes = encode_utf8(fingerprint);
        is_ascii_chars_encode_utf8(fingerprint);
        encode_utf8_valid_utf8(fingerprint);
        if bytes.len() > 4 {
            assert(fingerprint[4] as u8 == bytes[4]);
            assert(is_leading_byte_width_1(bytes[4]));
            is_char_boundary_iff_is_leading_byte(bytes, 4);
        }
    }
}

/// The efforts are shown under names of their own.
pub proof fn efforts_have_their_own_names(
    effort: Option<ReasoningEffort>,
    other: Option<ReasoningEffort>,
)
    requires
        effort_name(effort) == effort_name(other),
    ensures
        effort == other,
{
    reveal_strlit("Default");
    reveal_strlit("Minimal");
    reveal_strlit("Low");
    reveal_strlit("Medium");
    reveal_strlit("High");
    reveal_strlit("Extra high");
    reveal_strlit("Max");
    assert("Default"@.len() == 7 && "Default"@[0] == 'D');
    assert("Minimal"@.len() == 7 && "Minimal"@[0] == 'M');
    assert("Low"@.len() == 3 && "Low"@[0] == 'L');
    assert("Medium"@.len() == 6);
    assert("High"@.len() == 4);
    assert("Extra high"@.len() == 10);
    assert("Max"@.len() == 3 && "Max"@[0] == 'M');
}

/// A workspace is shown under the last name of its path, with or without a slash behind it; the
/// root is shown as it is.
pub proof fn workspaces_show_their_last_name(parent: Text, name: Text)
    requires
        name.len() > 0,
        !name.contains('/'),
    ensures
        label_of_workspace(parent + "/"@ + name) == name,
        label_of_workspace((parent + "/"@ + name).push('/')) == name,
        label_of_workspace(name) == name,
        label_of_workspace("/"@) == "/"@,
{
    reveal_strlit("/");
    let path = parent + "/"@ + name;
    assert(path.last() == name.last());
    assert(name.contains(name.last()));
    assert(trim_end_char(path, '/') == path);
    assert(path.push('/').drop_last() =~= path);
    assert(trim_end_char(path.push('/'), '/') == path);
    last_names_stand_behind_slashes(parent + "/"@, name);
    last_names_stand_behind_slashes(seq![], name);
    assert(Seq::<char>::empty() + name =~= name);
    assert(trim_end_char(name, '/') == name);
    assert("/"@.drop_last() =~= Seq::<char>::empty());
    assert(trim_end_char("/"@, '/') =~= Seq::<char>::empty()) by {
        reveal_with_fuel(trim_end_char, 2);
    }
    assert(last_part(Seq::<char>::empty(), '/') =~= Seq::<char>::empty());
}

proof fn last_names_stand_behind_slashes(head: Text, name: Text)
    requires
        head.len() == 0 || head.last() == '/',
        !name.contains('/'),
    ensures
        last_part(head + name, '/') == name,
    decreases name.len(),
{
    if name.len() == 0 {
        assert(head + name =~= head);
        assert(last_part(head, '/') =~= name);
    } else {
        let shorter = name.drop_last();
        assert(name.contains(name.last()));
        assert(!shorter.contains('/')) by {
            if shorter.contains('/') {
                let i = choose|i: int| 0 <= i < shorter.len() && shorter[i] == '/';
                assert(name[i] == '/');
            }
        }
        last_names_stand_behind_slashes(head, shorter);
        assert((head + name).drop_last() =~= head + shorter);
        assert(shorter.push(name.last()) =~= name);
    }
}

/// The time that has passed is shown in whole minutes, hours or days: the greatest of these
/// units that fits, rounded down.
pub proof fn ages_are_rounded_down(past_ms: u64, now_ms: u64, count: nat)
    requires
        count > 0,
        past_ms <= now_ms,
    ensures
        now_ms - past_ms < 60_000 ==> age(past_ms, now_ms) == "just now"@,
        count < 60 && count * 60_000 <= now_ms - past_ms < (count + 1) * 60_000 ==> age(
            past_ms,
            now_ms,
        ) == decimal(count) + " min ago"@,
        count < 24 && count * 3_600_000 <= now_ms - past_ms < (count + 1) * 3_600_000 ==> age(
            past_ms,
            now_ms,
        ) == decimal(count) + " h ago"@,
        count * 86_400_000 <= now_ms - past_ms < (count + 1) * 86_400_000 ==> age(past_ms, now_ms)
            == decimal(count) + " d ago"@,
{
    let passed = (now_ms - past_ms) as int;
    let seconds = passed / 1000;
    assert(age_seconds(past_ms, now_ms) == seconds as nat);
    if count < 60 && count * 60_000 <= passed < (count + 1) * 60_000 {
        assert(count * 60 <= seconds < (count + 1) * 60);
        assert(seconds / 60 == count);
    }
    if count < 24 && count * 3_600_000 <= passed < (count + 1) * 3_600_000 {
        assert(count * 3600 <= seconds < (count + 1) * 3600);
        assert(seconds / 3600 == count);
    }
    if count * 86_400_000 <= passed < (count + 1) * 86_400_000 {
        assert(count * 86_400 <= seconds < (count + 1) * 86_400);
        assert(seconds / 86_400 == count);
    }
}

/// A text that fits is shown whole; of a longer one the beginning is, and an ellipsis says so.
pub proof fn long_texts_are_cut(text: Text, max: nat)
    ensures
        text.len() <= max ==> truncated(text, max) == text,
        text.len() > max ==> truncated(text, max).len() == max + 1 && truncated(text, max).take(
            max as int,
        ) == text.take(max as int) && truncated(text, max).last() == '…',
{
    reveal_strlit("…");
    if text.len() > max {
        assert(truncated(text, max).take(max as int) =~= text.take(max as int));
    }
}

/// The title of a chat is the first line of its message that says something, without the white
/// space around it; a short line is the title as it is.
pub proof fn titles_come_from_the_first_line(line: Text, rest: Text, blank: Text)
    requires
        is_line(line),
        trim(line).len() > 0,
        is_line(blank),
        trim(blank).len() == 0,
    ensures
        trim(line).len() <= 42 ==> title_of(line + "\n"@ + rest) == trim(line),
        trim(line).len() > 42 ==> title_of(line + "\n"@ + rest).take(42) == trim(line).take(42),
        trim(line).len() <= 42 ==> title_of(line) == trim(line),
        title_of(blank + "\n"@ + (line + "\n"@ + rest)) == title_of(line + "\n"@ + rest),
{
    reveal_strlit("…");
    let text = line + "\n"@ + rest;
    first_line_is_read_back(line, rest);
    first_line_is_read_back(blank, text);
    let all = seq![line] + lines(rest);
    assert(all[0] == line);
    let more = seq![blank] + all;
    assert(more[0] == blank);
    assert(more.skip(1) =~= all);
    if trim(line).len() > 42 {
        assert(title_of(text).take(42) =~= trim(line).take(42));
    }
    index_of_bounds(line, '\n');
    assert(line.len() > 0) by {
        if line.len() == 0 {
            assert(trim(line) =~= line);
        }
    }
    assert(lines(line) == seq![line]);
    assert(lines(line)[0] == line);
}

/// The short form of a session id shows the first four digits of its first part and all of its
/// second part, by which two sessions of a workspace differ.
pub proof fn short_ids_show_both_parts(first: Text, second: Text)
    requires
        is_ascii_chars(first),
        first.len() >= 4,
        !first.contains('-'),
    ensures
        shortened("session-"@ + first + "-"@ + second) == first.take(4) + "…"@ + second,
{
    reveal_strlit("session-");
    reveal_strlit("-");
    let id = "session-"@ + first + "-"@ + second;
    let rest = first + "-"@ + second;
    assert(id.take(8) =~= "session-"@);
    assert(starts_with(id, "session-"@));
    assert(id.skip(8) =~= rest);
    index_of_bounds(rest, '-');
    let at = index_of(rest, '-');
    assert(rest[first.len() as int] == '-');
    if at < first.len() {
        assert(first[at] == rest[at]);
        assert(first.contains(first[at]));
    }
    assert(rest.take(at) =~= first);
    assert(rest.skip(at + 1) =~= second);
    is_ascii_chars_encode_utf8(first);
    let head = first.take(4);
    assert(is_ascii_chars(head)) by {
        assert forall|i: int| 0 <= i < head.len() implies '\0' <= #[trigger] head[i] <= '\u{7f}' by {
            assert(head[i] == first[i]);
        }
    }
    is_ascii_chars_encode_utf8(head);
    encode_utf8_decode_utf8(head);
    assert(encode_utf8(first).subrange(0, 4) =~= encode_utf8(head));
    if first.len() == 4 {
        assert(head =~= first);
    }
}

} // verus!
