//! The registry of sessions: their ids, their metadata on disk, and the rules
//! for opening, creating and listing them.

use crate::config::random_bytes;
use crate::labels::{ascii_ids_can_be_shortened, can_shorten};
use crate::protocol::{SessionInfo, SessionInfoView, SessionSummary, SessionSummaryView};
use crate::session::{SessionError, SessionErrorView};
use crate::table::{as_map, has_key, value_of, Table};
use crate::text::{
    concat, concat3, debug_form, debug_text, hex, hex_is_read_back, hex_text, index_of,
    index_of_bounds, opt_view, same, split, split_text, starts_with, strip_prefix_text, to_chars, views, Text,
};
use crate::tools::{sha256_bytes, sha256_digest};
use vstd::prelude::*;
use vstd::utf8::encode_utf8;

verus! {

/// The file that holds a session's metadata.
pub const METADATA_FILE: &'static str = "session.json";

/// The file that holds a session's event log.
pub const EVENT_LOG_FILE: &'static str = "events.ndjson";

/// The content of a [`PersistedSession`].
#[verifier::ext_equal]
pub struct PersistedSessionView {
    pub id: Text,
    pub workspace: Text,
    pub created_at_ms: u64,
    pub last_opened_ms: u64,
}

/// On-disk session metadata. Identity fields (`id`, `workspace`) are immutable
/// once written; activity timestamps update on open.
#[derive(Debug, Eq, PartialEq)]
pub struct PersistedSession {
    pub id: String,
    pub workspace: String,
    pub created_at_ms: u64,
    pub last_opened_ms: u64,
}

impl View for PersistedSession {
    type V = PersistedSessionView;

    open spec fn view(&self) -> PersistedSessionView {
        PersistedSessionView {
            id: self.id@,
            workspace: self.workspace@,
            created_at_ms: self.created_at_ms,
            last_opened_ms: self.last_opened_ms,
        }
    }
}

impl Clone for PersistedSession {
    fn clone(&self) -> (r: Self)
        ensures
            r@ == self@,
    {
        let r = PersistedSession {
            id: self.id.clone(),
            workspace: self.workspace.clone(),
            created_at_ms: self.created_at_ms,
            last_opened_ms: self.last_opened_ms,
        };
        assert(r@ =~~= self@);
        r
    }
}

/// The content of a [`RegistryError`].
#[verifier::ext_equal]
pub enum RegistryErrorView {
    Io(Text),
    Workspace(Text),
    InvalidWorkspace(Text),
    InvalidSessionId(Text),
    NotFound(Text),
    InvalidMetadata(Text),
    Agent(Text),
    Session(SessionErrorView),
}

/// Why the registry refused or failed. `Io` and `Workspace` carry the text of
/// the underlying failure.
#[derive(Debug, Eq, PartialEq)]
pub enum RegistryError {
    Io(String),
    Workspace(String),
    InvalidWorkspace(String),
    InvalidSessionId(String),
    NotFound(String),
    InvalidMetadata(String),
    Agent(String),
    Session(SessionError),
}

impl View for RegistryError {
    type V = RegistryErrorView;

    open spec fn view(&self) -> RegistryErrorView {
        match self {
            RegistryError::Io(item) => RegistryErrorView::Io(item@),
            RegistryError::Workspace(item) => RegistryErrorView::Workspace(item@),
            RegistryError::InvalidWorkspace(item) => RegistryErrorView::InvalidWorkspace(item@),
            RegistryError::InvalidSessionId(item) => RegistryErrorView::InvalidSessionId(item@),
            RegistryError::NotFound(item) => RegistryErrorView::NotFound(item@),
            RegistryError::InvalidMetadata(item) => RegistryErrorView::InvalidMetadata(item@),
            RegistryError::Agent(item) => RegistryErrorView::Agent(item@),
            RegistryError::Session(item) => RegistryErrorView::Session(item@),
        }
    }
}

impl Clone for RegistryError {
    fn clone(&self) -> (r: Self)
        ensures
            r@ == self@,
    {
        let r = match self {
            RegistryError::Io(item) => RegistryError::Io(item.clone()),
            RegistryError::Workspace(item) => RegistryError::Workspace(item.clone()),
            RegistryError::InvalidWorkspace(item) => RegistryError::InvalidWorkspace(item.clone()),
            RegistryError::InvalidSessionId(item) => RegistryError::InvalidSessionId(item.clone()),
            RegistryError::NotFound(item) => RegistryError::NotFound(item.clone()),
            RegistryError::InvalidMetadata(item) => RegistryError::InvalidMetadata(item.clone()),
            RegistryError::Agent(item) => RegistryError::Agent(item.clone()),
            RegistryError::Session(item) => RegistryError::Session(item.clone()),
        };
        assert(r@ =~~= self@);
        r
    }
}

impl RegistryErrorView {
    /// The text shown for an error.
    pub open spec fn message_text(self) -> Text {
        match self {
            RegistryErrorView::Io(error) => error,
            RegistryErrorView::Workspace(error) => "could not resolve workspace: "@ + error,
            RegistryErrorView::InvalidWorkspace(error) => error,
            RegistryErrorView::InvalidSessionId(id) => "invalid session ID "@ + debug_form(id),
            RegistryErrorView::NotFound(id) => "session "@ + debug_form(id) + " was not found"@,
            RegistryErrorView::InvalidMetadata(error) => "invalid session metadata: "@ + error,
            RegistryErrorView::Agent(error) => "could not create session agent: "@ + error,
            RegistryErrorView::Session(error) => error.message_text(),
        }
    }
}

impl RegistryError {
    /// Whether the error says that there is no such session.
    pub fn is_not_found(&self) -> (r: bool)
        ensures
            r == (self@ is NotFound),
    {
        match self {
            RegistryError::NotFound(_) => true,
            _ => false,
        }
    }

    /// Whether the error is the requester's own.
    pub fn is_invalid_request(&self) -> (r: bool)
        ensures
            r == (self@ is Workspace || self@ is InvalidWorkspace || self@ is InvalidSessionId),
    {
        match self {
            RegistryError::Workspace(_) => true,
            RegistryError::InvalidWorkspace(_) => true,
            RegistryError::InvalidSessionId(_) => true,
            _ => false,
        }
    }

    pub fn message(&self) -> (r: String)
        ensures
            r@ == self@.message_text(),
    {
        match self {
            RegistryError::Io(error) => error.clone(),
            RegistryError::Workspace(error) => concat("could not resolve workspace: ", error),
            RegistryError::InvalidWorkspace(error) => error.clone(),
            RegistryError::InvalidSessionId(id) => concat("invalid session ID ", &debug_text(id)),
            RegistryError::NotFound(id) => concat3("session ", &debug_text(id), " was not found"),
            RegistryError::InvalidMetadata(error) => concat("invalid session metadata: ", error),
            RegistryError::Agent(error) => concat("could not create session agent: ", error),
            RegistryError::Session(error) => error.message(),
        }
    }
}

/// Whether a character is a hexadecimal digit.
pub open spec fn is_hex(c: char) -> bool {
    '0' <= c <= '9' || 'a' <= c <= 'f' || 'A' <= c <= 'F'
}

/// A group of hexadecimal digits, at least one.
pub open spec fn is_hex_group(part: Text) -> bool {
    part.len() > 0 && forall|i: int| 0 <= i < part.len() ==> is_hex(#[trigger] part[i])
}

/// What a session id looks like behind its prefix: groups of hexadecimal
/// digits with a dash between two neighbours, 80 characters at most.
pub open spec fn is_id_body(rest: Text) -> bool {
    &&& rest.len() <= 80
    &&& forall|i: int|
        0 <= i < split(rest, '-').len() ==> is_hex_group(#[trigger] split(rest, '-')[i])
}

/// Whether a text is a session id.
pub open spec fn is_session_id(id: Text) -> bool {
    starts_with(id, "session-"@) && is_id_body(id.skip("session-"@.len() as int))
}

fn is_hex_text(part: &str) -> (r: bool)
    ensures
        r == is_hex_group(part@),
{
    let chars = to_chars(part);
    if chars.len() == 0 {
        return false;
    }
    let mut i: usize = 0;
    while i < chars.len()
        invariant
            i <= chars@.len(),
            chars@ == part@,
            forall|k: int| 0 <= k < i ==> is_hex(#[trigger] part@[k]),
        decreases chars@.len() - i,
    {
        let c = chars[i];
        if !(('0' <= c && c <= '9') || ('a' <= c && c <= 'f') || ('A' <= c && c <= 'F')) {
            assert(!is_hex(part@[i as int]));
            return false;
        }
        i += 1;
    }
    true
}

/// Accepts session ids.
pub fn validate_session_id(session_id: &str) -> (r: Result<(), RegistryError>)
    ensures
        r is Ok <==> is_session_id(session_id@),
        r matches Err(error) ==> error@ == RegistryErrorView::InvalidSessionId(session_id@),
{
    let refusal = RegistryError::InvalidSessionId(session_id.to_owned());
    let rest = match strip_prefix_text(session_id, "session-") {
        Some(rest) => rest,
        None => {
            return Err(refusal);
        },
    };
    let size: usize = to_chars(&rest).len();
    if size > 80 {
        return Err(refusal);
    }
    let parts = split_text(&rest, '-');
    let mut i: usize = 0;
    while i < parts.len()
        invariant
            i <= parts@.len(),
            views(parts@) == split(rest@, '-'),
            rest@ == session_id@.skip("session-"@.len() as int),
            starts_with(session_id@, "session-"@),
            rest@.len() <= 80,
            refusal@ == RegistryErrorView::InvalidSessionId(session_id@),
            forall|k: int| 0 <= k < i ==> is_hex_group(#[trigger] split(rest@, '-')[k]),
        decreases parts@.len() - i,
    {
        assert(split(rest@, '-')[i as int] == parts@[i as int]@);
        if !is_hex_text(&parts[i]) {
            return Err(refusal);
        }
        i += 1;
    }
    Ok(())
}

/// The id made of the beginning of a workspace's digest and of some random
/// bytes, in hexadecimal.
pub open spec fn id_from(digest: Seq<u8>, random: Seq<u8>) -> Text {
    "session-"@ + hex(digest.take(8)) + "-"@ + hex(random)
}

/// The id of a session of `workspace` with some random bytes.
pub open spec fn session_id_of(workspace: Text, random: Seq<u8>) -> Text {
    id_from(sha256_digest(encode_utf8(workspace)), random)
}

/// The id made of a digest and of some random bytes.
pub fn session_id_from(digest: &[u8], random: &[u8]) -> (r: String)
    requires
        digest@.len() >= 8,
    ensures
        r@ == id_from(digest@, random@),
        random@.len() == 4 ==> is_session_id(r@),
{
    let size: usize = random.len();
    assert(random@.take(size as int) =~= random@);
    proof {
        if random@.len() == 4 {
            made_ids_are_valid(digest@, random@);
        }
    }
    let head = concat3("session-", &hex_text(digest, 8), "-");
    concat(&head, &hex_text(random, size))
}

/// The id of a session of `workspace` with some random bytes.
pub fn session_id_for(workspace: &str, random: &[u8]) -> (r: String)
    ensures
        r@ == session_id_of(workspace@, random@),
        random@.len() == 4 ==> is_session_id(r@),
{
    session_id_from(&sha256_bytes(workspace.as_bytes()), random)
}

/// A fresh id for a session of `workspace`.
pub fn unique_session_id(workspace: &str) -> (r: Result<String, RegistryError>)
    ensures
        r matches Ok(id) ==> is_session_id(id@) && exists|random: Seq<u8>|
            random.len() == 4 && id@ == #[trigger] session_id_of(workspace@, random),
        r matches Err(error) ==> exists|fault: Text|
            error@ == RegistryErrorView::InvalidMetadata(
                #[trigger] ("could not generate a session ID: "@ + fault),
            ),
{
    match random_bytes(4) {
        Ok(random) => Ok(session_id_for(workspace, &random)),
        Err(error) => Err(
            RegistryError::InvalidMetadata(concat("could not generate a session ID: ", &error)),
        ),
    }
}

proof fn hex_is_a_group(bytes: Seq<u8>)
    requires
        bytes.len() > 0,
    ensures
        is_hex_group(hex(bytes)),
        hex(bytes).len() == 2 * bytes.len(),
        !hex(bytes).contains('-'),
{
    let text = hex(bytes);
    assert forall|i: int| 0 <= i < text.len() implies is_hex(#[trigger] text[i]) && text[i]
        != '-' by {
        let b = bytes[i / 2];
        assert(b / 16 < 16 && b % 16 < 16);
    }
}

/// Every id that is made for a session is accepted as a session id.
proof fn made_ids_are_valid(digest: Seq<u8>, random: Seq<u8>)
    requires
        random.len() == 4,
        digest.len() >= 8,
    ensures
        is_session_id(id_from(digest, random)),
{
    reveal_strlit("session-");
    reveal_strlit("-");
    let first = hex(digest.take(8));
    let second = hex(random);
    hex_is_a_group(digest.take(8));
    hex_is_a_group(random);
    let id = id_from(digest, random);
    let rest = first + "-"@ + second;
    assert(id =~= "session-"@ + rest);
    assert(id.take("session-"@.len() as int) =~= "session-"@);
    assert(id.skip("session-"@.len() as int) =~= rest);
    index_of_bounds(rest, '-');
    let at = index_of(rest, '-');
    assert(rest[first.len() as int] == '-');
    if at < first.len() {
        assert(first.contains(first[at]));
    }
    assert(at == first.len());
    assert(rest.take(at) =~= first);
    assert(rest.skip(at + 1) =~= second);
    index_of_bounds(second, '-');
    assert(split(second, '-') == seq![second]);
    assert(split(rest, '-') =~= seq![first, second]);
}

proof fn split_parts(s: Text, c: char, i: int)
    requires
        0 <= i < s.len(),
        s[i] != c,
    ensures
        exists|k: int, m: int|
            0 <= k < split(s, c).len() && 0 <= m < split(s, c)[k].len() && #[trigger] split(
                s,
                c,
            )[k][m] == s[i],
    decreases s.len(),
{
    index_of_bounds(s, c);
    let at = index_of(s, c);
    if at < s.len() {
        let parts = split(s, c);
        let rest = s.skip(at + 1);
        assert(parts[0] == s.take(at));
        if i < at {
            assert(parts[0][i] == s[i]);
        } else {
            split_parts(rest, c, i - at - 1);
            let (k, m) = choose|k: int, m: int|
                0 <= k < split(rest, c).len() && 0 <= m < split(rest, c)[k].len()
                    && #[trigger] split(rest, c)[k][m] == rest[i - at - 1];
            assert(parts[k + 1] == split(rest, c)[k]);
            assert(parts[k + 1][m] == s[i]);
        }
    } else {
        assert(split(s, c)[0][i] == s[i]);
    }
}

/// An accepted id holds nothing but letters, digits and dashes, so it names a
/// directory directly below the sessions directory: no separator, no dot.
pub proof fn valid_ids_are_plain_names(id: Text, i: int)
    requires
        is_session_id(id),
        0 <= i < id.len(),
    ensures
        is_hex(id[i]) || id[i] == '-' || 'a' <= id[i] <= 'z',
        id[i] != '/',
        id[i] != '.',
{
    reveal_strlit("session-");
    let size = "session-"@.len() as int;
    let rest = id.skip(size);
    if i < size {
        assert(id[i] == "session-"@[i]) by {
            assert(id.take(size) == "session-"@);
            assert(id.take(size)[i] == id[i]);
        }
    } else {
        assert(rest[i - size] == id[i]);
        if id[i] != '-' {
            split_parts(rest, '-', i - size);
            let (k, m) = choose|k: int, m: int|
                0 <= k < split(rest, '-').len() && 0 <= m < split(rest, '-')[k].len()
                    && #[trigger] split(rest, '-')[k][m] == rest[i - size];
            assert(is_hex_group(split(rest, '-')[k]));
            assert(is_hex(split(rest, '-')[k][m]));
        }
    }
}

/// Every session id can be shortened for display.
pub proof fn valid_ids_can_be_shortened(id: Text)
    requires
        is_session_id(id),
    ensures
        can_shorten(id),
{
    assert forall|i: int| 0 <= i < id.len() implies '\0' <= #[trigger] id[i] <= '\u{7f}' by {
        valid_ids_are_plain_names(id, i);
    }
    ascii_ids_can_be_shortened(id);
}

/// Whether some of `known` is the session `id`.
pub open spec fn knows(known: Seq<PersistedSessionView>, id: Text) -> bool {
    exists|i: int| 0 <= i < known.len() && #[trigger] known[i].id == id
}

/// Whether the copy number `i` of a session is the one to keep: no copy of the
/// same session was opened later, and no earlier copy at the same time.
pub open spec fn is_freshest(copies: Seq<PersistedSessionView>, i: int) -> bool {
    forall|k: int|
        0 <= k < copies.len() && (#[trigger] copies[k]).id == copies[i].id ==> copies[k].last_opened_ms
            < copies[i].last_opened_ms || (copies[k].last_opened_ms == copies[i].last_opened_ms && i
            <= k)
}

/// Whether `session` is the freshest copy of its session among `copies`.
pub open spec fn freshest_among(
    copies: Seq<PersistedSessionView>,
    session: PersistedSessionView,
) -> bool {
    exists|i: int| 0 <= i < copies.len() && #[trigger] copies[i] == session && is_freshest(copies, i)
}

/// No session occurs twice.
pub open spec fn distinct_ids(known: Seq<PersistedSessionView>) -> bool {
    forall|i: int, j: int|
        0 <= i < j < known.len() ==> (#[trigger] known[i]).id != (#[trigger] known[j]).id
}

/// Whether `merged` holds each session of `copies` once, in its freshest copy.
pub open spec fn merges(
    copies: Seq<PersistedSessionView>,
    merged: Seq<PersistedSessionView>,
) -> bool {
    &&& distinct_ids(merged)
    &&& forall|i: int| 0 <= i < merged.len() ==> freshest_among(copies, #[trigger] merged[i])
    &&& forall|i: int| 0 <= i < copies.len() ==> knows(merged, (#[trigger] copies[i]).id)
}

/// Merges on-disk and in-memory copies of session metadata by ID, keeping the
/// freshest activity stamp of each.
pub fn merge_known(metadatas: Vec<PersistedSession>) -> (r: Vec<PersistedSession>)
    ensures
        merges(views(metadatas@), views(r@)),
{
    let ghost all = views(metadatas@);
    let mut merged: Vec<PersistedSession> = Vec::new();
    let mut i: usize = 0;
    while i < metadatas.len()
        invariant
            i <= metadatas@.len(),
            all == views(metadatas@),
            merges(all.take(i as int), views(merged@)),
        decreases metadatas@.len() - i,
    {
        let ghost seen = all.take(i as int);
        let ghost before = views(merged@);
        let ghost next = metadatas@[i as int]@;
        assert(all.take(i as int + 1) =~= seen.push(next));
        let mut at: usize = 0;
        while at < merged.len() && !same(&merged[at].id, &metadatas[i].id)
            invariant
                i < metadatas@.len(),
                next == metadatas@[i as int]@,
                at <= merged@.len(),
                before == views(merged@),
                forall|k: int| 0 <= k < at ==> (#[trigger] before[k]).id != next.id,
            decreases merged@.len() - at,
        {
            assert(before[at as int] == merged@[at as int]@);
            at += 1;
        }
        if at < merged.len() {
            assert(before[at as int] == merged@[at as int]@);
            if metadatas[i].last_opened_ms > merged[at].last_opened_ms {
                merged.set(at, metadatas[i].clone());
                assert(views(merged@) =~= before.update(at as int, next));
            }
        } else {
            merged.push(metadatas[i].clone());
            assert(views(merged@) =~= before.push(next));
        }
        proof {
            merge_one_more(seen, before, next, at as int);
        }
        i += 1;
    }
    assert(all.take(metadatas@.len() as int) =~= all);
    merged
}

/// The merged list after one more copy, given the position of its session.
pub open spec fn with_copy(
    merged: Seq<PersistedSessionView>,
    next: PersistedSessionView,
    at: int,
) -> Seq<PersistedSessionView> {
    if at < merged.len() {
        if next.last_opened_ms > merged[at].last_opened_ms {
            merged.update(at, next)
        } else {
            merged
        }
    } else {
        merged.push(next)
    }
}

proof fn older_copies_stay(
    seen: Seq<PersistedSessionView>,
    session: PersistedSessionView,
    next: PersistedSessionView,
)
    requires
        freshest_among(seen, session),
        next.id != session.id || next.last_opened_ms <= session.last_opened_ms,
    ensures
        freshest_among(seen.push(next), session),
{
    let i = choose|i: int|
        0 <= i < seen.len() && #[trigger] seen[i] == session && is_freshest(seen, i);
    let all = seen.push(next);
    assert(all[i] == session);
    assert forall|k: int|
        0 <= k < all.len() && (#[trigger] all[k]).id == all[i].id implies all[k].last_opened_ms
        < all[i].last_opened_ms || (all[k].last_opened_ms == all[i].last_opened_ms && i <= k) by {
        if k < seen.len() {
            assert(all[k] == seen[k]);
        }
    }
    assert(is_freshest(all, i));
}

proof fn newer_copy_wins(
    seen: Seq<PersistedSessionView>,
    next: PersistedSessionView,
    old: PersistedSessionView,
)
    requires
        freshest_among(seen, old),
        old.id == next.id,
        next.last_opened_ms > old.last_opened_ms,
    ensures
        freshest_among(seen.push(next), next),
{
    let i = choose|i: int| 0 <= i < seen.len() && #[trigger] seen[i] == old && is_freshest(seen, i);
    let all = seen.push(next);
    let last = seen.len() as int;
    assert(all[last] == next);
    assert forall|k: int|
        0 <= k < all.len() && (#[trigger] all[k]).id == all[last].id implies all[k].last_opened_ms
        < all[last].last_opened_ms || (all[k].last_opened_ms == all[last].last_opened_ms && last
        <= k) by {
        if k < seen.len() {
            assert(all[k] == seen[k]);
        }
    }
    assert(is_freshest(all, last));
}

proof fn merge_one_more(
    seen: Seq<PersistedSessionView>,
    before: Seq<PersistedSessionView>,
    next: PersistedSessionView,
    at: int,
)
    requires
        merges(seen, before),
        0 <= at <= before.len(),
        at < before.len() ==> before[at].id == next.id,
        forall|k: int| 0 <= k < at ==> (#[trigger] before[k]).id != next.id,
    ensures
        merges(seen.push(next), with_copy(before, next, at)),
{
    let all = seen.push(next);
    let after = with_copy(before, next, at);
    assert forall|i: int| 0 <= i < before.len() && i != at implies (#[trigger] before[i]).id
        != next.id by {
        if i > at {
            assert(before[at].id != before[i].id);
        }
    }
    assert forall|i: int| 0 <= i < after.len() implies freshest_among(all, #[trigger] after[i]) by {
        if i < before.len() && after[i] == before[i] {
            assert(freshest_among(seen, before[i]));
            older_copies_stay(seen, before[i], next);
        } else if at < before.len() {
            newer_copy_wins(seen, next, before[at]);
        } else {
            assert(all[seen.len() as int] == next);
            assert forall|k: int|
                0 <= k < all.len() && (#[trigger] all[k]).id == next.id implies k
                == seen.len() by {
                if k < seen.len() {
                    assert(all[k] == seen[k]);
                    assert(knows(before, seen[k].id));
                }
            }
            assert(is_freshest(all, seen.len() as int));
        }
    }
    assert forall|i: int| 0 <= i < all.len() implies knows(after, (#[trigger] all[i]).id) by {
        if i < seen.len() {
            assert(all[i] == seen[i]);
            assert(knows(before, seen[i].id));
            let k = choose|k: int| 0 <= k < before.len() && #[trigger] before[k].id == seen[i].id;
            assert(after[k].id == before[k].id);
        } else {
            assert(after[at].id == next.id);
        }
    }
}

/// The latest opened first.
pub open spec fn latest_first(sessions: Seq<SessionSummaryView>) -> bool {
    forall|i: int, j: int|
        0 <= i < j < sessions.len() ==> (#[trigger] sessions[i]).last_opened_ms >= (
        #[trigger] sessions[j]).last_opened_ms
}

/// What a picker is told of a session.
pub open spec fn summary_of(session: PersistedSessionView) -> SessionSummaryView {
    SessionSummaryView {
        id: session.id,
        created_at_ms: session.created_at_ms,
        last_opened_ms: session.last_opened_ms,
    }
}

/// What pickers are told of sessions.
pub open spec fn summaries_of(sessions: Seq<PersistedSessionView>) -> Seq<SessionSummaryView> {
    sessions.map_values(|s: PersistedSessionView| summary_of(s))
}

/// The sessions of `copies` that are bound to a workspace, in order.
pub open spec fn bound_to(copies: Seq<PersistedSessionView>, workspace: Text) -> Seq<
    PersistedSessionView,
>
    decreases copies.len(),
{
    if copies.len() == 0 {
        seq![]
    } else {
        let rest = bound_to(copies.drop_last(), workspace);
        if copies.last().workspace == workspace {
            rest.push(copies.last())
        } else {
            rest
        }
    }
}

/// The copies that are bound to a workspace, in order.
pub fn workspace_sessions(copies: &Vec<PersistedSession>, workspace: &str) -> (r: Vec<
    PersistedSession,
>)
    ensures
        views(r@) == bound_to(views(copies@), workspace@),
{
    let ghost all = views(copies@);
    let mut out: Vec<PersistedSession> = Vec::new();
    let mut i: usize = 0;
    assert(all.take(0) =~= seq![]);
    assert(views(out@) =~= bound_to(all.take(0), workspace@));
    while i < copies.len()
        invariant
            i <= copies@.len(),
            all == views(copies@),
            views(out@) == bound_to(all.take(i as int), workspace@),
        decreases copies@.len() - i,
    {
        let ghost before = out@;
        assert(all.take(i as int + 1).drop_last() =~= all.take(i as int));
        assert(all.take(i as int + 1).last() == copies@[i as int]@);
        if same(&copies[i].workspace, workspace) {
            out.push(copies[i].clone());
            assert(views(out@) =~= views(before).push(copies@[i as int]@));
        }
        i += 1;
    }
    assert(all.take(copies@.len() as int) =~= all);
    out
}

/// Sorts merged sessions, the latest opened first; sessions opened at the same
/// time keep their order.
fn sort_latest_first(merged: Vec<PersistedSession>) -> (r: Vec<SessionSummary>)
    ensures
        latest_first(views(r@)),
        views(r@).to_multiset() == summaries_of(views(merged@)).to_multiset(),
{
    let ghost all = summaries_of(views(merged@));
    let mut out: Vec<SessionSummary> = Vec::new();
    let mut i: usize = 0;
    assert(all.take(0) =~= seq![]);
    assert(views(out@) =~= all.take(0));
    while i < merged.len()
        invariant
            i <= merged@.len(),
            all == summaries_of(views(merged@)),
            latest_first(views(out@)),
            views(out@).to_multiset() == all.take(i as int).to_multiset(),
        decreases merged@.len() - i,
    {
        broadcast use vstd::seq_lib::group_to_multiset_ensures;

        let ghost before = views(out@);
        let ghost next = summary_of(merged@[i as int]@);
        let summary = SessionSummary {
            id: merged[i].id.clone(),
            created_at_ms: merged[i].created_at_ms,
            last_opened_ms: merged[i].last_opened_ms,
        };
        let mut at: usize = out.len();
        while at > 0 && out[at - 1].last_opened_ms < summary.last_opened_ms
            invariant
                at <= out@.len(),
                before == views(out@),
                latest_first(before),
                forall|k: int|
                    at <= k < before.len() ==> (#[trigger] before[k]).last_opened_ms
                        < summary.last_opened_ms,
            decreases at,
        {
            assert(before[at - 1] == out@[at - 1]@);
            at -= 1;
        }
        if at > 0 {
            assert(before[at - 1] == out@[at - 1]@);
        }
        out.insert(at, summary);
        assert(views(out@) =~= before.insert(at as int, next));
        assert(all.take(i as int + 1) =~= all.take(i as int).push(next));
        i += 1;
    }
    assert(all.take(merged@.len() as int) =~= all);
    out
}

/// Whether `sessions` is what a workspace's picker shows: each known session
/// once, in its freshest copy, the latest opened first.
pub open spec fn lists(copies: Seq<PersistedSessionView>, sessions: Seq<SessionSummaryView>) -> bool {
    &&& latest_first(sessions)
    &&& exists|merged: Seq<PersistedSessionView>| #[trigger]
        merges(copies, merged) && sessions.to_multiset() == summaries_of(merged).to_multiset()
}

/// The sessions of a workspace, most recently opened first, from the copies
/// found on disk and those held in memory.
pub fn list_sessions(
    workspace: &str,
    on_disk: &Vec<PersistedSession>,
    in_memory: &Vec<PersistedSession>,
) -> (r: Vec<SessionSummary>)
    ensures
        lists(
            bound_to(views(on_disk@), workspace@) + bound_to(views(in_memory@), workspace@),
            views(r@),
        ),
{
    let mut known = workspace_sessions(on_disk, workspace);
    let ghost first = views(known@);
    let mut open = workspace_sessions(in_memory, workspace);
    let ghost second = views(open@);
    known.append(&mut open);
    assert(views(known@) =~= first + second);
    let merged = merge_known(known);
    sort_latest_first(merged)
}

/// Whether some row of a picker is the session `id`.
pub open spec fn shows(sessions: Seq<SessionSummaryView>, id: Text) -> bool {
    exists|k: int| 0 <= k < sessions.len() && #[trigger] sessions[k].id == id
}

/// A session that a workspace knows is listed, and nothing else is.
pub proof fn listing_is_complete(
    copies: Seq<PersistedSessionView>,
    sessions: Seq<SessionSummaryView>,
)
    requires
        lists(copies, sessions),
    ensures
        forall|i: int| 0 <= i < copies.len() ==> shows(sessions, (#[trigger] copies[i]).id),
        forall|k: int|
            0 <= k < sessions.len() ==> knows(copies, (#[trigger] sessions[k]).id),
{
    broadcast use vstd::seq_lib::group_to_multiset_ensures;

    let merged = choose|merged: Seq<PersistedSessionView>| #[trigger]
        merges(copies, merged) && sessions.to_multiset() == summaries_of(merged).to_multiset();
    let rows = summaries_of(merged);
    assert forall|i: int| 0 <= i < copies.len() implies shows(
        sessions,
        (#[trigger] copies[i]).id,
    ) by {
        assert(knows(merged, copies[i].id));
        let m = choose|m: int| 0 <= m < merged.len() && #[trigger] merged[m].id == copies[i].id;
        assert(rows.contains(rows[m]));
        assert(sessions.to_multiset().count(rows[m]) > 0);
        assert(sessions.contains(rows[m]));
        let k = choose|k: int| 0 <= k < sessions.len() && sessions[k] == rows[m];
        assert(sessions[k].id == copies[i].id);
    }
    assert forall|k: int| 0 <= k < sessions.len() implies knows(
        copies,
        (#[trigger] sessions[k]).id,
    ) by {
        assert(sessions.contains(sessions[k]));
        assert(rows.to_multiset().count(sessions[k]) > 0);
        assert(rows.contains(sessions[k]));
        let m = choose|m: int| 0 <= m < rows.len() && rows[m] == sessions[k];
        assert(freshest_among(copies, merged[m]));
        let c = choose|c: int|
            0 <= c < copies.len() && #[trigger] copies[c] == merged[m] && is_freshest(copies, c);
        assert(copies[c].id == sessions[k].id);
    }
}

/// The content of a [`WorkspaceOutcome`].
#[verifier::ext_equal]
pub enum WorkspaceOutcomeView {
    Failed(Text),
    NotDirectory,
    NotUtf8,
    Directory(Text),
}

/// What came of resolving a workspace path: the canonical path, or why there is
/// none.
#[derive(Debug, Eq, PartialEq)]
pub enum WorkspaceOutcome {
    Failed(String),
    NotDirectory,
    NotUtf8,
    Directory(String),
}

impl View for WorkspaceOutcome {
    type V = WorkspaceOutcomeView;

    open spec fn view(&self) -> WorkspaceOutcomeView {
        match self {
            WorkspaceOutcome::Failed(item) => WorkspaceOutcomeView::Failed(item@),
            WorkspaceOutcome::NotDirectory => WorkspaceOutcomeView::NotDirectory,
            WorkspaceOutcome::NotUtf8 => WorkspaceOutcomeView::NotUtf8,
            WorkspaceOutcome::Directory(item) => WorkspaceOutcomeView::Directory(item@),
        }
    }
}

impl Clone for WorkspaceOutcome {
    fn clone(&self) -> (r: Self)
        ensures
            r@ == self@,
    {
        let r = match self {
            WorkspaceOutcome::Failed(item) => WorkspaceOutcome::Failed(item.clone()),
            WorkspaceOutcome::NotDirectory => WorkspaceOutcome::NotDirectory,
            WorkspaceOutcome::NotUtf8 => WorkspaceOutcome::NotUtf8,
            WorkspaceOutcome::Directory(item) => WorkspaceOutcome::Directory(item.clone()),
        };
        assert(r@ =~~= self@);
        r
    }
}

/// The canonical workspace, or why a path does not lead to one.
pub open spec fn canonical(outcome: WorkspaceOutcomeView) -> Result<Text, RegistryErrorView> {
    match outcome {
        WorkspaceOutcomeView::Failed(error) => Err(RegistryErrorView::Workspace(error)),
        WorkspaceOutcomeView::NotDirectory => Err(
            RegistryErrorView::InvalidWorkspace("workspace must be a directory"@),
        ),
        WorkspaceOutcomeView::NotUtf8 => Err(
            RegistryErrorView::InvalidWorkspace("workspace must be UTF-8"@),
        ),
        WorkspaceOutcomeView::Directory(path) => Ok(path),
    }
}

/// The canonical workspace, or why a path does not lead to one.
pub fn canonical_workspace(outcome: WorkspaceOutcome) -> (r: Result<String, RegistryError>)
    ensures
        match canonical(outcome@) {
            Ok(path) => r matches Ok(found) && found@ == path,
            Err(fault) => r matches Err(error) && error@ == fault,
        },
{
    match outcome {
        WorkspaceOutcome::Failed(error) => Err(RegistryError::Workspace(error)),
        WorkspaceOutcome::NotDirectory => Err(
            RegistryError::InvalidWorkspace("workspace must be a directory".to_owned()),
        ),
        WorkspaceOutcome::NotUtf8 => Err(
            RegistryError::InvalidWorkspace("workspace must be UTF-8".to_owned()),
        ),
        WorkspaceOutcome::Directory(path) => Ok(path),
    }
}

/// How many fresh ids are tried before a session is given up.
pub const MAX_ID_ATTEMPTS: u32 = 4;

/// The attempts to find an id that is not taken.
#[derive(Debug)]
pub struct IdAttempts {
    pub made: u32,
}

impl IdAttempts {
    pub fn new() -> (r: IdAttempts)
        ensures
            r.made == 0,
    {
        IdAttempts { made: 0 }
    }

    /// The next id to try for a session of `workspace`. There are at most
    /// [`MAX_ID_ATTEMPTS`].
    pub fn next(&mut self, workspace: &str) -> (r: Result<String, RegistryError>)
        ensures
            old(self).made >= MAX_ID_ATTEMPTS ==> final(self).made == old(self).made && (
            r matches Err(error) && error@ == RegistryErrorView::InvalidMetadata(
                "could not allocate a unique session ID"@,
            )),
            old(self).made < MAX_ID_ATTEMPTS ==> final(self).made == old(self).made + 1,
            old(self).made < MAX_ID_ATTEMPTS ==> (r matches Ok(id) ==> is_session_id(id@) && exists|
                random: Seq<u8>,
            |
                random.len() == 4 && id@ == #[trigger] session_id_of(workspace@, random)),
            old(self).made < MAX_ID_ATTEMPTS ==> (r matches Err(error) ==> exists|fault: Text|
                error@ == RegistryErrorView::InvalidMetadata(
                    #[trigger] ("could not generate a session ID: "@ + fault),
                )),
    {
        if self.made >= MAX_ID_ATTEMPTS {
            return Err(
                RegistryError::InvalidMetadata("could not allocate a unique session ID".to_owned()),
            );
        }
        self.made = self.made + 1;
        unique_session_id(workspace)
    }
}

/// The content of an [`OpenRequest`].
#[verifier::ext_equal]
pub enum OpenRequestView {
    Bind { meta: PersistedSessionView, allow_create: bool },
    Existing(Text),
}

/// How a session is opened: bound to the workspace of `meta`, created if that
/// is allowed and it is missing, or found by its id.
#[derive(Debug, Eq, PartialEq)]
pub enum OpenRequest {
    Bind { meta: PersistedSession, allow_create: bool },
    Existing(String),
}

impl View for OpenRequest {
    type V = OpenRequestView;

    open spec fn view(&self) -> OpenRequestView {
        match self {
            OpenRequest::Bind { meta, allow_create } => OpenRequestView::Bind {
                meta: meta@,
                allow_create: *allow_create,
            },
            OpenRequest::Existing(item) => OpenRequestView::Existing(item@),
        }
    }
}

impl Clone for OpenRequest {
    fn clone(&self) -> (r: Self)
        ensures
            r@ == self@,
    {
        let r = match self {
            OpenRequest::Bind { meta, allow_create } => OpenRequest::Bind {
                meta: meta.clone(),
                allow_create: *allow_create,
            },
            OpenRequest::Existing(item) => OpenRequest::Existing(item.clone()),
        };
        assert(r@ =~~= self@);
        r
    }
}

/// The content of an [`OpenAction`].
#[verifier::ext_equal]
pub enum OpenActionView {
    ReadMetadata(Text),
    CreateDirectory(Text),
    SaveMetadata(PersistedSessionView),
    ResolveWorkspace(Text),
    CreateAgent(Text),
    OpenLog(Text),
}

/// What opening a session asks for: reading, creating or writing what is kept
/// under its id, resolving its workspace, creating its agent, opening its log.
#[derive(Debug, Eq, PartialEq)]
pub enum OpenAction {
    ReadMetadata(String),
    CreateDirectory(String),
    SaveMetadata(PersistedSession),
    ResolveWorkspace(String),
    CreateAgent(String),
    OpenLog(String),
}

impl View for OpenAction {
    type V = OpenActionView;

    open spec fn view(&self) -> OpenActionView {
        match self {
            OpenAction::ReadMetadata(item) => OpenActionView::ReadMetadata(item@),
            OpenAction::CreateDirectory(item) => OpenActionView::CreateDirectory(item@),
            OpenAction::SaveMetadata(item) => OpenActionView::SaveMetadata(item@),
            OpenAction::ResolveWorkspace(item) => OpenActionView::ResolveWorkspace(item@),
            OpenAction::CreateAgent(item) => OpenActionView::CreateAgent(item@),
            OpenAction::OpenLog(item) => OpenActionView::OpenLog(item@),
        }
    }
}

impl Clone for OpenAction {
    fn clone(&self) -> (r: Self)
        ensures
            r@ == self@,
    {
        let r = match self {
            OpenAction::ReadMetadata(item) => OpenAction::ReadMetadata(item.clone()),
            OpenAction::CreateDirectory(item) => OpenAction::CreateDirectory(item.clone()),
            OpenAction::SaveMetadata(item) => OpenAction::SaveMetadata(item.clone()),
            OpenAction::ResolveWorkspace(item) => OpenAction::ResolveWorkspace(item.clone()),
            OpenAction::CreateAgent(item) => OpenAction::CreateAgent(item.clone()),
            OpenAction::OpenLog(item) => OpenAction::OpenLog(item.clone()),
        };
        assert(r@ =~~= self@);
        r
    }
}

/// The content of an [`OpenOutcome`].
#[verifier::ext_equal]
pub enum OpenOutcomeView {
    Metadata(PersistedSessionView),
    Malformed(Text),
    Missing,
    Failed(Text),
    Done,
    Workspace(WorkspaceOutcomeView),
    LogFailed(SessionErrorView),
}

/// How it went. `Malformed` is metadata that does not decode or encode.
#[derive(Debug, Eq, PartialEq)]
pub enum OpenOutcome {
    Metadata(PersistedSession),
    Malformed(String),
    Missing,
    Failed(String),
    Done,
    Workspace(WorkspaceOutcome),
    LogFailed(SessionError),
}

impl View for OpenOutcome {
    type V = OpenOutcomeView;

    open spec fn view(&self) -> OpenOutcomeView {
        match self {
            OpenOutcome::Metadata(item) => OpenOutcomeView::Metadata(item@),
            OpenOutcome::Malformed(item) => OpenOutcomeView::Malformed(item@),
            OpenOutcome::Missing => OpenOutcomeView::Missing,
            OpenOutcome::Failed(item) => OpenOutcomeView::Failed(item@),
            OpenOutcome::Done => OpenOutcomeView::Done,
            OpenOutcome::Workspace(item) => OpenOutcomeView::Workspace(item@),
            OpenOutcome::LogFailed(item) => OpenOutcomeView::LogFailed(item@),
        }
    }
}

impl Clone for OpenOutcome {
    fn clone(&self) -> (r: Self)
        ensures
            r@ == self@,
    {
        let r = match self {
            OpenOutcome::Metadata(item) => OpenOutcome::Metadata(item.clone()),
            OpenOutcome::Malformed(item) => OpenOutcome::Malformed(item.clone()),
            OpenOutcome::Missing => OpenOutcome::Missing,
            OpenOutcome::Failed(item) => OpenOutcome::Failed(item.clone()),
            OpenOutcome::Done => OpenOutcome::Done,
            OpenOutcome::Workspace(item) => OpenOutcome::Workspace(item.clone()),
            OpenOutcome::LogFailed(item) => OpenOutcome::LogFailed(item.clone()),
        };
        assert(r@ =~~= self@);
        r
    }
}

/// The content of an [`OpenPhase`].
#[verifier::ext_equal]
pub enum OpenPhaseView {
    ReadingMetadata,
    CreatingDirectory,
    SavingMetadata,
    ResolvingWorkspace,
    CreatingAgent,
    OpeningLog,
    Opened,
    Refused(RegistryErrorView),
}

/// What opening a session waits for.
#[derive(Debug, Eq, PartialEq)]
pub enum OpenPhase {
    ReadingMetadata,
    CreatingDirectory,
    SavingMetadata,
    ResolvingWorkspace,
    CreatingAgent,
    OpeningLog,
    Opened,
    Refused(RegistryError),
}

impl View for OpenPhase {
    type V = OpenPhaseView;

    open spec fn view(&self) -> OpenPhaseView {
        match self {
            OpenPhase::ReadingMetadata => OpenPhaseView::ReadingMetadata,
            OpenPhase::CreatingDirectory => OpenPhaseView::CreatingDirectory,
            OpenPhase::SavingMetadata => OpenPhaseView::SavingMetadata,
            OpenPhase::ResolvingWorkspace => OpenPhaseView::ResolvingWorkspace,
            OpenPhase::CreatingAgent => OpenPhaseView::CreatingAgent,
            OpenPhase::OpeningLog => OpenPhaseView::OpeningLog,
            OpenPhase::Opened => OpenPhaseView::Opened,
            OpenPhase::Refused(item) => OpenPhaseView::Refused(item@),
        }
    }
}

impl Clone for OpenPhase {
    fn clone(&self) -> (r: Self)
        ensures
            r@ == self@,
    {
        let r = match self {
            OpenPhase::ReadingMetadata => OpenPhase::ReadingMetadata,
            OpenPhase::CreatingDirectory => OpenPhase::CreatingDirectory,
            OpenPhase::SavingMetadata => OpenPhase::SavingMetadata,
            OpenPhase::ResolvingWorkspace => OpenPhase::ResolvingWorkspace,
            OpenPhase::CreatingAgent => OpenPhase::CreatingAgent,
            OpenPhase::OpeningLog => OpenPhase::OpeningLog,
            OpenPhase::Opened => OpenPhase::Opened,
            OpenPhase::Refused(item) => OpenPhase::Refused(item.clone()),
        };
        assert(r@ =~~= self@);
        r
    }
}

/// The content of an [`OpenJob`].
#[verifier::ext_equal]
pub struct OpenJobView {
    pub request: OpenRequestView,
    pub meta: PersistedSessionView,
    pub phase: OpenPhaseView,
}

/// The state of opening one session. `meta` is its metadata as far as known.
#[derive(Debug)]
pub struct OpenJob {
    pub request: OpenRequest,
    pub meta: PersistedSession,
    pub phase: OpenPhase,
}

impl View for OpenJob {
    type V = OpenJobView;

    open spec fn view(&self) -> OpenJobView {
        OpenJobView {
            request: self.request@,
            meta: self.meta@,
            phase: self.phase@,
        }
    }
}

/// The identity of a session.
pub open spec fn info_of(meta: PersistedSessionView) -> SessionInfoView {
    SessionInfoView { id: meta.id, workspace: meta.workspace }
}

impl OpenJobView {
    pub open spec fn refused(self, error: RegistryErrorView) -> (OpenJobView, Option<OpenActionView>) {
        (OpenJobView { phase: OpenPhaseView::Refused(error), ..self }, None)
    }

    pub open spec fn asking(self, phase: OpenPhaseView, action: OpenActionView) -> (
        OpenJobView,
        Option<OpenActionView>,
    ) {
        (OpenJobView { phase, ..self }, Some(action))
    }

    pub open spec fn with_meta(self, meta: PersistedSessionView) -> OpenJobView {
        OpenJobView { meta, ..self }
    }

    /// Stamps the metadata with the time of opening and writes it back.
    pub open spec fn stamped(self, now: u64) -> (OpenJobView, Option<OpenActionView>) {
        let meta = PersistedSessionView { last_opened_ms: now, ..self.meta };
        self.with_meta(meta).asking(
            OpenPhaseView::SavingMetadata,
            OpenActionView::SaveMetadata(meta),
        )
    }

    /// The transition of opening a session on the outcome of what was last
    /// asked for. An outcome that does not belong to it changes nothing.
    pub open spec fn step(self, outcome: OpenOutcomeView, now: u64) -> (
        OpenJobView,
        Option<OpenActionView>,
    ) {
        match (self.phase, outcome) {
            (OpenPhaseView::ReadingMetadata, OpenOutcomeView::Malformed(error)) => self.refused(
                RegistryErrorView::InvalidMetadata(error),
            ),
            (OpenPhaseView::ReadingMetadata, OpenOutcomeView::Failed(error)) => self.refused(
                RegistryErrorView::Io(error),
            ),
            (OpenPhaseView::ReadingMetadata, OpenOutcomeView::Missing) => match self.request {
                OpenRequestView::Bind { allow_create: true, .. } => self.asking(
                    OpenPhaseView::CreatingDirectory,
                    OpenActionView::CreateDirectory(self.meta.id),
                ),
                _ => self.refused(RegistryErrorView::NotFound(self.meta.id)),
            },
            (OpenPhaseView::ReadingMetadata, OpenOutcomeView::Metadata(persisted)) => match self.request {
                OpenRequestView::Bind { .. } => if persisted.id != self.meta.id
                    || persisted.workspace != self.meta.workspace {
                    self.refused(
                        RegistryErrorView::InvalidMetadata(
                            "session metadata does not match its workspace binding"@,
                        ),
                    )
                } else {
                    self.with_meta(persisted).stamped(now)
                },
                OpenRequestView::Existing(id) => if persisted.id != id {
                    self.refused(
                        RegistryErrorView::InvalidMetadata(
                            "session metadata ID "@ + debug_form(persisted.id)
                                + " does not match "@ + debug_form(id),
                        ),
                    )
                } else {
                    self.with_meta(persisted).asking(
                        OpenPhaseView::CreatingAgent,
                        OpenActionView::CreateAgent(persisted.workspace),
                    )
                },
            },
            (OpenPhaseView::CreatingDirectory, OpenOutcomeView::Failed(error)) => self.refused(
                RegistryErrorView::Io(error),
            ),
            (OpenPhaseView::CreatingDirectory, OpenOutcomeView::Done) => self.with_meta(
                PersistedSessionView {
                    created_at_ms: if self.meta.created_at_ms == 0 {
                        now
                    } else {
                        self.meta.created_at_ms
                    },
                    ..self.meta
                },
            ).stamped(now),
            (OpenPhaseView::SavingMetadata, OpenOutcomeView::Malformed(error)) => self.refused(
                RegistryErrorView::InvalidMetadata(error),
            ),
            (OpenPhaseView::SavingMetadata, OpenOutcomeView::Failed(error)) => self.refused(
                RegistryErrorView::Io(error),
            ),
            (OpenPhaseView::SavingMetadata, OpenOutcomeView::Done) => self.asking(
                OpenPhaseView::ResolvingWorkspace,
                OpenActionView::ResolveWorkspace(self.meta.workspace),
            ),
            (OpenPhaseView::ResolvingWorkspace, OpenOutcomeView::Workspace(resolved)) => match canonical(
                resolved,
            ) {
                Ok(path) => self.asking(
                    OpenPhaseView::CreatingAgent,
                    OpenActionView::CreateAgent(path),
                ),
                Err(RegistryErrorView::InvalidWorkspace(message)) => self.refused(
                    RegistryErrorView::InvalidMetadata(message),
                ),
                Err(error) => self.refused(error),
            },
            (OpenPhaseView::CreatingAgent, OpenOutcomeView::Failed(error)) => self.refused(
                RegistryErrorView::Agent(error),
            ),
            (OpenPhaseView::CreatingAgent, OpenOutcomeView::Done) => self.asking(
                OpenPhaseView::OpeningLog,
                OpenActionView::OpenLog(self.meta.id),
            ),
            (OpenPhaseView::OpeningLog, OpenOutcomeView::LogFailed(error)) => self.refused(
                RegistryErrorView::Session(error),
            ),
            (OpenPhaseView::OpeningLog, OpenOutcomeView::Done) => (
                OpenJobView { phase: OpenPhaseView::Opened, ..self },
                None,
            ),
            _ => (self, None),
        }
    }
}

impl OpenJob {
    fn refuse(&mut self, error: RegistryError)
        ensures
            final(self)@ == old(self)@.refused(error@).0,
    {
        self.phase = OpenPhase::Refused(error);
    }

    fn stamp(&mut self, now: u64) -> (r: Option<OpenAction>)
        ensures
            old(self)@.stamped(now) == (final(self)@, opt_view(r)),
    {
        self.meta.last_opened_ms = now;
        self.phase = OpenPhase::SavingMetadata;
        Some(OpenAction::SaveMetadata(self.meta.clone()))
    }

    /// Takes the outcome of what was last asked for and returns what is asked
    /// for next, if anything.
    pub fn step(&mut self, outcome: OpenOutcome, now: u64) -> (r: Option<OpenAction>)
        ensures
            old(self)@.step(outcome@, now) == (final(self)@, opt_view(r)),
    {
        let mut phase = OpenPhase::ReadingMetadata;
        core::mem::swap(&mut self.phase, &mut phase);
        match (phase, outcome) {
            (OpenPhase::ReadingMetadata, OpenOutcome::Malformed(error)) => {
                self.refuse(RegistryError::InvalidMetadata(error));
                None
            },
            (OpenPhase::ReadingMetadata, OpenOutcome::Failed(error)) => {
                self.refuse(RegistryError::Io(error));
                None
            },
            (OpenPhase::ReadingMetadata, OpenOutcome::Missing) => {
                let creates = match &self.request {
                    OpenRequest::Bind { allow_create, .. } => *allow_create,
                    _ => false,
                };
                if creates {
                    self.phase = OpenPhase::CreatingDirectory;
                    Some(OpenAction::CreateDirectory(self.meta.id.clone()))
                } else {
                    let id = self.meta.id.clone();
                    self.refuse(RegistryError::NotFound(id));
                    None
                }
            },
            (OpenPhase::ReadingMetadata, OpenOutcome::Metadata(persisted)) => {
                let mismatch = match &self.request {
                    OpenRequest::Bind { .. } => {
                        if !same(&persisted.id, &self.meta.id) || !same(
                            &persisted.workspace,
                            &self.meta.workspace,
                        ) {
                            Some("session metadata does not match its workspace binding".to_owned())
                        } else {
                            None
                        }
                    },
                    OpenRequest::Existing(id) => {
                        if !same(&persisted.id, id) {
                            let head = concat3(
                                "session metadata ID ",
                                &debug_text(&persisted.id),
                                " does not match ",
                            );
                            Some(concat(&head, &debug_text(id)))
                        } else {
                            None
                        }
                    },
                };
                if let Some(text) = mismatch {
                    self.refuse(RegistryError::InvalidMetadata(text));
                    return None;
                }
                let binds = match &self.request {
                    OpenRequest::Bind { .. } => true,
                    _ => false,
                };
                self.meta = persisted;
                if binds {
                    self.stamp(now)
                } else {
                    self.phase = OpenPhase::CreatingAgent;
                    Some(OpenAction::CreateAgent(self.meta.workspace.clone()))
                }
            },
            (OpenPhase::CreatingDirectory, OpenOutcome::Failed(error)) => {
                self.refuse(RegistryError::Io(error));
                None
            },
            (OpenPhase::CreatingDirectory, OpenOutcome::Done) => {
                if self.meta.created_at_ms == 0 {
                    self.meta.created_at_ms = now;
                }
                self.stamp(now)
            },
            (OpenPhase::SavingMetadata, OpenOutcome::Malformed(error)) => {
                self.refuse(RegistryError::InvalidMetadata(error));
                None
            },
            (OpenPhase::SavingMetadata, OpenOutcome::Failed(error)) => {
                self.refuse(RegistryError::Io(error));
                None
            },
            (OpenPhase::SavingMetadata, OpenOutcome::Done) => {
                self.phase = OpenPhase::ResolvingWorkspace;
                Some(OpenAction::ResolveWorkspace(self.meta.workspace.clone()))
            },
            (OpenPhase::ResolvingWorkspace, OpenOutcome::Workspace(resolved)) => {
                match canonical_workspace(resolved) {
                    Ok(path) => {
                        self.phase = OpenPhase::CreatingAgent;
                        Some(OpenAction::CreateAgent(path))
                    },
                    Err(RegistryError::InvalidWorkspace(message)) => {
                        self.refuse(RegistryError::InvalidMetadata(message));
                        None
                    },
                    Err(error) => {
                        self.refuse(error);
                        None
                    },
                }
            },
            (OpenPhase::CreatingAgent, OpenOutcome::Failed(error)) => {
                self.refuse(RegistryError::Agent(error));
                None
            },
            (OpenPhase::CreatingAgent, OpenOutcome::Done) => {
                self.phase = OpenPhase::OpeningLog;
                Some(OpenAction::OpenLog(self.meta.id.clone()))
            },
            (OpenPhase::OpeningLog, OpenOutcome::LogFailed(error)) => {
                self.refuse(RegistryError::Session(error));
                None
            },
            (OpenPhase::OpeningLog, OpenOutcome::Done) => {
                self.phase = OpenPhase::Opened;
                None
            },
            (phase, _) => {
                self.phase = phase;
                None
            },
        }
    }
}

/// The sessions that are open, by id.
#[derive(Debug)]
pub struct SessionRegistry {
    pub open: Table<PersistedSession>,
}

/// What becomes of a request to open a session: refused, already open, or
/// begun.
#[derive(Debug)]
pub enum Opening {
    Refused(RegistryError),
    AlreadyOpen(SessionInfo),
    Begun(OpenJob, OpenAction),
}

impl OpenRequestView {
    pub open spec fn id(self) -> Text {
        match self {
            OpenRequestView::Bind { meta, .. } => meta.id,
            OpenRequestView::Existing(id) => id,
        }
    }

    /// The metadata that the opening of a session starts from.
    pub open spec fn first_meta(self) -> PersistedSessionView {
        match self {
            OpenRequestView::Bind { meta, .. } => meta,
            OpenRequestView::Existing(id) => PersistedSessionView {
                id,
                workspace: seq![],
                created_at_ms: 0,
                last_opened_ms: 0,
            },
        }
    }
}

/// The open sessions as a map from ids to metadata.
pub open spec fn open_sessions(open: Seq<(Text, PersistedSession)>) -> Map<Text, PersistedSessionView> {
    Map::new(|id: Text| has_key(open, id), |id: Text| value_of(open, id)@)
}

proof fn open_sessions_after_put(
    before: Seq<(Text, PersistedSession)>,
    after: Seq<(Text, PersistedSession)>,
    id: Text,
    meta: PersistedSession,
)
    requires
        as_map(after) == as_map(before).insert(id, meta),
    ensures
        open_sessions(after) == open_sessions(before).insert(id, meta@),
{
    assert forall|other: Text| #[trigger] has_key(after, other) == (has_key(before, other) || other
        == id) by {
        assert(as_map(after).dom().contains(other) == has_key(after, other));
        assert(as_map(before).dom().contains(other) == has_key(before, other));
    }
    assert forall|other: Text| has_key(after, other) implies #[trigger] value_of(after, other)
        == if other == id {
        meta
    } else {
        value_of(before, other)
    } by {
        assert(as_map(after)[other] == value_of(after, other));
        if other != id {
            assert(as_map(before)[other] == value_of(before, other));
        }
    }
    assert(open_sessions(after) =~= open_sessions(before).insert(id, meta@));
}

impl SessionRegistry {
    pub fn new() -> (r: SessionRegistry)
        ensures
            r.open@.len() == 0,
    {
        SessionRegistry { open: Table::new() }
    }

    /// Begins to open a session. An id that is none is refused before anything
    /// is read; a session that is open is handed out as it is, and binding to
    /// it stamps the time.
    pub fn begin(&mut self, request: OpenRequest, now: u64) -> (r: Opening)
        ensures
            ({
                let before = open_sessions(old(self).open@);
                let after = open_sessions(final(self).open@);
                let id = request@.id();
                if !is_session_id(id) {
                    after == before && (r matches Opening::Refused(error) && error@
                        == RegistryErrorView::InvalidSessionId(id))
                } else if before.dom().contains(id) {
                    &&& r matches Opening::AlreadyOpen(info) && info@ == info_of(before[id])
                    &&& after == if request@ is Bind {
                        before.insert(
                            id,
                            PersistedSessionView { last_opened_ms: now, ..before[id] },
                        )
                    } else {
                        before
                    }
                } else {
                    &&& after == before
                    &&& r matches Opening::Begun(job, action) && job@ == (OpenJobView {
                        request: request@,
                        meta: request@.first_meta(),
                        phase: OpenPhaseView::ReadingMetadata,
                    }) && action@ == OpenActionView::ReadMetadata(id)
                }
            }),
    {
        let id = match &request {
            OpenRequest::Bind { meta, .. } => meta.id.clone(),
            OpenRequest::Existing(id) => id.clone(),
        };
        if let Err(error) = validate_session_id(&id) {
            return Opening::Refused(error);
        }
        let binds = match &request {
            OpenRequest::Bind { .. } => true,
            _ => false,
        };
        let known = match self.open.get(&id) {
            Some(meta) => Some(meta.clone()),
            None => None,
        };
        match known {
            Some(meta) => {
                let info = SessionInfo { id: meta.id.clone(), workspace: meta.workspace.clone() };
                if binds {
                    let ghost before = self.open@;
                    let mut meta = meta;
                    meta.last_opened_ms = now;
                    self.open.put(id.clone(), meta);
                    proof {
                        open_sessions_after_put(before, self.open@, id@, meta);
                    }
                }
                Opening::AlreadyOpen(info)
            },
            None => {
                let meta = match &request {
                    OpenRequest::Bind { meta, .. } => meta.clone(),
                    OpenRequest::Existing(id) => PersistedSession {
                        id: id.clone(),
                        workspace: String::new(),
                        created_at_ms: 0,
                        last_opened_ms: 0,
                    },
                };
                let job = OpenJob { request, meta, phase: OpenPhase::ReadingMetadata };
                Opening::Begun(job, OpenAction::ReadMetadata(id))
            },
        }
    }

    /// Ends the opening of a session: registers it if it was opened, and says
    /// what came of it.
    pub fn conclude(&mut self, job: OpenJob) -> (r: Result<SessionInfo, RegistryError>)
        requires
            job@.phase is Opened || job@.phase is Refused,
        ensures
            match job@.phase {
                OpenPhaseView::Refused(error) => open_sessions(final(self).open@) == open_sessions(
                    old(self).open@,
                ) && (r matches Err(fault) && fault@ == error),
                _ => open_sessions(final(self).open@) == open_sessions(old(self).open@).insert(
                    job@.meta.id,
                    job@.meta,
                ) && (r matches Ok(info) && info@ == info_of(job@.meta)),
            },
    {
        match job.phase {
            OpenPhase::Refused(error) => Err(error),
            _ => {
                let info = SessionInfo {
                    id: job.meta.id.clone(),
                    workspace: job.meta.workspace.clone(),
                };
                let ghost before = self.open@;
                let id = job.meta.id.clone();
                self.open.put(id, job.meta);
                proof {
                    open_sessions_after_put(before, self.open@, job@.meta.id, job.meta);
                }
                Ok(info)
            },
        }
    }

    /// The metadata of the open sessions.
    pub fn in_memory(&self) -> (r: Vec<PersistedSession>)
        ensures
            r@.len() == self.open@.len(),
            forall|i: int| 0 <= i < r@.len() ==> (#[trigger] r@[i])@ == self.open@[i].1@,
    {
        let mut out: Vec<PersistedSession> = Vec::new();
        let mut i: usize = 0;
        let total: usize = self.open.len();
        while i < total
            invariant
                total == self.open@.len(),
                i <= total,
                out@.len() == i,
                forall|k: int| 0 <= k < i ==> (#[trigger] out@[k])@ == self.open@[k].1@,
            decreases total - i,
        {
            out.push(self.open.value(i).clone());
            i += 1;
        }
        out
    }
}

/// The state and the next action of opening a session after a sequence of
/// timed outcomes.
pub open spec fn open_trace(request: OpenRequestView, outcomes: Seq<(OpenOutcomeView, u64)>) -> (
    OpenJobView,
    Option<OpenActionView>,
)
    decreases outcomes.len(),
{
    if outcomes.len() == 0 {
        (
            OpenJobView {
                request,
                meta: request.first_meta(),
                phase: OpenPhaseView::ReadingMetadata,
            },
            Some(OpenActionView::ReadMetadata(request.id())),
        )
    } else {
        open_trace(request, outcomes.drop_last()).0.step(
            outcomes.last().0,
            outcomes.last().1,
        )
    }
}

/// The identity of a session never changes: whatever is found on disk, a
/// session is opened under the id that was asked for, and one that is bound to
/// a workspace only if its metadata names the same workspace. Finding a session
/// by its id leaves its metadata alone.
pub proof fn identity_is_immutable(
    request: OpenRequestView,
    outcomes: Seq<(OpenOutcomeView, u64)>,
)
    ensures
        ({
            let (job, action) = open_trace(request, outcomes);
            &&& job.request == request
            &&& job.meta.id == request.id()
            &&& request matches OpenRequestView::Bind { meta, .. } ==> job.meta.workspace
                == meta.workspace
            &&& request is Existing ==> !(action is Some && action->0 is SaveMetadata) && !(
            job.phase is SavingMetadata) && !(job.phase is CreatingDirectory)
        }),
    decreases outcomes.len(),
{
    if outcomes.len() > 0 {
        identity_is_immutable(request, outcomes.drop_last());
    }
}

/// The tools of a session work in its own workspace: its agent is created for the
/// workspace that its metadata names, or for what that resolved to, and its log is
/// opened under its own id.
pub proof fn agents_work_in_their_own_workspace(
    request: OpenRequestView,
    outcomes: Seq<(OpenOutcomeView, u64)>,
    outcome: OpenOutcomeView,
    now: u64,
    workspace: Text,
    id: Text,
)
    ensures
        ({
            let (job, _) = open_trace(request, outcomes);
            let action = job.step(outcome, now).1;
            &&& action == Some(OpenActionView::CreateAgent(workspace)) ==> match request {
                OpenRequestView::Existing(_) => outcome matches OpenOutcomeView::Metadata(stored)
                    && stored.id == request.id() && stored.workspace == workspace,
                OpenRequestView::Bind { .. } => outcome == OpenOutcomeView::Workspace(
                    WorkspaceOutcomeView::Directory(workspace),
                ) && job.phase is ResolvingWorkspace,
            }
            &&& action == Some(OpenActionView::ResolveWorkspace(workspace)) ==> workspace
                == job.meta.workspace
            &&& action == Some(OpenActionView::OpenLog(id)) ==> id == request.id()
        }),
{
    identity_is_immutable(request, outcomes);
    never_resolves_existing(request, outcomes);
}

/// An existing session is opened where it is: its workspace is not resolved again.
proof fn never_resolves_existing(request: OpenRequestView, outcomes: Seq<(OpenOutcomeView, u64)>)
    ensures
        request is Existing ==> !(open_trace(request, outcomes).0.phase is ResolvingWorkspace)
            && !(open_trace(request, outcomes).0.phase is SavingMetadata) && !(open_trace(
            request,
            outcomes,
        ).0.phase is CreatingDirectory),
    decreases outcomes.len(),
{
    identity_is_immutable(request, outcomes);
    if outcomes.len() > 0 {
        identity_is_immutable(request, outcomes.drop_last());
        never_resolves_existing(request, outcomes.drop_last());
    }
}

/// The sessions of a workspace are all those that name it, in their order, and no
/// others.
pub proof fn workspaces_keep_their_sessions(
    copies: Seq<PersistedSessionView>,
    more: Seq<PersistedSessionView>,
    workspace: Text,
)
    ensures
        bound_to(copies + more, workspace) == bound_to(copies, workspace) + bound_to(
            more,
            workspace,
        ),
        (forall|i: int| 0 <= i < copies.len() ==> (#[trigger] copies[i]).workspace == workspace)
            ==> bound_to(copies, workspace) == copies,
        (forall|i: int| 0 <= i < copies.len() ==> (#[trigger] copies[i]).workspace != workspace)
            ==> bound_to(copies, workspace).len() == 0,
        forall|i: int|
            0 <= i < copies.len() && (#[trigger] copies[i]).workspace == workspace ==> bound_to(
                copies,
                workspace,
            ).contains(copies[i]),
        forall|k: int|
            0 <= k < bound_to(copies, workspace).len() ==> copies.contains(
                #[trigger] bound_to(copies, workspace)[k],
            ) && bound_to(copies, workspace)[k].workspace == workspace,
    decreases copies.len() + more.len(),
{
    let bound = bound_to(copies, workspace);
    if more.len() > 0 {
        workspaces_keep_their_sessions(copies, more.drop_last(), workspace);
        assert((copies + more).drop_last() =~= copies + more.drop_last());
        assert(bound_to(copies + more, workspace) =~= bound + bound_to(more, workspace));
    } else {
        assert(copies + more =~= copies);
        assert(bound + bound_to(more, workspace) =~= bound);
        if copies.len() > 0 {
            let front = copies.drop_last();
            workspaces_keep_their_sessions(front, more, workspace);
            let before = bound_to(front, workspace);
            assert forall|i: int| 0 <= i < front.len() implies #[trigger] front[i]
                == copies[i] by {}
            assert(front.push(copies.last()) =~= copies);
            if forall|i: int|
                0 <= i < copies.len() ==> (#[trigger] copies[i]).workspace == workspace {
                assert forall|i: int| 0 <= i < front.len() implies (#[trigger] front[i]).workspace
                    == workspace by {
                    assert(copies[i].workspace == workspace);
                }
                assert(copies[copies.len() - 1].workspace == workspace);
            }
            if forall|i: int|
                0 <= i < copies.len() ==> (#[trigger] copies[i]).workspace != workspace {
                assert forall|i: int| 0 <= i < front.len() implies (#[trigger] front[i]).workspace
                    != workspace by {
                    assert(copies[i].workspace != workspace);
                }
                assert(copies[copies.len() - 1].workspace != workspace);
            }
            assert forall|i: int|
                0 <= i < copies.len() && (#[trigger] copies[i]).workspace
                    == workspace implies bound.contains(copies[i]) by {
                if i < front.len() {
                    assert(front[i].workspace == workspace);
                    assert(before.contains(front[i]));
                    let k = choose|k: int| 0 <= k < before.len() && before[k] == front[i];
                    assert(bound[k] == copies[i]);
                } else {
                    assert(bound.last() == copies[i]);
                }
            }
            assert forall|k: int| 0 <= k < bound.len() implies copies.contains(
                #[trigger] bound[k],
            ) && bound[k].workspace == workspace by {
                if k < before.len() {
                    assert(bound[k] == before[k]);
                    assert(front.contains(before[k]));
                    let i = choose|i: int| 0 <= i < front.len() && front[i] == before[k];
                    assert(copies[i] == bound[k]);
                } else {
                    assert(bound[k] == copies[copies.len() - 1]);
                }
            }
        }
    }
}

/// What a picker shows of a workspace: the latest opened session first, no session
/// twice, each with the times of a copy that was found for this workspace, and none
/// that was opened later left out.
pub proof fn pickers_show_the_latest(
    workspace: Text,
    on_disk: Seq<PersistedSessionView>,
    in_memory: Seq<PersistedSessionView>,
    sessions: Seq<SessionSummaryView>,
)
    requires
        lists(bound_to(on_disk, workspace) + bound_to(in_memory, workspace), sessions),
    ensures
        forall|i: int, j: int|
            0 <= i < j < sessions.len() ==> (#[trigger] sessions[i]).last_opened_ms >= (
            #[trigger] sessions[j]).last_opened_ms && sessions[i].id != sessions[j].id,
        forall|k: int|
            0 <= k < sessions.len() ==> exists|copy: PersistedSessionView|
                (on_disk.contains(copy) || in_memory.contains(copy)) && copy.workspace == workspace
                    && (#[trigger] sessions[k]) == (#[trigger] summary_of(copy)) && sessions[k].id
                    == copy.id && sessions[k].created_at_ms == copy.created_at_ms
                    && sessions[k].last_opened_ms == copy.last_opened_ms,
        forall|copy: PersistedSessionView|
            (#[trigger] on_disk.contains(copy) || in_memory.contains(copy)) && copy.workspace
                == workspace ==> exists|k: int|
                0 <= k < sessions.len() && (#[trigger] sessions[k]).id == copy.id
                    && sessions[k].last_opened_ms >= copy.last_opened_ms,
        forall|copy: PersistedSessionView|
            (on_disk.contains(copy) || #[trigger] in_memory.contains(copy)) && copy.workspace
                == workspace ==> exists|k: int|
                0 <= k < sessions.len() && (#[trigger] sessions[k]).id == copy.id
                    && sessions[k].last_opened_ms >= copy.last_opened_ms,
{
    broadcast use vstd::seq_lib::group_to_multiset_ensures;

    let first = bound_to(on_disk, workspace);
    let second = bound_to(in_memory, workspace);
    let copies = first + second;
    workspaces_keep_their_sessions(on_disk, seq![], workspace);
    workspaces_keep_their_sessions(in_memory, seq![], workspace);
    let merged = choose|merged: Seq<PersistedSessionView>| #[trigger]
        merges(copies, merged) && sessions.to_multiset() == summaries_of(merged).to_multiset();
    let rows = summaries_of(merged);
    rows_are_distinct(merged);
    rows.lemma_multiset_has_no_duplicates();
    sessions.lemma_multiset_has_no_duplicates_conv();
    assert forall|k: int| 0 <= k < sessions.len() implies exists|m: int|
        0 <= m < merged.len() && #[trigger] sessions[k] == rows[m] && freshest_among(
            copies,
            #[trigger] merged[m],
        ) by {
        assert(sessions.contains(sessions[k]));
        assert(rows.to_multiset().count(sessions[k]) > 0);
        assert(rows.contains(sessions[k]));
        let m = choose|m: int| 0 <= m < rows.len() && rows[m] == sessions[k];
        assert(freshest_among(copies, merged[m]));
    }
    assert forall|i: int, j: int| 0 <= i < j < sessions.len() implies (
    #[trigger] sessions[i]).last_opened_ms >= (#[trigger] sessions[j]).last_opened_ms
        && sessions[i].id != sessions[j].id by {
        let m = choose|m: int|
            0 <= m < merged.len() && sessions[i] == rows[m] && freshest_among(
                copies,
                #[trigger] merged[m],
            );
        let n = choose|n: int|
            0 <= n < merged.len() && sessions[j] == rows[n] && freshest_among(
                copies,
                #[trigger] merged[n],
            );
        assert(sessions[i] != sessions[j]);
    }
    assert forall|k: int| 0 <= k < sessions.len() implies exists|copy: PersistedSessionView|
        (on_disk.contains(copy) || in_memory.contains(copy)) && copy.workspace == workspace && (
        #[trigger] sessions[k]) == (#[trigger] summary_of(copy)) && sessions[k].id == copy.id
            && sessions[k].created_at_ms == copy.created_at_ms && sessions[k].last_opened_ms
            == copy.last_opened_ms by {
        let m = choose|m: int|
            0 <= m < merged.len() && sessions[k] == rows[m] && freshest_among(
                copies,
                #[trigger] merged[m],
            );
        let copy = merged[m];
        let c = choose|c: int|
            0 <= c < copies.len() && #[trigger] copies[c] == copy && is_freshest(copies, c);
        if c < first.len() {
            assert(first[c] == copy);
        } else {
            assert(second[c - first.len()] == copy);
        }
        assert(sessions[k] == summary_of(copy));
    }
    assert forall|copy: PersistedSessionView|
        (on_disk.contains(copy) || in_memory.contains(copy)) && copy.workspace
            == workspace implies exists|k: int|
        0 <= k < sessions.len() && (#[trigger] sessions[k]).id == copy.id
            && sessions[k].last_opened_ms >= copy.last_opened_ms by {
        if on_disk.contains(copy) {
            let i = choose|i: int| 0 <= i < on_disk.len() && on_disk[i] == copy;
            assert(on_disk[i].workspace == workspace);
            let b = choose|b: int| 0 <= b < first.len() && first[b] == copy;
            assert(copies[b] == copy);
        } else {
            let i = choose|i: int| 0 <= i < in_memory.len() && in_memory[i] == copy;
            assert(in_memory[i].workspace == workspace);
            let b = choose|b: int| 0 <= b < second.len() && second[b] == copy;
            assert(copies[first.len() + b] == copy);
        }
        let c = choose|c: int| 0 <= c < copies.len() && copies[c] == copy;
        assert(knows(merged, copies[c].id));
        let m = choose|m: int| 0 <= m < merged.len() && #[trigger] merged[m].id == copy.id;
        assert(freshest_among(copies, merged[m]));
        let f = choose|f: int|
            0 <= f < copies.len() && #[trigger] copies[f] == merged[m] && is_freshest(copies, f);
        assert(copies[c].id == copies[f].id);
        assert(rows.contains(rows[m]));
        assert(sessions.to_multiset().count(rows[m]) > 0);
        assert(sessions.contains(rows[m]));
        let k = choose|k: int| 0 <= k < sessions.len() && sessions[k] == rows[m];
        assert(sessions[k].id == copy.id);
    }
}

proof fn rows_are_distinct(merged: Seq<PersistedSessionView>)
    requires
        distinct_ids(merged),
    ensures
        summaries_of(merged).no_duplicates(),
{
    let rows = summaries_of(merged);
    assert forall|i: int, j: int|
        0 <= i < rows.len() && 0 <= j < rows.len() && i != j implies rows[i] != rows[j] by {
        assert(rows[i].id == merged[i].id && rows[j].id == merged[j].id);
        if i < j {
            assert(merged[i].id != merged[j].id);
        } else {
            assert(merged[j].id != merged[i].id);
        }
    }
}

proof fn hex_is_told_apart(a: Seq<u8>, b: Seq<u8>)
    requires
        a.len() == b.len(),
        hex(a) == hex(b),
    ensures
        a == b,
{
    assert forall|i: int| 0 <= i < a.len() implies a[i] == b[i] by {
        hex_is_read_back(a, i);
        hex_is_read_back(b, i);
    }
    assert(a =~= b);
}

/// An id tells where it comes from: two ids are the same only if the beginnings of
/// the digests and the random bytes are the same.
pub proof fn ids_are_told_apart(
    digest: Seq<u8>,
    random: Seq<u8>,
    other_digest: Seq<u8>,
    other_random: Seq<u8>,
)
    requires
        digest.len() >= 8,
        other_digest.len() >= 8,
        random.len() == 4,
        other_random.len() == 4,
        id_from(digest, random) == id_from(other_digest, other_random),
    ensures
        digest.take(8) == other_digest.take(8),
        random == other_random,
{
    reveal_strlit("session-");
    reveal_strlit("-");
    let head = hex(digest.take(8));
    let other_head = hex(other_digest.take(8));
    let tail = hex(random);
    let other_tail = hex(other_random);
    let id = id_from(digest, random);
    hex_is_a_group(digest.take(8));
    hex_is_a_group(other_digest.take(8));
    hex_is_a_group(random);
    hex_is_a_group(other_random);
    assert(id.subrange(8, 24) =~= head);
    assert(id.subrange(8, 24) =~= other_head);
    assert(id.subrange(25, 33) =~= tail);
    assert(id.subrange(25, 33) =~= other_tail);
    hex_is_told_apart(digest.take(8), other_digest.take(8));
    hex_is_told_apart(random, other_random);
}

/// Creating a session, step by step: where nothing is kept under its id its directory
/// is created, its metadata is written with the time of creation, its workspace is
/// resolved, its agent is created there, and its log is opened.
pub proof fn new_sessions_are_created(meta: PersistedSessionView, now: u64, path: Text)
    ensures
        ({
            let request = OpenRequestView::Bind { meta, allow_create: true };
            let reading = OpenJobView { request, meta, phase: OpenPhaseView::ReadingMetadata };
            let stored = PersistedSessionView {
                id: meta.id,
                workspace: meta.workspace,
                created_at_ms: if meta.created_at_ms == 0 {
                    now
                } else {
                    meta.created_at_ms
                },
                last_opened_ms: now,
            };
            let (creating, create) = reading.step(OpenOutcomeView::Missing, now);
            let (saving, save) = creating.step(OpenOutcomeView::Done, now);
            let (resolving, resolve) = saving.step(OpenOutcomeView::Done, now);
            let (hiring, hire) = resolving.step(
                OpenOutcomeView::Workspace(WorkspaceOutcomeView::Directory(path)),
                now,
            );
            let (opening, open) = hiring.step(OpenOutcomeView::Done, now);
            let (opened, nothing) = opening.step(OpenOutcomeView::Done, now);
            &&& request.first_meta() == meta
            &&& create == Some(OpenActionView::CreateDirectory(meta.id))
            &&& save == Some(OpenActionView::SaveMetadata(stored))
            &&& resolve == Some(OpenActionView::ResolveWorkspace(meta.workspace))
            &&& hire == Some(OpenActionView::CreateAgent(path))
            &&& open == Some(OpenActionView::OpenLog(meta.id))
            &&& opened.phase is Opened
            &&& opened.meta == stored
            &&& nothing is None
            &&& info_of(opened.meta) == (SessionInfoView {
                id: meta.id,
                workspace: meta.workspace,
            })
        }),
{
}

/// A session that is kept is opened again with what is kept of it: one found by its id
/// as it is, one bound to its workspace with the time of opening written back.
pub proof fn kept_sessions_are_opened(
    stored: PersistedSessionView,
    meta: PersistedSessionView,
    allow_create: bool,
    now: u64,
)
    requires
        meta.id == stored.id,
        meta.workspace == stored.workspace,
    ensures
        ({
            let request = OpenRequestView::Existing(stored.id);
            let reading = OpenJobView {
                request,
                meta: request.first_meta(),
                phase: OpenPhaseView::ReadingMetadata,
            };
            let (hiring, hire) = reading.step(OpenOutcomeView::Metadata(stored), now);
            let (opening, open) = hiring.step(OpenOutcomeView::Done, now);
            let (opened, _) = opening.step(OpenOutcomeView::Done, now);
            let binding = OpenJobView {
                request: OpenRequestView::Bind { meta, allow_create },
                meta,
                phase: OpenPhaseView::ReadingMetadata,
            };
            let (saving, save) = binding.step(OpenOutcomeView::Metadata(stored), now);
            &&& hire == Some(OpenActionView::CreateAgent(stored.workspace))
            &&& open == Some(OpenActionView::OpenLog(stored.id))
            &&& opened.phase is Opened
            &&& opened.meta == stored
            &&& save == Some(
                OpenActionView::SaveMetadata(
                    PersistedSessionView { last_opened_ms: now, ..stored },
                ),
            )
            &&& saving.meta == (PersistedSessionView { last_opened_ms: now, ..stored })
        }),
{
}

/// A session that is not there, or is another one than was asked for, is not opened.
pub proof fn wrong_sessions_are_refused(
    id: Text,
    meta: PersistedSessionView,
    allow_create: bool,
    stored: PersistedSessionView,
    now: u64,
)
    ensures
        ({
            let request = OpenRequestView::Existing(id);
            let reading = OpenJobView {
                request,
                meta: request.first_meta(),
                phase: OpenPhaseView::ReadingMetadata,
            };
            let missing = reading.step(OpenOutcomeView::Missing, now);
            let found = reading.step(OpenOutcomeView::Metadata(stored), now);
            let binding = OpenJobView {
                request: OpenRequestView::Bind { meta, allow_create },
                meta,
                phase: OpenPhaseView::ReadingMetadata,
            };
            let bound = binding.step(OpenOutcomeView::Metadata(stored), now);
            let unbound = binding.step(OpenOutcomeView::Missing, now);
            &&& missing.0.phase == OpenPhaseView::Refused(RegistryErrorView::NotFound(id))
            &&& missing.1 is None
            &&& found.0.phase is Refused <==> stored.id != id
            &&& found.0.phase is Refused ==> found.1 is None
            &&& bound.0.phase is Refused <==> stored.id != meta.id || stored.workspace
                != meta.workspace
            &&& bound.0.phase is Refused ==> bound.1 is None
            &&& !allow_create ==> unbound.0.phase == OpenPhaseView::Refused(
                RegistryErrorView::NotFound(meta.id),
            )
        }),
{
}

/// What goes wrong on the way is what opening is refused for.
pub proof fn faults_are_told(job: OpenJobView, error: Text, fault: SessionErrorView, now: u64)
    ensures
        job.phase is ReadingMetadata || job.phase is CreatingDirectory || job.phase
            is SavingMetadata ==> job.step(OpenOutcomeView::Failed(error), now).0.phase
            == OpenPhaseView::Refused(RegistryErrorView::Io(error)),
        job.phase is ReadingMetadata || job.phase is SavingMetadata ==> job.step(
            OpenOutcomeView::Malformed(error),
            now,
        ).0.phase == OpenPhaseView::Refused(RegistryErrorView::InvalidMetadata(error)),
        job.phase is ResolvingWorkspace ==> job.step(
            OpenOutcomeView::Workspace(WorkspaceOutcomeView::Failed(error)),
            now,
        ).0.phase == OpenPhaseView::Refused(RegistryErrorView::Workspace(error)),
        job.phase is CreatingAgent ==> job.step(OpenOutcomeView::Failed(error), now).0.phase
            == OpenPhaseView::Refused(RegistryErrorView::Agent(error)),
        job.phase is OpeningLog ==> job.step(OpenOutcomeView::LogFailed(fault), now).0.phase
            == OpenPhaseView::Refused(RegistryErrorView::Session(fault)),
{
}

/// Where a path leads decides whether it is a workspace; the directory that it leads to
/// is the workspace.
pub proof fn workspaces_are_directories(outcome: WorkspaceOutcomeView, path: Text)
    ensures
        canonical(outcome) is Ok <==> outcome is Directory,
        canonical(WorkspaceOutcomeView::Directory(path)) == Ok::<Text, RegistryErrorView>(path),
        canonical(WorkspaceOutcomeView::Failed(path)) == Err::<Text, RegistryErrorView>(
            RegistryErrorView::Workspace(path),
        ),
{
}

/// The list of a workspace shows its sessions, the latest opened first and none twice, from what
/// is on disk and what is open.
pub proof fn listed_sessions_are_the_latest(
    workspace: &str,
    on_disk: Vec<PersistedSession>,
    in_memory: Vec<PersistedSession>,
    r: Vec<SessionSummary>,
)
    requires
        call_ensures(list_sessions, (workspace, &on_disk, &in_memory), r),
    ensures
        forall|i: int, j: int|
            0 <= i < j < r@.len() ==> views(r@)[i].last_opened_ms >= views(r@)[j].last_opened_ms
                && (#[trigger] views(r@)[i]).id != (#[trigger] views(r@)[j]).id,
        forall|c: int|
            0 <= c < views(on_disk@).len() && (#[trigger] views(on_disk@)[c]).workspace
                == workspace@ ==> exists|k: int|
                0 <= k < views(r@).len() && (#[trigger] views(r@)[k]).id == views(on_disk@)[c].id
                    && views(r@)[k].last_opened_ms >= views(on_disk@)[c].last_opened_ms,
        forall|c: int|
            0 <= c < views(in_memory@).len() && (#[trigger] views(in_memory@)[c]).workspace
                == workspace@ ==> exists|k: int|
                0 <= k < views(r@).len() && (#[trigger] views(r@)[k]).id == views(in_memory@)[c].id
                    && views(r@)[k].last_opened_ms >= views(in_memory@)[c].last_opened_ms,
{
    pickers_show_the_latest(workspace@, views(on_disk@), views(in_memory@), views(r@));
    assert forall|c: int| 0 <= c < views(on_disk@).len() implies views(on_disk@).contains(
        #[trigger] views(on_disk@)[c],
    ) by {}
    assert forall|c: int| 0 <= c < views(in_memory@).len() implies views(in_memory@).contains(
        #[trigger] views(in_memory@)[c],
    ) by {}
}

/// A session that was opened is open from then on, under its own id and with its own metadata; the
/// others stay open, and a refused one leaves no trace.
pub proof fn opened_sessions_are_kept(
    registry: &mut SessionRegistry,
    job: OpenJob,
    r: Result<SessionInfo, RegistryError>,
)
    requires
        job@.phase is Opened || job@.phase is Refused,
        call_ensures(SessionRegistry::conclude, (registry, job), r),
    ensures
        r is Ok <==> job@.phase is Opened,
        r matches Ok(info) ==> {
            &&& info@.id == job@.meta.id
            &&& info@.workspace == job@.meta.workspace
            &&& open_sessions(final(registry).open@).dom().contains(job@.meta.id)
            &&& open_sessions(final(registry).open@)[job@.meta.id] == job@.meta
            &&& forall|id: Text|
                id != job@.meta.id && open_sessions(old(registry).open@).dom().contains(id)
                    ==> #[trigger] open_sessions(final(registry).open@).dom().contains(id)
                    && open_sessions(final(registry).open@)[id] == open_sessions(
                    old(registry).open@,
                )[id]
        },
        r is Err ==> open_sessions(final(registry).open@) == open_sessions(old(registry).open@),
{
}

} // verus!
