//! The server's token file: one token for every program that asks for it, made
//! by whoever comes first.

use crate::config::{is_server_token, read_server_token, SERVER_TOKEN_BYTES};
use crate::text::{hex, is_space, trim, Text};
use vstd::prelude::*;

verus! {

/// The mode of the token file on systems that have modes: its owner alone may
/// read and write it.
pub const PRIVATE_MODE: u32 = 0o600;

/// The content of a [`TokenFault`].
#[verifier::ext_equal]
pub enum TokenFaultView {
    Blank,
    NoParent,
    Random(Text),
    File(Text),
}

/// Why there is no token: the file is blank, its path has no directory, no
/// random bytes could be drawn, or the file system failed.
#[derive(Debug, Eq, PartialEq)]
pub enum TokenFault {
    Blank,
    NoParent,
    Random(String),
    File(String),
}

impl View for TokenFault {
    type V = TokenFaultView;

    open spec fn view(&self) -> TokenFaultView {
        match self {
            TokenFault::Blank => TokenFaultView::Blank,
            TokenFault::NoParent => TokenFaultView::NoParent,
            TokenFault::Random(item) => TokenFaultView::Random(item@),
            TokenFault::File(item) => TokenFaultView::File(item@),
        }
    }
}

impl Clone for TokenFault {
    fn clone(&self) -> (r: Self)
        ensures
            r@ == self@,
    {
        let r = match self {
            TokenFault::Blank => TokenFault::Blank,
            TokenFault::NoParent => TokenFault::NoParent,
            TokenFault::Random(item) => TokenFault::Random(item.clone()),
            TokenFault::File(item) => TokenFault::File(item.clone()),
        };
        assert(r@ =~~= self@);
        r
    }
}

impl TokenFaultView {
    /// The text shown for a fault.
    pub open spec fn message_text(self) -> Text {
        match self {
            TokenFaultView::Blank => "server token file is empty"@,
            TokenFaultView::NoParent => "server token path has no parent directory"@,
            TokenFaultView::Random(error) => error,
            TokenFaultView::File(error) => error,
        }
    }
}

impl TokenFault {
    pub fn message(&self) -> (r: String)
        ensures
            r@ == self@.message_text(),
    {
        match self {
            TokenFault::Blank => "server token file is empty".to_owned(),
            TokenFault::NoParent => "server token path has no parent directory".to_owned(),
            TokenFault::Random(error) => error.clone(),
            TokenFault::File(error) => error.clone(),
        }
    }
}

/// The content of a [`TokenEvent`].
#[verifier::ext_equal]
pub enum TokenEventView {
    Contents(Text),
    Missing(Text),
    Prepared,
    NoParent,
    Drawn(Text),
    NotDrawn(Text),
    Created,
    Taken,
    Restricted,
    Failed(Text),
}

/// What came of an action. `Missing` says that there is no file, `Taken` that
/// somebody else created it first. What the system complained of comes along.
#[derive(Debug, Eq, PartialEq)]
pub enum TokenEvent {
    Contents(String),
    Missing(String),
    Prepared,
    NoParent,
    Drawn(String),
    NotDrawn(String),
    Created,
    Taken,
    Restricted,
    Failed(String),
}

impl View for TokenEvent {
    type V = TokenEventView;

    open spec fn view(&self) -> TokenEventView {
        match self {
            TokenEvent::Contents(item) => TokenEventView::Contents(item@),
            TokenEvent::Missing(item) => TokenEventView::Missing(item@),
            TokenEvent::Prepared => TokenEventView::Prepared,
            TokenEvent::NoParent => TokenEventView::NoParent,
            TokenEvent::Drawn(item) => TokenEventView::Drawn(item@),
            TokenEvent::NotDrawn(item) => TokenEventView::NotDrawn(item@),
            TokenEvent::Created => TokenEventView::Created,
            TokenEvent::Taken => TokenEventView::Taken,
            TokenEvent::Restricted => TokenEventView::Restricted,
            TokenEvent::Failed(item) => TokenEventView::Failed(item@),
        }
    }
}

/// The content of a [`TokenAction`].
#[verifier::ext_equal]
pub enum TokenActionView {
    Read,
    Prepare,
    Draw,
    Create { token: Text, mode: u32 },
    Restrict { mode: u32 },
    Succeed(Text),
    Fail(TokenFaultView),
}

/// What is to be done next: read the file, make its directory, draw a token,
/// create the file with a token unless it is there, give it a mode, or end.
#[derive(Debug, Eq, PartialEq)]
pub enum TokenAction {
    Read,
    Prepare,
    Draw,
    Create { token: String, mode: u32 },
    Restrict { mode: u32 },
    Succeed(String),
    Fail(TokenFault),
}

impl View for TokenAction {
    type V = TokenActionView;

    open spec fn view(&self) -> TokenActionView {
        match self {
            TokenAction::Read => TokenActionView::Read,
            TokenAction::Prepare => TokenActionView::Prepare,
            TokenAction::Draw => TokenActionView::Draw,
            TokenAction::Create { token, mode } => TokenActionView::Create {
                token: token@,
                mode: *mode,
            },
            TokenAction::Restrict { mode } => TokenActionView::Restrict { mode: *mode },
            TokenAction::Succeed(item) => TokenActionView::Succeed(item@),
            TokenAction::Fail(item) => TokenActionView::Fail(item@),
        }
    }
}

/// The content of a [`TokenFile`].
#[verifier::ext_equal]
pub enum TokenFileView {
    Reading,
    Preparing,
    Drawing,
    Creating(Text),
    Rereading,
    Securing(Text),
    Done(Text),
    Refused(TokenFaultView),
}

/// How far a call for the token has come.
#[derive(Debug, Eq, PartialEq)]
pub enum TokenFile {
    Reading,
    Preparing,
    Drawing,
    Creating(String),
    Rereading,
    Securing(String),
    Done(String),
    Refused(TokenFault),
}

impl View for TokenFile {
    type V = TokenFileView;

    open spec fn view(&self) -> TokenFileView {
        match self {
            TokenFile::Reading => TokenFileView::Reading,
            TokenFile::Preparing => TokenFileView::Preparing,
            TokenFile::Drawing => TokenFileView::Drawing,
            TokenFile::Creating(item) => TokenFileView::Creating(item@),
            TokenFile::Rereading => TokenFileView::Rereading,
            TokenFile::Securing(item) => TokenFileView::Securing(item@),
            TokenFile::Done(item) => TokenFileView::Done(item@),
            TokenFile::Refused(item) => TokenFileView::Refused(item@),
        }
    }
}

impl Clone for TokenFile {
    fn clone(&self) -> (r: Self)
        ensures
            r@ == self@,
    {
        let r = match self {
            TokenFile::Reading => TokenFile::Reading,
            TokenFile::Preparing => TokenFile::Preparing,
            TokenFile::Drawing => TokenFile::Drawing,
            TokenFile::Creating(item) => TokenFile::Creating(item.clone()),
            TokenFile::Rereading => TokenFile::Rereading,
            TokenFile::Securing(item) => TokenFile::Securing(item.clone()),
            TokenFile::Done(item) => TokenFile::Done(item.clone()),
            TokenFile::Refused(item) => TokenFile::Refused(item.clone()),
        };
        assert(r@ =~~= self@);
        r
    }
}

/// What becomes of the text in the file: the token without white space around
/// it, unless nothing is left.
pub open spec fn found(contents: Text) -> TokenFileView {
    if trim(contents).len() == 0 {
        TokenFileView::Refused(TokenFaultView::Blank)
    } else {
        TokenFileView::Securing(trim(contents))
    }
}

impl TokenFileView {
    /// Whether the call has ended.
    pub open spec fn ended(self) -> bool {
        self is Done || self is Refused
    }

    /// The call once something came of its action. What does not belong to the
    /// action changes nothing.
    pub open spec fn step(self, event: TokenEventView) -> TokenFileView {
        match (self, event) {
            (TokenFileView::Done(_), _) => self,
            (TokenFileView::Refused(_), _) => self,
            (_, TokenEventView::Failed(error)) => TokenFileView::Refused(
                TokenFaultView::File(error),
            ),
            (TokenFileView::Reading, TokenEventView::Contents(contents)) => found(contents),
            (TokenFileView::Reading, TokenEventView::Missing(_)) => TokenFileView::Preparing,
            (TokenFileView::Preparing, TokenEventView::Prepared) => TokenFileView::Drawing,
            (TokenFileView::Preparing, TokenEventView::NoParent) => TokenFileView::Refused(
                TokenFaultView::NoParent,
            ),
            (TokenFileView::Drawing, TokenEventView::Drawn(token)) => TokenFileView::Creating(
                token,
            ),
            (TokenFileView::Drawing, TokenEventView::NotDrawn(error)) => TokenFileView::Refused(
                TokenFaultView::Random(error),
            ),
            (TokenFileView::Creating(token), TokenEventView::Created) => TokenFileView::Securing(
                token,
            ),
            (TokenFileView::Creating(_), TokenEventView::Taken) => TokenFileView::Rereading,
            (TokenFileView::Rereading, TokenEventView::Contents(contents)) => found(contents),
            (TokenFileView::Rereading, TokenEventView::Missing(error)) => TokenFileView::Refused(
                TokenFaultView::File(error),
            ),
            (TokenFileView::Securing(token), TokenEventView::Restricted) => TokenFileView::Done(
                token,
            ),
            _ => self,
        }
    }

    /// What the call asks for now.
    pub open spec fn wanted(self) -> TokenActionView {
        match self {
            TokenFileView::Reading => TokenActionView::Read,
            TokenFileView::Preparing => TokenActionView::Prepare,
            TokenFileView::Drawing => TokenActionView::Draw,
            TokenFileView::Creating(token) => TokenActionView::Create {
                token,
                mode: PRIVATE_MODE,
            },
            TokenFileView::Rereading => TokenActionView::Read,
            TokenFileView::Securing(_) => TokenActionView::Restrict { mode: PRIVATE_MODE },
            TokenFileView::Done(token) => TokenActionView::Succeed(token),
            TokenFileView::Refused(fault) => TokenActionView::Fail(fault),
        }
    }

    /// How many more actions the call can ask for.
    pub open spec fn distance(self) -> nat {
        match self {
            TokenFileView::Reading => 6,
            TokenFileView::Preparing => 5,
            TokenFileView::Drawing => 4,
            TokenFileView::Creating(_) => 3,
            TokenFileView::Rereading => 2,
            TokenFileView::Securing(_) => 1,
            TokenFileView::Done(_) => 0,
            TokenFileView::Refused(_) => 0,
        }
    }
}

fn found_text(contents: &str) -> (r: TokenFile)
    ensures
        r@ == found(contents@),
{
    match read_server_token(contents) {
        Ok(token) => TokenFile::Securing(token),
        Err(_) => TokenFile::Refused(TokenFault::Blank),
    }
}

impl TokenFile {
    /// Begins a call for the token.
    pub fn start() -> (r: (TokenFile, TokenAction))
        ensures
            r.0@ == TokenFileView::Reading,
            r.1@ == r.0@.wanted(),
    {
        (TokenFile::Reading, TokenAction::Read)
    }

    /// Takes in what came of the last action and says what is to be done next.
    pub fn step(&mut self, event: TokenEvent) -> (r: TokenAction)
        ensures
            final(self)@ == old(self)@.step(event@),
            r@ == final(self)@.wanted(),
    {
        let next = self.advanced(event);
        *self = next;
        self.action()
    }

    fn advanced(&self, event: TokenEvent) -> (r: TokenFile)
        ensures
            r@ == self@.step(event@),
    {
        match (self, event) {
            (TokenFile::Done(token), _) => TokenFile::Done(token.clone()),
            (TokenFile::Refused(fault), _) => TokenFile::Refused(fault.clone()),
            (_, TokenEvent::Failed(error)) => TokenFile::Refused(TokenFault::File(error)),
            (TokenFile::Reading, TokenEvent::Contents(contents)) => found_text(&contents),
            (TokenFile::Reading, TokenEvent::Missing(_)) => TokenFile::Preparing,
            (TokenFile::Preparing, TokenEvent::Prepared) => TokenFile::Drawing,
            (TokenFile::Preparing, TokenEvent::NoParent) => TokenFile::Refused(
                TokenFault::NoParent,
            ),
            (TokenFile::Drawing, TokenEvent::Drawn(token)) => TokenFile::Creating(token),
            (TokenFile::Drawing, TokenEvent::NotDrawn(error)) => TokenFile::Refused(
                TokenFault::Random(error),
            ),
            (TokenFile::Creating(token), TokenEvent::Created) => TokenFile::Securing(
                token.clone(),
            ),
            (TokenFile::Creating(_), TokenEvent::Taken) => TokenFile::Rereading,
            (TokenFile::Rereading, TokenEvent::Contents(contents)) => found_text(&contents),
            (TokenFile::Rereading, TokenEvent::Missing(error)) => TokenFile::Refused(
                TokenFault::File(error),
            ),
            (TokenFile::Securing(token), TokenEvent::Restricted) => TokenFile::Done(
                token.clone(),
            ),
            (_, _) => self.clone(),
        }
    }

    fn action(&self) -> (r: TokenAction)
        ensures
            r@ == self@.wanted(),
    {
        match self {
            TokenFile::Reading => TokenAction::Read,
            TokenFile::Preparing => TokenAction::Prepare,
            TokenFile::Drawing => TokenAction::Draw,
            TokenFile::Creating(token) => TokenAction::Create {
                token: token.clone(),
                mode: PRIVATE_MODE,
            },
            TokenFile::Rereading => TokenAction::Read,
            TokenFile::Securing(_) => TokenAction::Restrict { mode: PRIVATE_MODE },
            TokenFile::Done(token) => TokenAction::Succeed(token.clone()),
            TokenFile::Refused(fault) => TokenAction::Fail(fault.clone()),
        }
    }
}

/// A call after some events.
pub open spec fn call_after(events: Seq<TokenEventView>) -> TokenFileView
    decreases events.len(),
{
    if events.len() == 0 {
        TokenFileView::Reading
    } else {
        call_after(events.drop_last()).step(events.last())
    }
}

/// A file is created only behind a look that found none, whatever happens on
/// the way, and it is created private.
pub proof fn only_missing_files_are_created(events: Seq<TokenEventView>)
    ensures
        call_after(events).wanted() matches TokenActionView::Create { mode, .. } ==> mode
            == PRIVATE_MODE && exists|i: int|
            0 <= i < events.len() && #[trigger] events[i] is Missing,
{
    creation_follows_a_look(events);
}

proof fn creation_follows_a_look(events: Seq<TokenEventView>)
    ensures
        ({
            let call = call_after(events);
            call is Preparing || call is Drawing || call is Creating ==> exists|i: int|
                0 <= i < events.len() && #[trigger] events[i] is Missing
        }),
    decreases events.len(),
{
    if events.len() > 0 {
        let before = events.drop_last();
        creation_follows_a_look(before);
        let call = call_after(before);
        if call is Preparing || call is Drawing || call is Creating {
            let i = choose|i: int| 0 <= i < before.len() && #[trigger] before[i] is Missing;
            assert(events[i] is Missing);
        } else if events.last() is Missing {
            assert(events[events.len() - 1] is Missing);
        }
    }
}

/// The token file as it stands on disk.
#[verifier::ext_equal]
pub struct StoredTokenView {
    pub content: Text,
    pub mode: u32,
}

/// One turn of one of the calls: which of them does its action, which token it
/// draws if it draws one, and how the system complains of a missing file.
#[verifier::ext_equal]
pub struct TokenTurnView {
    pub call: int,
    pub drawn: Text,
    pub complaint: Text,
}

/// Some calls for the token and the one file they share. Every single action is
/// done at once; between two actions of a call the others may do theirs.
#[verifier::ext_equal]
pub struct SharedTokenView {
    pub file: Option<StoredTokenView>,
    pub calls: Seq<TokenFileView>,
}

impl SharedTokenView {
    /// `count` calls that have not begun yet, and the file they will find.
    pub open spec fn opened(file: Option<StoredTokenView>, count: nat) -> SharedTokenView {
        SharedTokenView { file, calls: Seq::new(count, |i: int| TokenFileView::Reading) }
    }

    /// What comes of a call's action where the file system does not fail.
    pub open spec fn event(self, turn: TokenTurnView) -> TokenEventView {
        match self.calls[turn.call].wanted() {
            TokenActionView::Read => match self.file {
                Some(file) => TokenEventView::Contents(file.content),
                None => TokenEventView::Missing(turn.complaint),
            },
            TokenActionView::Prepare => TokenEventView::Prepared,
            TokenActionView::Draw => TokenEventView::Drawn(turn.drawn),
            TokenActionView::Create { .. } => if self.file is None {
                TokenEventView::Created
            } else {
                TokenEventView::Taken
            },
            _ => TokenEventView::Restricted,
        }
    }

    /// The file once a call has done its action.
    pub open spec fn file_after(self, turn: TokenTurnView) -> Option<StoredTokenView> {
        match (self.calls[turn.call].wanted(), self.file) {
            (TokenActionView::Create { token, mode }, None) => Some(
                StoredTokenView { content: token, mode },
            ),
            (TokenActionView::Restrict { mode }, Some(file)) => Some(
                StoredTokenView { mode, ..file },
            ),
            _ => self.file,
        }
    }

    /// One call does its action and takes in what came of it.
    pub open spec fn turn(self, turn: TokenTurnView) -> SharedTokenView {
        if 0 <= turn.call < self.calls.len() {
            SharedTokenView {
                file: self.file_after(turn),
                calls: self.calls.update(
                    turn.call,
                    self.calls[turn.call].step(self.event(turn)),
                ),
            }
        } else {
            self
        }
    }

    /// The calls and the file after some turns.
    pub open spec fn run(self, turns: Seq<TokenTurnView>) -> SharedTokenView
        decreases turns.len(),
    {
        if turns.len() == 0 {
            self
        } else {
            self.run(turns.drop_last()).turn(turns.last())
        }
    }
}

/// Whether a call agrees with the file, if there is one.
spec fn agrees(call: TokenFileView, file: Option<StoredTokenView>) -> bool {
    match call {
        TokenFileView::Rereading => file is Some,
        TokenFileView::Securing(token) => file matches Some(file) && token == trim(file.content)
            && token.len() > 0,
        TokenFileView::Done(token) => file matches Some(file) && token == trim(file.content)
            && token.len() > 0 && file.mode == PRIVATE_MODE,
        TokenFileView::Refused(fault) => file matches Some(file) && trim(file.content).len() == 0
            && fault == TokenFaultView::Blank,
        _ => true,
    }
}

/// What holds at every moment. `first` is the file that was there to begin with.
spec fn consistent(s: SharedTokenView, first: Option<StoredTokenView>) -> bool {
    &&& first matches Some(kept) ==> s.file matches Some(file) && file.content == kept.content
    &&& first is None ==> (s.file matches Some(file) ==> is_server_token(file.content))
    &&& forall|k: int| 0 <= k < s.calls.len() ==> agrees(#[trigger] s.calls[k], s.file)
    &&& forall|k: int|
        0 <= k < s.calls.len() ==> ((#[trigger] s.calls[k]) matches TokenFileView::Creating(token)
            ==> first is None && is_server_token(token))
    &&& first is Some ==> forall|k: int|
        0 <= k < s.calls.len() ==> !((#[trigger] s.calls[k]) is Preparing || s.calls[k] is Drawing)
}

proof fn tokens_are_not_blank(token: Text)
    requires
        is_server_token(token),
    ensures
        trim(token) == token,
        token.len() == 2 * SERVER_TOKEN_BYTES,
        forall|i: int|
            0 <= i < token.len() ==> ('0' <= #[trigger] token[i] <= '9') || ('a' <= token[i]
                <= 'f'),
{
    let bytes = choose|bytes: Seq<u8>|
        bytes.len() == SERVER_TOKEN_BYTES && token == #[trigger] hex(bytes);
    assert forall|i: int| 0 <= i < token.len() implies ('0' <= #[trigger] token[i] <= '9') || (
    'a' <= token[i] <= 'f') by {
        let b = bytes[i / 2];
        assert(b / 16 < 16 && b % 16 < 16);
    }
    assert(!is_space(token[0]));
    assert(!is_space(token[token.len() - 1]));
}

proof fn turns_keep_order(s: SharedTokenView, turn: TokenTurnView, first: Option<StoredTokenView>)
    requires
        consistent(s, first),
        is_server_token(turn.drawn),
    ensures
        consistent(s.turn(turn), first),
{
    if 0 <= turn.call < s.calls.len() {
        let next = s.turn(turn);
        let call = s.calls[turn.call];
        assert(agrees(call, s.file));
        if let TokenFileView::Creating(token) = call {
            tokens_are_not_blank(token);
        }
        assert forall|k: int| 0 <= k < next.calls.len() implies agrees(
            #[trigger] next.calls[k],
            next.file,
        ) by {
            assert(agrees(s.calls[k], s.file));
        }
    }
}

proof fn runs_keep_order(
    s: SharedTokenView,
    turns: Seq<TokenTurnView>,
    first: Option<StoredTokenView>,
)
    requires
        consistent(s, first),
        forall|i: int| 0 <= i < turns.len() ==> is_server_token((#[trigger] turns[i]).drawn),
    ensures
        consistent(s.run(turns), first),
        s.run(turns).calls.len() == s.calls.len(),
    decreases turns.len(),
{
    if turns.len() > 0 {
        let before = turns.drop_last();
        assert forall|i: int| 0 <= i < before.len() implies is_server_token(
            (#[trigger] before[i]).drawn,
        ) by {
            assert(before[i] == turns[i]);
        }
        runs_keep_order(s, before, first);
        assert(is_server_token(turns[turns.len() - 1].drawn));
        turns_keep_order(s.run(before), turns.last(), first);
    }
}

/// Any number of calls, one after another or at the same time, end with one and
/// the same token where there was no file: the content of the file, which is
/// private, and made of lowercase hexadecimal digits.
pub proof fn all_calls_return_one_token(count: nat, turns: Seq<TokenTurnView>)
    requires
        forall|i: int| 0 <= i < turns.len() ==> is_server_token((#[trigger] turns[i]).drawn),
    ensures
        ({
            let s = SharedTokenView::opened(None, count).run(turns);
            &&& s.calls.len() == count
            &&& forall|k: int|
                0 <= k < count ==> {
                    &&& !((#[trigger] s.calls[k]) is Refused)
                    &&& s.calls[k] matches TokenFileView::Done(token) ==> {
                        &&& s.file == Some(StoredTokenView { content: token, mode: PRIVATE_MODE })
                        &&& token.len() == 2 * SERVER_TOKEN_BYTES
                        &&& forall|i: int|
                            0 <= i < token.len() ==> ('0' <= #[trigger] token[i] <= '9') || ('a'
                                <= token[i] <= 'f')
                    }
                }
            &&& forall|j: int, k: int|
                0 <= j < count && 0 <= k < count && s.calls[j].ended() && s.calls[k].ended()
                    ==> #[trigger] s.calls[j] == #[trigger] s.calls[k]
        }),
{
    let start = SharedTokenView::opened(None, count);
    runs_keep_order(start, turns, None);
    let s = start.run(turns);
    if let Some(file) = s.file {
        tokens_are_not_blank(file.content);
    }
    assert forall|k: int| 0 <= k < count implies {
        &&& !((#[trigger] s.calls[k]) is Refused)
        &&& s.calls[k] matches TokenFileView::Done(token) ==> {
            &&& s.file == Some(StoredTokenView { content: token, mode: PRIVATE_MODE })
            &&& token.len() == 2 * SERVER_TOKEN_BYTES
            &&& forall|i: int|
                0 <= i < token.len() ==> ('0' <= #[trigger] token[i] <= '9') || ('a' <= token[i]
                    <= 'f')
        }
    } by {
        assert(agrees(s.calls[k], s.file));
    }
}

/// A file that was there keeps its content, whatever the calls do: each of them
/// ends with the token in it, and the file is private then, or is refused
/// because the file is blank.
pub proof fn existing_files_are_kept(
    first: StoredTokenView,
    count: nat,
    turns: Seq<TokenTurnView>,
)
    requires
        forall|i: int| 0 <= i < turns.len() ==> is_server_token((#[trigger] turns[i]).drawn),
    ensures
        ({
            let s = SharedTokenView::opened(Some(first), count).run(turns);
            &&& s.calls.len() == count
            &&& s.file matches Some(file) && file.content == first.content
            &&& forall|k: int|
                0 <= k < count && (#[trigger] s.calls[k]).ended() ==> if trim(first.content).len()
                    == 0 {
                    s.calls[k] == TokenFileView::Refused(TokenFaultView::Blank)
                } else {
                    s.calls[k] == TokenFileView::Done(trim(first.content)) && s.file
                        == Some(StoredTokenView { mode: PRIVATE_MODE, ..first })
                }
        }),
{
    let start = SharedTokenView::opened(Some(first), count);
    runs_keep_order(start, turns, Some(first));
    let s = start.run(turns);
    assert forall|k: int| 0 <= k < count && (#[trigger] s.calls[k]).ended() implies if trim(
        first.content,
    ).len() == 0 {
        s.calls[k] == TokenFileView::Refused(TokenFaultView::Blank)
    } else {
        s.calls[k] == TokenFileView::Done(trim(first.content)) && s.file == Some(
            StoredTokenView { mode: PRIVATE_MODE, ..first },
        )
    } by {
        assert(agrees(s.calls[k], s.file));
    }
}

/// Every turn brings its call nearer to its end and leaves the others alone.
pub proof fn token_calls_end(s: SharedTokenView, turn: TokenTurnView)
    requires
        0 <= turn.call < s.calls.len(),
        !s.calls[turn.call].ended(),
    ensures
        s.turn(turn).calls.len() == s.calls.len(),
        s.turn(turn).calls[turn.call].distance() < s.calls[turn.call].distance(),
        forall|k: int|
            0 <= k < s.calls.len() && k != turn.call ==> #[trigger] s.turn(turn).calls[k]
                == s.calls[k],
{
}

/// What goes wrong on the way to a token is what the call fails with; a failed call asks for
/// nothing more.
pub proof fn token_faults_are_told(call: TokenFileView, error: Text)
    requires
        !call.ended(),
    ensures
        call.step(TokenEventView::Failed(error)).wanted() == TokenActionView::Fail(
            TokenFaultView::File(error),
        ),
        call is Drawing ==> call.step(TokenEventView::NotDrawn(error)).wanted()
            == TokenActionView::Fail(TokenFaultView::Random(error)),
        call is Preparing ==> call.step(TokenEventView::NoParent).wanted()
            == TokenActionView::Fail(TokenFaultView::NoParent),
{
}

/// A drawn token is written as it is to a file that only its owner can read, and handed out as it
/// is.
pub proof fn drawn_tokens_are_kept(token: Text)
    ensures
        ({
            let creating = TokenFileView::Drawing.step(TokenEventView::Drawn(token));
            let securing = creating.step(TokenEventView::Created);
            let done = securing.step(TokenEventView::Restricted);
            &&& creating.wanted() == (TokenActionView::Create { token, mode: PRIVATE_MODE })
            &&& securing.wanted() == (TokenActionView::Restrict { mode: PRIVATE_MODE })
            &&& done.wanted() == TokenActionView::Succeed(token)
        }),
{
}

} // verus!
