//! The client of the runtime: where its requests go, what they carry, and how
//! the answers and the event stream are taken.

use crate::protocol::{
    Command, CommandView, ModelRef, ReasoningEffort, WorkspaceRequest, WorkspaceRequestView,
    PROTOCOL_VERSION,
};
use crate::sse::{
    after_frame, boundary, boundary_is_inside, data_lines, first_frame_is_stable, frame_boundary,
    frame_data, frame_data_text, frames_are_read_back, lf_break, one_line_end,
};
use crate::text::{
    concat, concat3, decimal, decimal_text, decode_text, is_line, is_space, join, opt_view,
    starts_with, trim_end_char, trim_end_char_text, trim_start, utf8_fault, Text,
};
use vstd::prelude::*;
use vstd::utf8::{decode_utf8, encode_utf8, valid_utf8};

verus! {

/// The content of a [`ClientError`].
#[verifier::ext_equal]
pub enum ClientErrorView {
    Http { error: Text, connect: bool },
    InvalidEvent(Text),
    InvalidUtf8(Text),
    Rejected { status: Text, body: Text },
    SessionNotSelected,
    StreamClosed,
    OldServer(Option<u32>),
}

/// Why a request failed. `Http` carries the text of the transport failure and
/// whether no connection could be made; `Rejected` the status line of the answer;
/// `OldServer` the protocol revision that the server advertised, if any.
#[derive(Debug, Eq, PartialEq)]
pub enum ClientError {
    Http { error: String, connect: bool },
    InvalidEvent(String),
    InvalidUtf8(String),
    Rejected { status: String, body: String },
    SessionNotSelected,
    StreamClosed,
    OldServer(Option<u32>),
}

impl View for ClientError {
    type V = ClientErrorView;

    open spec fn view(&self) -> ClientErrorView {
        match self {
            ClientError::Http { error, connect } => ClientErrorView::Http {
                error: error@,
                connect: *connect,
            },
            ClientError::InvalidEvent(item) => ClientErrorView::InvalidEvent(item@),
            ClientError::InvalidUtf8(item) => ClientErrorView::InvalidUtf8(item@),
            ClientError::Rejected { status, body } => ClientErrorView::Rejected {
                status: status@,
                body: body@,
            },
            ClientError::SessionNotSelected => ClientErrorView::SessionNotSelected,
            ClientError::StreamClosed => ClientErrorView::StreamClosed,
            ClientError::OldServer(advertised) => ClientErrorView::OldServer(*advertised),
        }
    }
}

impl Clone for ClientError {
    fn clone(&self) -> (r: Self)
        ensures
            r@ == self@,
    {
        let r = match self {
            ClientError::Http { error, connect } => ClientError::Http {
                error: error.clone(),
                connect: *connect,
            },
            ClientError::InvalidEvent(item) => ClientError::InvalidEvent(item.clone()),
            ClientError::InvalidUtf8(item) => ClientError::InvalidUtf8(item.clone()),
            ClientError::Rejected { status, body } => ClientError::Rejected {
                status: status.clone(),
                body: body.clone(),
            },
            ClientError::SessionNotSelected => ClientError::SessionNotSelected,
            ClientError::StreamClosed => ClientError::StreamClosed,
            ClientError::OldServer(advertised) => ClientError::OldServer(*advertised),
        };
        assert(r@ =~~= self@);
        r
    }
}

impl ClientErrorView {
    /// The text shown for an error.
    pub open spec fn message_text(self) -> Text {
        match self {
            ClientErrorView::Http { error, .. } => error,
            ClientErrorView::InvalidEvent(error) => "invalid runtime event: "@ + error,
            ClientErrorView::InvalidUtf8(error) => "runtime sent invalid UTF-8: "@ + error,
            ClientErrorView::Rejected { status, body } => "runtime rejected the request ("@ + status
                + "): "@ + body,
            ClientErrorView::SessionNotSelected => "no Nexa session is selected"@,
            ClientErrorView::StreamClosed => "runtime event stream closed"@,
            ClientErrorView::OldServer(Some(revision)) => "the server speaks protocol "@ + decimal(
                revision as nat,
            ) + "; this client needs "@ + decimal(PROTOCOL_VERSION as nat),
            ClientErrorView::OldServer(None) => "the server advertises no protocol; this client needs "@
                + decimal(PROTOCOL_VERSION as nat),
        }
    }
}

impl ClientError {
    pub fn message(&self) -> (r: String)
        ensures
            r@ == self@.message_text(),
    {
        match self {
            ClientError::Http { error, .. } => error.clone(),
            ClientError::InvalidEvent(error) => concat("invalid runtime event: ", error),
            ClientError::InvalidUtf8(error) => concat("runtime sent invalid UTF-8: ", error),
            ClientError::Rejected { status, body } => {
                let mut text = concat3("runtime rejected the request (", status, "): ");
                text.push_str(body);
                text
            },
            ClientError::SessionNotSelected => "no Nexa session is selected".to_owned(),
            ClientError::StreamClosed => "runtime event stream closed".to_owned(),
            ClientError::OldServer(Some(revision)) => {
                let head = concat3(
                    "the server speaks protocol ",
                    &decimal_text(*revision as u64),
                    "; this client needs ",
                );
                concat(&head, &decimal_text(PROTOCOL_VERSION as u64))
            },
            ClientError::OldServer(None) => concat(
                "the server advertises no protocol; this client needs ",
                &decimal_text(PROTOCOL_VERSION as u64),
            ),
        }
    }

    /// Whether nothing answered at all.
    pub fn is_connect(&self) -> (r: bool)
        ensures
            r == (self@ matches ClientErrorView::Http { connect, .. } && connect),
    {
        match self {
            ClientError::Http { connect, .. } => *connect,
            _ => false,
        }
    }
}

/// Whether an HTTP status tells of success.
pub open spec fn is_success(status: u16) -> bool {
    200 <= status < 300
}

/// Takes the status of an answer, its status line, and its body as far as it
/// could be read. An answer that tells of no success is a rejection.
pub fn accepted_response(status: u16, status_line: String, body: Result<String, String>) -> (r: Result<
    (),
    ClientError,
>)
    ensures
        r is Ok <==> is_success(status),
        r matches Err(error) ==> error@ == (ClientErrorView::Rejected {
            status: status_line@,
            body: match body {
                Ok(text) => text@,
                Err(fault) => "could not read response: "@ + fault@,
            },
        }),
{
    if 200 <= status && status < 300 {
        return Ok(());
    }
    let body = match body {
        Ok(text) => text,
        Err(fault) => concat("could not read response: ", &fault),
    };
    Err(ClientError::Rejected { status: status_line, body })
}

/// Whether a server that advertises this protocol revision is older than the
/// client. One that advertises none is older than all that do.
pub open spec fn is_older(advertised: Option<u32>) -> bool {
    match advertised {
        Some(revision) => revision < PROTOCOL_VERSION,
        None => true,
    }
}

/// Refuses the answers of a server that is older than the client.
pub fn accepted_protocol(advertised: Option<u32>) -> (r: Result<(), ClientError>)
    ensures
        r is Ok <==> !is_older(advertised),
        r matches Err(error) ==> error@ == ClientErrorView::OldServer(advertised),
{
    match advertised {
        Some(revision) => if revision < PROTOCOL_VERSION {
            Err(ClientError::OldServer(advertised))
        } else {
            Ok(())
        },
        None => Err(ClientError::OldServer(None)),
    }
}

/// The content of a [`RequestBody`].
#[verifier::ext_equal]
pub enum RequestBodyView {
    Workspace(WorkspaceRequestView),
    Command(CommandView),
}

/// What a request carries.
#[derive(Debug)]
pub enum RequestBody {
    Workspace(WorkspaceRequest),
    Command(Command),
}

impl View for RequestBody {
    type V = RequestBodyView;

    open spec fn view(&self) -> RequestBodyView {
        match self {
            RequestBody::Workspace(item) => RequestBodyView::Workspace(item@),
            RequestBody::Command(item) => RequestBodyView::Command(item@),
        }
    }
}

impl Clone for RequestBody {
    fn clone(&self) -> (r: Self)
        ensures
            r@ == self@,
    {
        let r = match self {
            RequestBody::Workspace(item) => RequestBody::Workspace(item.clone()),
            RequestBody::Command(item) => RequestBody::Command(item.clone()),
        };
        assert(r@ =~~= self@);
        r
    }
}

/// The content of a [`Request`].
#[verifier::ext_equal]
pub struct RequestView {
    pub post: bool,
    pub url: Text,
    pub token: Option<Text>,
    pub body: Option<RequestBodyView>,
    pub bounded: bool,
}

/// A request to the runtime. `token` goes into its bearer authorization; `bounded`
/// says whether it has to be answered within the time limit.
#[derive(Debug)]
pub struct Request {
    pub post: bool,
    pub url: String,
    pub token: Option<String>,
    pub body: Option<RequestBody>,
    pub bounded: bool,
}

impl View for Request {
    type V = RequestView;

    open spec fn view(&self) -> RequestView {
        RequestView {
            post: self.post,
            url: self.url@,
            token: opt_view(self.token),
            body: opt_view(self.body),
            bounded: self.bounded,
        }
    }
}

impl Clone for Request {
    fn clone(&self) -> (r: Self)
        ensures
            r@ == self@,
    {
        let r = Request {
            post: self.post,
            url: self.url.clone(),
            token: self.token.clone(),
            body: self.body.clone(),
            bounded: self.bounded,
        };
        assert(r@ =~~= self@);
        r
    }
}

/// The time limit of a bounded request, in seconds.
pub const REQUEST_TIMEOUT_SECONDS: u64 = 30;

/// The content of a [`NexaClient`].
#[verifier::ext_equal]
pub struct NexaClientView {
    pub server_url: Text,
    pub client_id: Text,
    pub session_id: Option<Text>,
    pub token: Option<Text>,
}

/// A client of the runtime. It may be attached to a session.
#[derive(Debug, Eq, PartialEq)]
pub struct NexaClient {
    pub server_url: String,
    pub client_id: String,
    pub session_id: Option<String>,
    pub token: Option<String>,
}

impl View for NexaClient {
    type V = NexaClientView;

    open spec fn view(&self) -> NexaClientView {
        NexaClientView {
            server_url: self.server_url@,
            client_id: self.client_id@,
            session_id: opt_view(self.session_id),
            token: opt_view(self.token),
        }
    }
}

impl Clone for NexaClient {
    fn clone(&self) -> (r: Self)
        ensures
            r@ == self@,
    {
        let r = NexaClient {
            server_url: self.server_url.clone(),
            client_id: self.client_id.clone(),
            session_id: self.session_id.clone(),
            token: self.token.clone(),
        };
        assert(r@ =~~= self@);
        r
    }
}

impl NexaClientView {
    /// The address of a path on the server. A slash at the end of the server's
    /// address does not count.
    pub open spec fn endpoint(self, path: Text) -> Text {
        trim_end_char(self.server_url, '/') + path
    }

    pub open spec fn get(self, path: Text, bounded: bool) -> RequestView {
        RequestView {
            post: false,
            url: self.endpoint(path),
            token: self.token,
            body: None,
            bounded,
        }
    }

    pub open spec fn post(self, path: Text, body: RequestBodyView) -> RequestView {
        RequestView {
            post: true,
            url: self.endpoint(path),
            token: self.token,
            body: Some(body),
            bounded: true,
        }
    }
}

/// A request, or that no session is selected.
pub open spec fn request_or_none(r: Result<Request, ClientError>, request: Option<RequestView>) -> bool {
    match request {
        Some(request) => r matches Ok(made) && made@ == request,
        None => r matches Err(error) && error@ == ClientErrorView::SessionNotSelected,
    }
}

impl NexaClient {
    pub fn new(server_url: String, client_id: String) -> (r: NexaClient)
        ensures
            r@ == (NexaClientView {
                server_url: server_url@,
                client_id: client_id@,
                session_id: None,
                token: None,
            }),
    {
        NexaClient { server_url, client_id, session_id: None, token: None }
    }

    pub fn with_token(self, token: String) -> (r: NexaClient)
        ensures
            r@ == (NexaClientView { token: Some(token@), ..self@ }),
    {
        NexaClient {
            server_url: self.server_url,
            client_id: self.client_id,
            session_id: self.session_id,
            token: Some(token),
        }
    }

    pub fn with_session(self, session_id: String) -> (r: NexaClient)
        ensures
            r@ == (NexaClientView { session_id: Some(session_id@), ..self@ }),
    {
        NexaClient {
            server_url: self.server_url,
            client_id: self.client_id,
            session_id: Some(session_id),
            token: self.token,
        }
    }

    pub fn select_session(&mut self, session_id: &str)
        ensures
            final(self)@ == (NexaClientView { session_id: Some(session_id@), ..old(self)@ }),
    {
        self.session_id = Some(session_id.to_owned());
    }

    pub fn clear_session(&mut self)
        ensures
            final(self)@ == (NexaClientView { session_id: None, ..old(self)@ }),
    {
        self.session_id = None;
    }

    pub fn has_session(&self) -> (r: bool)
        ensures
            r == (self@.session_id is Some),
    {
        self.session_id.is_some()
    }

    pub fn endpoint(&self, path: &str) -> (r: String)
        ensures
            r@ == self@.endpoint(path@),
    {
        concat(&trim_end_char_text(&self.server_url, '/'), path)
    }

    fn get(&self, path: &str, bounded: bool) -> (r: Request)
        ensures
            r@ == self@.get(path@, bounded),
    {
        Request {
            post: false,
            url: self.endpoint(path),
            token: self.token.clone(),
            body: None,
            bounded,
        }
    }

    fn post(&self, path: &str, body: RequestBody) -> (r: Request)
        ensures
            r@ == self@.post(path@, body@),
    {
        Request {
            post: true,
            url: self.endpoint(path),
            token: self.token.clone(),
            body: Some(body),
            bounded: true,
        }
    }

    /// The request for the providers and their models.
    pub fn providers(&self) -> (r: Request)
        ensures
            r@ == self@.get("/providers"@, true),
    {
        self.get("/providers", true)
    }

    /// The request for the agent presets.
    pub fn presets(&self) -> (r: Request)
        ensures
            r@ == self@.get("/presets"@, true),
    {
        self.get("/presets", true)
    }

    /// The request that opens a workspace.
    pub fn open_workspace(&self, workspace: String) -> (r: Request)
        ensures
            r@ == self@.post(
                "/sessions/open"@,
                RequestBodyView::Workspace(WorkspaceRequestView { workspace: workspace@ }),
            ),
    {
        self.post("/sessions/open", RequestBody::Workspace(WorkspaceRequest { workspace }))
    }

    /// The request for a new session in a workspace.
    pub fn create_session(&self, workspace: String) -> (r: Request)
        ensures
            r@ == self@.post(
                "/sessions/create"@,
                RequestBodyView::Workspace(WorkspaceRequestView { workspace: workspace@ }),
            ),
    {
        self.post("/sessions/create", RequestBody::Workspace(WorkspaceRequest { workspace }))
    }

    /// The request for the sessions of a workspace.
    pub fn list_sessions(&self, workspace: String) -> (r: Request)
        ensures
            r@ == self@.post(
                "/sessions/list"@,
                RequestBodyView::Workspace(WorkspaceRequestView { workspace: workspace@ }),
            ),
    {
        self.post("/sessions/list", RequestBody::Workspace(WorkspaceRequest { workspace }))
    }

    /// The request for the event stream of the attached session. It has no time
    /// limit.
    pub fn subscribe(&self) -> (r: Result<Request, ClientError>)
        ensures
            request_or_none(
                r,
                match self@.session_id {
                    Some(id) => Some(self@.get("/sessions/"@ + id + "/events"@, false)),
                    None => None,
                },
            ),
    {
        match &self.session_id {
            Some(id) => Ok(self.get(&concat3("/sessions/", id, "/events"), false)),
            None => Err(ClientError::SessionNotSelected),
        }
    }

    /// The request that sends a message to the attached session.
    pub fn send_message(
        &self,
        model: ModelRef,
        preset: Option<String>,
        reasoning_effort: Option<ReasoningEffort>,
        text: String,
    ) -> (r: Result<Request, ClientError>)
        ensures
            request_or_none(
                r,
                match self@.session_id {
                    Some(id) => Some(
                        self@.post(
                            "/commands"@,
                            RequestBodyView::Command(
                                CommandView::SendMessage {
                                    session_id: id,
                                    client_id: self@.client_id,
                                    model: model@,
                                    preset: opt_view(preset),
                                    reasoning_effort,
                                    text: text@,
                                },
                            ),
                        ),
                    ),
                    None => None,
                },
            ),
    {
        match &self.session_id {
            Some(id) => Ok(
                self.post(
                    "/commands",
                    RequestBody::Command(
                        Command::SendMessage {
                            session_id: id.clone(),
                            client_id: self.client_id.clone(),
                            model,
                            preset,
                            reasoning_effort,
                            text,
                        },
                    ),
                ),
            ),
            None => Err(ClientError::SessionNotSelected),
        }
    }
}

/// What the event stream yields: nothing yet, a frame without data such as a
/// keep-alive, or the data of an event.
#[derive(Debug, Eq, PartialEq)]
pub enum FrameRead {
    Incomplete,
    Skipped,
    Data(String),
}

/// The outcome of taking one frame out of a buffer.
pub open spec fn client_read(buffer: Seq<u8>, r: Result<FrameRead, ClientError>) -> bool {
    match boundary(buffer) {
        None => r matches Ok(FrameRead::Incomplete),
        Some((at, _)) => {
            let frame = buffer.take(at);
            if !valid_utf8(frame) {
                r matches Err(error) && error@ == ClientErrorView::InvalidUtf8(utf8_fault(frame))
            } else if frame_data(decode_utf8(frame)).len() == 0 {
                r matches Ok(FrameRead::Skipped)
            } else {
                r matches Ok(FrameRead::Data(data)) && data@ == frame_data(decode_utf8(frame))
            }
        },
    }
}

/// Takes the next whole frame out of a buffer and returns its data.
pub fn take_event(buffer: &mut Vec<u8>) -> (r: Result<FrameRead, ClientError>)
    ensures
        final(buffer)@ == after_frame(old(buffer)@),
        client_read(old(buffer)@, r),
{
    let ghost before = buffer@;
    match frame_boundary(buffer) {
        None => Ok(FrameRead::Incomplete),
        Some((at, size)) => {
            let mut frame = buffer.split_off(0);
            let mut rest = frame.split_off(at);
            let mut tail = rest.split_off(size);
            assert(frame@ =~= before.take(at as int));
            assert(tail@ =~= before.skip(at + size));
            buffer.append(&mut tail);
            assert(buffer@ =~= before.skip(at + size));
            match decode_text(&frame) {
                Err(error) => Err(ClientError::InvalidUtf8(error)),
                Ok(text) => {
                    let data = frame_data_text(&text);
                    if data.as_str().is_empty() {
                        Ok(FrameRead::Skipped)
                    } else {
                        Ok(FrameRead::Data(data))
                    }
                },
            }
        },
    }
}

/// What comes next out of a buffer: the data of the first frame that has some,
/// `None` if there is no such frame yet, or what is wrong with a frame; and the
/// bytes that are left.
pub open spec fn next_data(buffer: Seq<u8>) -> (Result<Option<Text>, ClientErrorView>, Seq<u8>)
    decreases buffer.len(),
{
    match boundary(buffer) {
        None => (Ok(None), buffer),
        Some((at, size)) => {
            let frame = buffer.take(at);
            let rest = after_frame(buffer);
            if !valid_utf8(frame) {
                (Err(ClientErrorView::InvalidUtf8(utf8_fault(frame))), rest)
            } else if frame_data(decode_utf8(frame)).len() > 0 {
                (Ok(Some(frame_data(decode_utf8(frame)))), rest)
            } else if rest.len() < buffer.len() {
                next_data(rest)
            } else {
                (Ok(None), rest)
            }
        },
    }
}

/// The view of what was read.
pub open spec fn read_view(r: Result<Option<String>, ClientError>) -> Result<
    Option<Text>,
    ClientErrorView,
> {
    match r {
        Ok(data) => Ok(opt_view(data)),
        Err(error) => Err(error@),
    }
}

/// The client's end of an event stream: the bytes that are not taken yet.
#[derive(Debug)]
pub struct EventReader {
    pub buffer: Vec<u8>,
}

impl Default for EventReader {
    fn default() -> (r: EventReader)
        ensures
            r.buffer@.len() == 0,
    {
        EventReader { buffer: Vec::new() }
    }
}

impl EventReader {
    /// Takes a piece of the stream.
    pub fn push(&mut self, bytes: &[u8])
        ensures
            final(self).buffer@ == old(self).buffer@ + bytes@,
    {
        self.buffer.extend_from_slice(bytes);
    }

    /// The data of the next event. `None` means that another piece of the
    /// stream is needed; frames without data are passed over.
    pub fn next_data(&mut self) -> (r: Result<Option<String>, ClientError>)
        ensures
            next_data(old(self).buffer@) == (read_view(r), final(self).buffer@),
    {
        let ghost start = self.buffer@;
        loop
            invariant
                start == old(self).buffer@,
                next_data(start) == next_data(self.buffer@),
            decreases self.buffer@.len(),
        {
            let ghost before = self.buffer@;
            proof {
                boundary_is_inside(before);
            }
            match take_event(&mut self.buffer) {
                Err(error) => {
                    return Err(error);
                },
                Ok(FrameRead::Data(data)) => {
                    return Ok(Some(data));
                },
                Ok(FrameRead::Incomplete) => {
                    return Ok(None);
                },
                Ok(FrameRead::Skipped) => {},
            }
        }
    }
}

/// How the event stream is cut into pieces does not matter: an event, or a
/// fault, that is there stays what it is when more arrives, and reading goes on
/// from where it stopped.
pub proof fn pieces_do_not_matter(a: Seq<u8>, b: Seq<u8>)
    requires
        one_line_end(a + b),
    ensures
        next_data(a).0 matches Ok(None) ==> next_data(a + b) == next_data(next_data(a).1 + b),
        !(next_data(a).0 matches Ok(None)) ==> next_data(a + b) == (
            next_data(a).0,
            next_data(a).1 + b,
        ),
    decreases a.len(),
{
    if boundary(a) is Some {
        first_frame_is_stable(a, b);
        boundary_is_inside(a);
        boundary_is_inside(a + b);
        pieces_do_not_matter(after_frame(a), b);
    }
}

/// The lines of an entry of an event stream: its event, its data and its id.
pub open spec fn entry_lines(event: Text, data: Text, id: Text) -> Seq<Text> {
    seq!["event: "@ + event, "data: "@ + data, "id: "@ + id]
}

proof fn entries_carry_their_data(event: Text, data: Text, id: Text)
    requires
        data.len() > 0,
        !is_space(data[0]),
    ensures
        data_lines(entry_lines(event, data, id)) == seq![data],
{
    reveal_strlit("event: ");
    reveal_strlit("data: ");
    reveal_strlit("id: ");
    reveal_strlit("data:");
    let all = entry_lines(event, data, id);
    let two = all.drop_last();
    let one = two.drop_last();
    assert(one.drop_last() =~= seq![]);
    assert(one.last() == "event: "@ + event && one.last()[0] == 'e');
    assert(two.last() == "data: "@ + data);
    assert(all.last() == "id: "@ + id && all.last()[0] == 'i');
    if starts_with(one.last(), "data:"@) {
        assert(one.last().subrange(0, 5)[0] == 'd');
    }
    if starts_with(all.last(), "data:"@) {
        assert(all.last().subrange(0, 5)[0] == 'd');
    }
    assert(two.last().subrange(0, 5) =~= "data:"@);
    let carried = two.last().skip(5);
    assert(carried[0] == ' ');
    assert(carried.drop_first() =~= data);
    assert(trim_start(carried) == data) by {
        reveal_with_fuel(trim_start, 2);
    }
    assert(!starts_with(one.last(), "data:"@) && !starts_with(all.last(), "data:"@));
    assert(data_lines(one.drop_last()) =~= seq![]);
    assert(data_lines(one) =~= seq![]);
    assert(data_lines(two) =~= seq![data]);
    assert(data_lines(all) =~= seq![data]);
}

/// What is sent as one entry of the event stream is what the client reads: its
/// data, if that stands on one line and does not begin with white space. The
/// stream goes on behind the entry.
pub proof fn entries_are_read_back(event: Text, data: Text, id: Text, rest: Seq<u8>)
    requires
        is_line(event),
        is_line(data),
        is_line(id),
        data.len() > 0,
        !is_space(data[0]),
    ensures
        next_data(
            encode_utf8(join(entry_lines(event, data, id), "\n"@)) + lf_break() + rest,
        ) == (Ok::<Option<Text>, ClientErrorView>(Some(data)), rest),
{
    reveal_strlit("event: ");
    reveal_strlit("data: ");
    reveal_strlit("id: ");
    let items = entry_lines(event, data, id);
    assert forall|i: int| 0 <= i < items.len() implies is_line(#[trigger] items[i])
        && items[i].len() > 0 by {
        prefixed_line("event: "@, event);
        prefixed_line("data: "@, data);
        prefixed_line("id: "@, id);
    }
    entries_carry_their_data(event, data, id);
    frames_are_read_back(items, rest);
    assert(join(data_lines(items), "\n"@) == data);
}

proof fn prefixed_line(prefix: Text, line: Text)
    requires
        is_line(line),
        prefix.len() > 0,
        prefix.last() == ' ',
        forall|i: int| 0 <= i < prefix.len() ==> #[trigger] prefix[i] != '\n',
    ensures
        is_line(prefix + line),
{
    let whole = prefix + line;
    if whole.contains('\n') {
        let i = choose|i: int| 0 <= i < whole.len() && whole[i] == '\n';
        if i >= prefix.len() {
            assert(line.contains(line[i - prefix.len()]));
        } else {
            assert(prefix[i] != '\n');
        }
    }
}

/// Requests go to the server's address with the path behind it, whether or not
/// the address was written with a slash at its end.
pub proof fn endpoints_ignore_final_slashes(client: NexaClientView, path: Text)
    ensures
        (NexaClientView { server_url: client.server_url.push('/'), ..client }).endpoint(path)
            == client.endpoint(path),
        client.server_url.len() == 0 || client.server_url.last() != '/' ==> client.endpoint(path)
            == client.server_url + path,
{
    let url = client.server_url.push('/');
    assert(url.drop_last() =~= client.server_url);
}

/// Every request carries the client's token, and goes to the path that it is made
/// for; one without a body is a plain read.
pub proof fn requests_carry_the_token(
    client: NexaClientView,
    path: Text,
    body: RequestBodyView,
    bounded: bool,
)
    ensures
        client.get(path, bounded) == (RequestView {
            post: false,
            url: client.endpoint(path),
            token: client.token,
            body: None,
            bounded,
        }),
        client.post(path, body) == (RequestView {
            post: true,
            url: client.endpoint(path),
            token: client.token,
            body: Some(body),
            bounded: true,
        }),
{
}

/// A message is sent to the selected session just as it was given, under the
/// client's own id; without a session nothing is sent.
pub proof fn messages_are_sent_as_given(
    client: NexaClient,
    model: ModelRef,
    preset: Option<String>,
    effort: Option<ReasoningEffort>,
    text: String,
    r: Result<Request, ClientError>,
)
    requires
        call_ensures(NexaClient::send_message, (&client, model, preset, effort, text), r),
    ensures
        r is Ok <==> client.session_id is Some,
        r matches Err(error) ==> error@ == ClientErrorView::SessionNotSelected,
        r matches Ok(request) ==> request@.body == Some(
            RequestBodyView::Command(
                CommandView::SendMessage {
                    session_id: client.session_id->0@,
                    client_id: client.client_id@,
                    model: model@,
                    preset: opt_view(preset),
                    reasoning_effort: effort,
                    text: text@,
                },
            ),
        ) && request@.post && request@.url == client@.endpoint("/commands"@) && request@.token
            == opt_view(client.token),
{
}

/// The events of the selected session are subscribed to, for as long as they come;
/// without a session there are none.
pub proof fn the_selected_session_is_followed(client: NexaClient, r: Result<Request, ClientError>)
    requires
        call_ensures(NexaClient::subscribe, (&client,), r),
    ensures
        r is Ok <==> client.session_id is Some,
        r matches Err(error) ==> error@ == ClientErrorView::SessionNotSelected,
        r matches Ok(request) ==> request@.url == client@.endpoint(
            "/sessions/"@ + client.session_id->0@ + "/events"@,
        ) && !request@.post && !request@.bounded && request@.body is None && request@.token
            == opt_view(client.token),
{
}

/// Sessions are opened, created and listed for the workspace that was named.
pub proof fn sessions_are_asked_for_by_workspace(
    client: NexaClient,
    workspace: String,
    opened: Request,
    created: Request,
    listed: Request,
)
    requires
        call_ensures(NexaClient::open_workspace, (&client, workspace), opened),
        call_ensures(NexaClient::create_session, (&client, workspace), created),
        call_ensures(NexaClient::list_sessions, (&client, workspace), listed),
    ensures
        ({
            let body = Some(
                RequestBodyView::Workspace(WorkspaceRequestView { workspace: workspace@ }),
            );
            &&& opened@.body == body && created@.body == body && listed@.body == body
            &&& opened@.post && created@.post && listed@.post
            &&& opened@.url == client@.endpoint("/sessions/open"@)
            &&& created@.url == client@.endpoint("/sessions/create"@)
            &&& listed@.url == client@.endpoint("/sessions/list"@)
            &&& opened@.token == opt_view(client.token)
            &&& created@.token == opt_view(client.token)
            &&& listed@.token == opt_view(client.token)
        }),
{
}

/// An answer is accepted exactly if its status is one of success; a refused one is
/// told with its status line and its body.
pub proof fn rejections_are_told(
    status: u16,
    status_line: String,
    body: String,
    r: Result<(), ClientError>,
)
    requires
        call_ensures(accepted_response, (status, status_line, Ok::<String, String>(body)), r),
    ensures
        r is Ok <==> 200 <= status <= 299,
        r matches Err(error) ==> error@ == (ClientErrorView::Rejected {
            status: status_line@,
            body: body@,
        }),
{
}

/// Only a server that speaks the client's protocol, or a later one, is talked to.
pub proof fn older_servers_are_refused(advertised: Option<u32>, r: Result<(), ClientError>)
    requires
        call_ensures(accepted_protocol, (advertised,), r),
    ensures
        r is Ok <==> advertised is Some && advertised->0 >= PROTOCOL_VERSION,
        r matches Err(error) ==> error@ == ClientErrorView::OldServer(advertised),
{
}

/// A comment in the event stream, such as a keep-alive, is passed over.
pub proof fn comments_are_passed_over(comment: Text, rest: Seq<u8>)
    requires
        is_line(comment),
    ensures
        next_data(encode_utf8(": "@ + comment) + lf_break() + rest) == next_data(rest),
{
    reveal_strlit(": ");
    reveal_strlit("data:");
    let line = ": "@ + comment;
    let items = seq![line];
    prefixed_line(": "@, comment);
    assert(items.drop_last() =~= seq![]);
    if starts_with(line, "data:"@) {
        assert(line.subrange(0, 5)[0] == 'd');
    }
    assert(data_lines(items.drop_last()) =~= seq![]);
    assert(data_lines(items) =~= seq![]);
    assert(join(items.drop_last(), "\n"@) =~= seq![]);
    assert(join(items, "\n"@) == line);
    frames_are_read_back(items, rest);
    let buffer = encode_utf8(line) + lf_break() + rest;
    boundary_is_inside(buffer);
}

} // verus!
