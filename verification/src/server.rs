//! The local HTTP server: who may ask, what is accepted, and what each request
//! is answered.

use crate::protocol::{
    AcceptedCommand, AcceptedCommandView, Command, CommandView, ModelRef, ModelRefView,
    PresetSummary, PresetSummaryView, ProviderSummary, ProviderSummaryView, ReasoningEffort,
    SessionInfo, SessionInfoView, SessionSummary, SessionSummaryView,
};
use crate::registry::{RegistryError, RegistryErrorView};
use crate::session::{PendingMessage, PendingMessageView, SessionError, SessionErrorView};
use crate::text::{
    concat, debug_form, debug_text, decimal, decimal_text, is_blank, opt_view, precedes,
    precedes_is_an_order, same, strip_prefix_text, text_precedes, trim, trim_text, views, Text,
};
use vstd::prelude::*;

verus! {

pub const OK: u16 = 200;

pub const CREATED: u16 = 201;

pub const BAD_REQUEST: u16 = 400;

pub const UNAUTHORIZED: u16 = 401;

pub const NOT_FOUND: u16 = 404;

pub const CONFLICT: u16 = 409;

pub const INTERNAL_SERVER_ERROR: u16 = 500;

/// The content of a [`Preset`].
#[verifier::ext_equal]
pub struct PresetView {
    pub name: Text,
    pub tools: Seq<Text>,
}

/// A loaded agent preset. An empty tool list means every tool.
#[derive(Debug, Eq, PartialEq)]
pub struct Preset {
    pub name: String,
    pub tools: Vec<String>,
}

impl View for Preset {
    type V = PresetView;

    open spec fn view(&self) -> PresetView {
        PresetView {
            name: self.name@,
            tools: views(self.tools@),
        }
    }
}

impl Clone for Preset {
    fn clone(&self) -> (r: Self)
        ensures
            r@ == self@,
    {
        let r = Preset {
            name: self.name.clone(),
            tools: self.tools.clone(),
        };
        assert(r@ =~~= self@);
        r
    }
}

/// The content of a [`ReplyBody`].
#[verifier::ext_equal]
pub enum ReplyBodyView {
    Error(Text),
    Accepted(AcceptedCommandView),
    Session(SessionInfoView),
    Sessions(Seq<SessionSummaryView>),
    Presets(Seq<PresetSummaryView>),
    Providers(Seq<ProviderSummaryView>),
}

/// What a request is answered with. An error is sent as `{"error": ...}`.
#[derive(Debug, Eq, PartialEq)]
pub enum ReplyBody {
    Error(String),
    Accepted(AcceptedCommand),
    Session(SessionInfo),
    Sessions(Vec<SessionSummary>),
    Presets(Vec<PresetSummary>),
    Providers(Vec<ProviderSummary>),
}

impl View for ReplyBody {
    type V = ReplyBodyView;

    open spec fn view(&self) -> ReplyBodyView {
        match self {
            ReplyBody::Error(item) => ReplyBodyView::Error(item@),
            ReplyBody::Accepted(item) => ReplyBodyView::Accepted(item@),
            ReplyBody::Session(item) => ReplyBodyView::Session(item@),
            ReplyBody::Sessions(item) => ReplyBodyView::Sessions(views(item@)),
            ReplyBody::Presets(item) => ReplyBodyView::Presets(views(item@)),
            ReplyBody::Providers(item) => ReplyBodyView::Providers(views(item@)),
        }
    }
}

impl Clone for ReplyBody {
    fn clone(&self) -> (r: Self)
        ensures
            r@ == self@,
    {
        let r = match self {
            ReplyBody::Error(item) => ReplyBody::Error(item.clone()),
            ReplyBody::Accepted(item) => ReplyBody::Accepted(item.clone()),
            ReplyBody::Session(item) => ReplyBody::Session(item.clone()),
            ReplyBody::Sessions(item) => ReplyBody::Sessions(item.clone()),
            ReplyBody::Presets(item) => ReplyBody::Presets(item.clone()),
            ReplyBody::Providers(item) => ReplyBody::Providers(item.clone()),
        };
        assert(r@ =~~= self@);
        r
    }
}

/// The content of a [`Reply`].
#[verifier::ext_equal]
pub struct ReplyView {
    pub status: u16,
    pub body: ReplyBodyView,
}

/// The answer to a request.
#[derive(Debug, Eq, PartialEq)]
pub struct Reply {
    pub status: u16,
    pub body: ReplyBody,
}

impl View for Reply {
    type V = ReplyView;

    open spec fn view(&self) -> ReplyView {
        ReplyView {
            status: self.status,
            body: self.body@,
        }
    }
}

impl Clone for Reply {
    fn clone(&self) -> (r: Self)
        ensures
            r@ == self@,
    {
        let r = Reply {
            status: self.status,
            body: self.body.clone(),
        };
        assert(r@ =~~= self@);
        r
    }
}

/// The content of an [`AcceptedMessage`].
#[verifier::ext_equal]
pub struct AcceptedMessageView {
    pub session_id: Text,
    pub message: PendingMessageView,
}

/// A message that may go to its session.
#[derive(Debug, Eq, PartialEq)]
pub struct AcceptedMessage {
    pub session_id: String,
    pub message: PendingMessage,
}

impl View for AcceptedMessage {
    type V = AcceptedMessageView;

    open spec fn view(&self) -> AcceptedMessageView {
        AcceptedMessageView {
            session_id: self.session_id@,
            message: self.message@,
        }
    }
}

impl Clone for AcceptedMessage {
    fn clone(&self) -> (r: Self)
        ensures
            r@ == self@,
    {
        let r = AcceptedMessage {
            session_id: self.session_id.clone(),
            message: self.message.clone(),
        };
        assert(r@ =~~= self@);
        r
    }
}

/// An answer that reports an error.
pub open spec fn error_reply(status: u16, error: Text) -> ReplyView {
    ReplyView { status, body: ReplyBodyView::Error(error) }
}

pub fn error_response(status: u16, error: &str) -> (r: Reply)
    ensures
        r@ == error_reply(status, error@),
{
    Reply { status, body: ReplyBody::Error(error.to_owned()) }
}

/// Whether an authorization header carries the server's token.
pub open spec fn is_authenticated(authorization: Option<Text>, token: Text) -> bool {
    authorization matches Some(value) && value == "Bearer "@ + token
}

/// Whether an authorization header carries the server's token.
pub fn authenticated(authorization: &Option<String>, token: &str) -> (r: bool)
    ensures
        r == is_authenticated(opt_view(*authorization), token@),
{
    match authorization {
        Some(value) => match strip_prefix_text(value, "Bearer ") {
            Some(rest) => {
                assert(value@ =~= "Bearer "@ + rest@) by {
                    assert(value@.take("Bearer "@.len() as int) == "Bearer "@);
                }
                if same(&rest, token) {
                    true
                } else {
                    assert(("Bearer "@ + token@).skip("Bearer "@.len() as int) =~= token@);
                    assert(("Bearer "@ + rest@).skip("Bearer "@.len() as int) =~= rest@);
                    false
                }
            },
            None => {
                assert(("Bearer "@ + token@).take("Bearer "@.len() as int) =~= "Bearer "@);
                false
            },
        },
        None => false,
    }
}

/// The answer to a request without the server's token.
pub open spec fn unauthorized() -> ReplyView {
    error_reply(UNAUTHORIZED, "local server authentication required"@)
}

pub fn authentication_required() -> (r: Reply)
    ensures
        r@ == unauthorized(),
{
    error_response(UNAUTHORIZED, "local server authentication required")
}

/// Lets a request with the server's token pass and answers any other.
pub fn require_token(authorization: &Option<String>, token: &str) -> (r: Result<(), Reply>)
    ensures
        r is Ok <==> is_authenticated(opt_view(*authorization), token@),
        r matches Err(reply) ==> reply@ == unauthorized(),
{
    if authenticated(authorization, token) {
        Ok(())
    } else {
        Err(authentication_required())
    }
}

/// Whether some preset has a name.
pub open spec fn has_preset(presets: Seq<PresetView>, name: Text) -> bool {
    exists|i: int| 0 <= i < presets.len() && (#[trigger] presets[i]).name == name
}

/// The tools of the first preset with a name.
pub open spec fn preset_tools(presets: Seq<PresetView>, name: Text) -> Seq<Text>
    decreases presets.len(),
{
    if presets.len() == 0 {
        seq![]
    } else if presets[0].name == name {
        presets[0].tools
    } else {
        preset_tools(presets.drop_first(), name)
    }
}

/// The tool scope that a named preset gives a run, if there is such a preset.
fn find_preset(presets: &Vec<Preset>, name: &str) -> (r: Option<Vec<String>>)
    ensures
        r is Some <==> has_preset(views(presets@), name@),
        r matches Some(tools) ==> views(tools@) == preset_tools(views(presets@), name@),
{
    let ghost all = views(presets@);
    let mut i: usize = 0;
    assert(all.skip(0) =~= all);
    while i < presets.len()
        invariant
            i <= presets@.len(),
            all == views(presets@),
            forall|k: int| 0 <= k < i ==> (#[trigger] all[k]).name != name@,
            preset_tools(all, name@) == preset_tools(all.skip(i as int), name@),
        decreases presets@.len() - i,
    {
        assert(all[i as int] == presets@[i as int]@);
        assert(all.skip(i as int).drop_first() =~= all.skip(i as int + 1));
        if same(&presets[i].name, name) {
            let tools = presets[i].tools.clone();
            assert(views(tools@) =~= all[i as int].tools);
            return Some(tools);
        }
        i += 1;
    }
    None
}

/// What clients are told of the presets: their names and their tools, as they
/// are, without a description.
pub open spec fn preset_rows(presets: Seq<PresetView>) -> Seq<PresetSummaryView> {
    presets.map_values(
        |preset: PresetView|
            PresetSummaryView { name: preset.name, description: seq![], tools: preset.tools },
    )
}

/// What clients are told of the presets.
pub fn preset_summaries(presets: &Vec<Preset>) -> (r: Vec<PresetSummary>)
    ensures
        views(r@) == preset_rows(views(presets@)),
{
    let mut out: Vec<PresetSummary> = Vec::new();
    let mut i: usize = 0;
    while i < presets.len()
        invariant
            i <= presets@.len(),
            out@.len() == i,
            forall|k: int|
                0 <= k < i ==> (#[trigger] out@[k])@ == (PresetSummaryView {
                    name: presets@[k]@.name,
                    description: seq![],
                    tools: presets@[k]@.tools,
                }),
        decreases presets@.len() - i,
    {
        let tools = presets[i].tools.clone();
        assert(views(tools@) =~= presets@[i as int]@.tools);
        out.push(
            PresetSummary { name: presets[i].name.clone(), description: String::new(), tools },
        );
        i += 1;
    }
    assert(views(out@) =~= preset_rows(views(presets@)));
    out
}

/// What a command asks for once it is accepted: all its texts without white
/// space around them, and the tools of its preset.
pub open spec fn accepted(presets: Seq<PresetView>, command: CommandView) -> AcceptedMessageView {
    match command {
        CommandView::SendMessage { session_id, client_id, model, preset, reasoning_effort, text } => AcceptedMessageView {
            session_id: trim(session_id),
            message: PendingMessageView {
                client_id: trim(client_id),
                model: ModelRefView { provider: trim(model.provider), id: trim(model.id) },
                reasoning_effort,
                allowed_tools: match preset {
                    Some(name) => Some(preset_tools(presets, name)),
                    None => None,
                },
                text: trim(text),
            },
        },
    }
}

/// Why a command is refused before it reaches its session, if it is.
pub open spec fn command_refusal(presets: Seq<PresetView>, command: CommandView) -> Option<ReplyView> {
    match command {
        CommandView::SendMessage { session_id, client_id, model, preset, text, .. } => if preset matches Some(
            name,
        ) && name.len() > 0 && !has_preset(presets, name) {
            Some(error_reply(NOT_FOUND, "unknown agent preset "@ + debug_form(preset->0)))
        } else if preset matches Some(name) && name.len() == 0 {
            Some(error_reply(BAD_REQUEST, "preset must not be empty when provided"@))
        } else if trim(session_id).len() == 0 || trim(client_id).len() == 0 || trim(
            model.provider,
        ).len() == 0 || trim(model.id).len() == 0 || trim(text).len() == 0 {
            Some(
                error_reply(
                    BAD_REQUEST,
                    "sessionId, clientId, model, and text must not be empty"@,
                ),
            )
        } else {
            None
        },
    }
}

/// What becomes of a command: first the token is checked, then the body, then the
/// preset, then the fields.
pub open spec fn admission(
    authorization: Option<Text>,
    token: Text,
    presets: Seq<PresetView>,
    decoded: Result<CommandView, Text>,
) -> Result<AcceptedMessageView, ReplyView> {
    if !is_authenticated(authorization, token) {
        Err(unauthorized())
    } else {
        match decoded {
            Err(error) => Err(error_reply(BAD_REQUEST, error)),
            Ok(command) => match command_refusal(presets, command) {
                Some(refusal) => Err(refusal),
                None => Ok(accepted(presets, command)),
            },
        }
    }
}

/// A decoded body, or the decoder's complaint.
pub open spec fn decoded_view(decoded: Result<Command, String>) -> Result<CommandView, Text> {
    match decoded {
        Ok(command) => Ok(command@),
        Err(error) => Err(error@),
    }
}

/// Admits a command to its session, or answers why not. `decoded` is the decoded
/// body, or the decoder's complaint.
pub fn accept_command(
    authorization: &Option<String>,
    token: &str,
    presets: &Vec<Preset>,
    decoded: Result<Command, String>,
) -> (r: Result<AcceptedMessage, Reply>)
    ensures
        match admission(
            opt_view(*authorization),
            token@,
            views(presets@),
            decoded_view(decoded),
        ) {
            Ok(message) => r matches Ok(admitted) && admitted@ == message,
            Err(refusal) => r matches Err(reply) && reply@ == refusal,
        },
{
    if !authenticated(authorization, token) {
        return Err(authentication_required());
    }
    let command = match decoded {
        Ok(command) => command,
        Err(error) => {
            return Err(error_response(BAD_REQUEST, &error));
        },
    };
    match command {
        Command::SendMessage { session_id, client_id, model, preset, reasoning_effort, text } => {
            let allowed_tools = match &preset {
                None => None,
                Some(name) => {
                    if name.as_str().is_empty() {
                        return Err(
                            error_response(BAD_REQUEST, "preset must not be empty when provided"),
                        );
                    }
                    match find_preset(presets, name) {
                        Some(tools) => Some(tools),
                        None => {
                            return Err(
                                error_response(
                                    NOT_FOUND,
                                    &concat("unknown agent preset ", &debug_text(name)),
                                ),
                            );
                        },
                    }
                },
            };
            let session_id = trim_text(&session_id);
            let message = PendingMessage {
                client_id: trim_text(&client_id),
                model: ModelRef {
                    provider: trim_text(&model.provider),
                    id: trim_text(&model.id),
                },
                reasoning_effort,
                allowed_tools,
                text: trim_text(&text),
            };
            if session_id.as_str().is_empty() || message.client_id.as_str().is_empty()
                || message.model.provider.as_str().is_empty()
                || message.model.id.as_str().is_empty() || message.text.as_str().is_empty() {
                return Err(
                    error_response(
                        BAD_REQUEST,
                        "sessionId, clientId, model, and text must not be empty",
                    ),
                );
            }
            Ok(AcceptedMessage { session_id, message })
        },
    }
}

/// The answer to an error of the registry.
pub open spec fn registry_reply(error: RegistryErrorView) -> ReplyView {
    let status = if error is NotFound {
        NOT_FOUND
    } else if error is Workspace || error is InvalidWorkspace || error is InvalidSessionId {
        BAD_REQUEST
    } else {
        INTERNAL_SERVER_ERROR
    };
    error_reply(status, error.message_text())
}

/// The answer to an error of the registry.
pub fn registry_error_response(error: &RegistryError) -> (r: Reply)
    ensures
        r@ == registry_reply(error@),
{
    let status = if error.is_not_found() {
        NOT_FOUND
    } else if error.is_invalid_request() {
        BAD_REQUEST
    } else {
        INTERNAL_SERVER_ERROR
    };
    error_response(status, &error.message())
}

/// The answer to a message that reached its session.
pub open spec fn append_reply(outcome: Result<u64, SessionErrorView>) -> ReplyView {
    match outcome {
        Ok(sequence) => ReplyView {
            status: CREATED,
            body: ReplyBodyView::Accepted(AcceptedCommandView { accepted: true, sequence }),
        },
        Err(SessionErrorView::Busy) => error_reply(
            CONFLICT,
            "the session agent is already running"@,
        ),
        Err(SessionErrorView::InvalidModel(error)) => error_reply(BAD_REQUEST, error),
        Err(error) => error_reply(INTERNAL_SERVER_ERROR, error.message_text()),
    }
}

/// The answer to a message that reached its session: the number of its log
/// entry, or why it was refused.
pub fn append_response(outcome: Result<u64, SessionError>) -> (r: Reply)
    ensures
        r@ == append_reply(
            match outcome {
                Ok(sequence) => Ok(sequence),
                Err(error) => Err(error@),
            },
        ),
{
    match outcome {
        Ok(sequence) => Reply {
            status: CREATED,
            body: ReplyBody::Accepted(AcceptedCommand { accepted: true, sequence }),
        },
        Err(SessionError::Busy) => error_response(CONFLICT, "the session agent is already running"),
        Err(SessionError::InvalidModel(error)) => error_response(BAD_REQUEST, &error),
        Err(error) => error_response(INTERNAL_SERVER_ERROR, &error.message()),
    }
}

/// Why a request about a workspace is refused, if it is.
pub open spec fn workspace_refusal(
    authorization: Option<Text>,
    token: Text,
    workspace: Text,
) -> Option<ReplyView> {
    if !is_authenticated(authorization, token) {
        Some(unauthorized())
    } else if trim(workspace).len() == 0 {
        Some(error_reply(BAD_REQUEST, "workspace must not be empty"@))
    } else {
        None
    }
}

/// Admits a request about a workspace, or answers why not.
pub fn accept_workspace(authorization: &Option<String>, token: &str, workspace: &str) -> (r: Result<
    (),
    Reply,
>)
    ensures
        match workspace_refusal(opt_view(*authorization), token@, workspace@) {
            Some(refusal) => r matches Err(reply) && reply@ == refusal,
            None => r is Ok,
        },
{
    if !authenticated(authorization, token) {
        return Err(authentication_required());
    }
    if is_blank(workspace) {
        return Err(error_response(BAD_REQUEST, "workspace must not be empty"));
    }
    Ok(())
}

/// The answer to the creation of a session.
pub fn create_response(outcome: Result<SessionInfo, RegistryError>) -> (r: Reply)
    ensures
        match outcome {
            Ok(info) => r@ == (ReplyView { status: CREATED, body: ReplyBodyView::Session(info@) }),
            Err(error) => r@ == registry_reply(error@),
        },
{
    match outcome {
        Ok(info) => Reply { status: CREATED, body: ReplyBody::Session(info) },
        Err(error) => registry_error_response(&error),
    }
}

/// The answer to the listing of sessions.
pub fn list_response(outcome: Result<Vec<SessionSummary>, RegistryError>) -> (r: Reply)
    ensures
        match outcome {
            Ok(sessions) => r@ == (ReplyView {
                status: OK,
                body: ReplyBodyView::Sessions(views(sessions@)),
            }),
            Err(error) => r@ == registry_reply(error@),
        },
{
    match outcome {
        Ok(sessions) => Reply { status: OK, body: ReplyBody::Sessions(sessions) },
        Err(error) => registry_error_response(&error),
    }
}

/// The answer to a request for a catalog.
pub open spec fn catalog_reply(
    authorization: Option<Text>,
    token: Text,
    catalog: ReplyBodyView,
) -> ReplyView {
    if is_authenticated(authorization, token) {
        ReplyView { status: OK, body: catalog }
    } else {
        unauthorized()
    }
}

/// The answer to a request for the presets.
pub fn preset_catalog(authorization: &Option<String>, token: &str, presets: &Vec<Preset>) -> (r:
    Reply)
    ensures
        r@ == catalog_reply(
            opt_view(*authorization),
            token@,
            ReplyBodyView::Presets(preset_rows(views(presets@))),
        ),
{
    if !authenticated(authorization, token) {
        return authentication_required();
    }
    Reply { status: OK, body: ReplyBody::Presets(preset_summaries(presets)) }
}

/// The answer to a request for the providers.
pub fn provider_catalog(
    authorization: &Option<String>,
    token: &str,
    providers: &Vec<ProviderSummary>,
) -> (r: Reply)
    ensures
        r@ == catalog_reply(
            opt_view(*authorization),
            token@,
            ReplyBodyView::Providers(views(providers@)),
        ),
{
    if !authenticated(authorization, token) {
        return authentication_required();
    }
    let copied = providers.clone();
    assert(views(copied@) =~= views(providers@));
    Reply { status: OK, body: ReplyBody::Providers(copied) }
}

/// A message that is admitted has no blank field, and its scope is that of its
/// preset: no preset, or one without tools, leaves every tool available.
pub proof fn admitted_messages_are_complete(presets: Seq<PresetView>, command: CommandView)
    requires
        command_refusal(presets, command) is None,
    ensures
        ({
            let message = accepted(presets, command);
            &&& message.session_id.len() > 0
            &&& message.message.client_id.len() > 0
            &&& message.message.model.provider.len() > 0
            &&& message.message.model.id.len() > 0
            &&& message.message.text.len() > 0
            &&& command->preset is None <==> message.message.allowed_tools is None
            &&& command->preset matches Some(name) ==> has_preset(presets, name)
                && message.message.allowed_tools == Some(preset_tools(presets, name))
        }),
{
}

/// A request that does not carry the server's token is served nothing: whatever
/// it asks for, it is answered that authentication is required.
pub proof fn requests_need_the_token(
    authorization: Option<Text>,
    token: Text,
    presets: Seq<PresetView>,
    decoded: Result<CommandView, Text>,
    workspace: Text,
    catalog: ReplyBodyView,
)
    requires
        !is_authenticated(authorization, token),
    ensures
        admission(authorization, token, presets, decoded)
            == Err::<AcceptedMessageView, ReplyView>(unauthorized()),
        workspace_refusal(authorization, token, workspace) == Some(unauthorized()),
        catalog_reply(authorization, token, catalog) == unauthorized(),
        unauthorized().status == UNAUTHORIZED,
{
}

/// The token that a client sends as a bearer token is the one that it was given:
/// it passes if and only if it is the server's.
pub proof fn bearer_tokens_are_compared_whole(sent: Text, token: Text)
    ensures
        is_authenticated(Some("Bearer "@ + sent), token) <==> sent == token,
{
    let size = "Bearer "@.len() as int;
    assert(("Bearer "@ + sent).skip(size) =~= sent);
    assert(("Bearer "@ + token).skip(size) =~= token);
}

/// Whether one preset stands before another: by its name, and among equal names
/// by its position.
pub open spec fn stands_before(presets: Seq<PresetView>, i: int, j: int) -> bool {
    precedes(presets[i].name, presets[j].name) || presets[i].name == presets[j].name && i < j
}

/// Whether `order` lists the first `count` presets by their positions, in the
/// order of their names.
pub open spec fn lists_in_order(presets: Seq<PresetView>, count: int, order: Seq<int>) -> bool {
    &&& order.len() == count
    &&& forall|i: int| 0 <= i < order.len() ==> 0 <= #[trigger] order[i] < count
    &&& forall|i: int, j: int|
        0 <= i < j < order.len() ==> stands_before(
            presets,
            #[trigger] order[i],
            #[trigger] order[j],
        )
}

/// The presets at the listed positions.
pub open spec fn presets_at(presets: Seq<PresetView>, order: Seq<int>) -> Seq<PresetView> {
    order.map_values(|position: int| presets[position])
}

/// Sorts presets by name. Presets of the same name stay in their order.
pub fn sort_presets(presets: Vec<Preset>) -> (r: Vec<Preset>)
    ensures
        exists|order: Seq<int>| #[trigger]
            lists_in_order(views(presets@), presets@.len() as int, order) && views(r@)
                == presets_at(views(presets@), order),
{
    let ghost all = views(presets@);
    let mut out: Vec<Preset> = Vec::new();
    let ghost mut order: Seq<int> = seq![];
    let mut i: usize = 0;
    assert(views(out@) =~= presets_at(all, order));
    while i < presets.len()
        invariant
            i <= presets@.len(),
            all == views(presets@),
            lists_in_order(all, i as int, order),
            views(out@) == presets_at(all, order),
        decreases presets@.len() - i,
    {
        let ghost before = views(out@);
        assert(before.len() == order.len());
        let mut at: usize = out.len();
        while at > 0 && text_precedes(&presets[i].name, &out[at - 1].name)
            invariant
                i < presets@.len(),
                all == views(presets@),
                at <= out@.len(),
                before == views(out@),
                before == presets_at(all, order),
                before.len() == order.len(),
                forall|k: int|
                    at <= k < order.len() ==> precedes(
                        all[i as int].name,
                        all[#[trigger] order[k]].name,
                    ),
            decreases at,
        {
            assert(before[at - 1] == out@[at - 1]@);
            assert(before[at - 1] == all[order[at - 1]]);
            at -= 1;
        }
        if at > 0 {
            assert(before[at - 1] == out@[at - 1]@);
            assert(before[at - 1] == all[order[at - 1]]);
        }
        out.insert(at, presets[i].clone());
        assert(views(out@) =~= before.insert(at as int, all[i as int]));
        proof {
            one_more_in_order(all, i as int, order, at as int);
            let longer = order.insert(at as int, i as int);
            assert(presets_at(all, longer) =~= presets_at(all, order).insert(
                at as int,
                all[i as int],
            ));
            order = longer;
        }
        i += 1;
    }
    out
}

/// Listing the next preset where it belongs keeps the order.
proof fn one_more_in_order(presets: Seq<PresetView>, count: int, order: Seq<int>, at: int)
    requires
        lists_in_order(presets, count, order),
        0 <= count < presets.len(),
        0 <= at <= order.len(),
        forall|k: int|
            at <= k < order.len() ==> precedes(
                presets[count].name,
                presets[#[trigger] order[k]].name,
            ),
        at > 0 ==> !precedes(presets[count].name, presets[order[at - 1]].name),
    ensures
        lists_in_order(presets, count + 1, order.insert(at, count)),
{
    let longer = order.insert(at, count);
    let name = presets[count].name;
    assert forall|k: int| 0 <= k < at implies stands_before(presets, #[trigger] order[k], count) by {
        let last = presets[order[at - 1]].name;
        precedes_is_an_order(name, last, name);
        if k < at - 1 {
            assert(stands_before(presets, order[k], order[at - 1]));
            precedes_is_an_order(presets[order[k]].name, last, name);
        }
    }
    assert forall|i: int, j: int| 0 <= i < j < longer.len() implies stands_before(
        presets,
        #[trigger] longer[i],
        #[trigger] longer[j],
    ) by {
        if i == at {
            assert(longer[j] == order[j - 1]);
        } else if j == at {
            assert(longer[i] == order[i]);
        } else {
            let bi = if i < at {
                i
            } else {
                i - 1
            };
            let bj = if j < at {
                j
            } else {
                j - 1
            };
            assert(longer[i] == order[bi]);
            assert(longer[j] == order[bj]);
        }
    }
    assert forall|i: int| 0 <= i < longer.len() implies 0 <= #[trigger] longer[i] < count + 1 by {
        if i != at {
            let b = if i < at {
                i
            } else {
                i - 1
            };
            assert(longer[i] == order[b]);
        }
    }
}

/// The content of a [`StreamItem`].
#[verifier::ext_equal]
pub struct StreamItemView {
    pub id: Option<Text>,
    pub event: Text,
    pub data: Text,
}

/// One entry of a session's event stream as the server sends it.
#[derive(Debug, Eq, PartialEq)]
pub struct StreamItem {
    pub id: Option<String>,
    pub event: String,
    pub data: String,
}

impl View for StreamItem {
    type V = StreamItemView;

    open spec fn view(&self) -> StreamItemView {
        StreamItemView {
            id: opt_view(self.id),
            event: self.event@,
            data: self.data@,
        }
    }
}

impl Clone for StreamItem {
    fn clone(&self) -> (r: Self)
        ensures
            r@ == self@,
    {
        let r = StreamItem {
            id: self.id.clone(),
            event: self.event.clone(),
            data: self.data.clone(),
        };
        assert(r@ =~~= self@);
        r
    }
}

/// The entry for an event with this sequence number, given its JSON text. An
/// event that has none is sent as an error.
pub fn stream_item(sequence: u64, encoded: Result<String, String>) -> (r: StreamItem)
    ensures
        r@ == match encoded {
            Ok(data) => StreamItemView {
                id: Some(decimal(sequence as nat)),
                event: "message"@,
                data: data@,
            },
            Err(error) => StreamItemView { id: None, event: "error"@, data: error@ },
        },
{
    match encoded {
        Ok(data) => StreamItem {
            id: Some(decimal_text(sequence)),
            event: "message".to_owned(),
            data,
        },
        Err(error) => StreamItem { id: None, event: "error".to_owned(), data: error },
    }
}

/// The answer to a subscription that the session refuses.
pub fn subscribe_refusal(error: &SessionError) -> (r: Reply)
    ensures
        r@ == error_reply(INTERNAL_SERVER_ERROR, error@.message_text()),
{
    error_response(INTERNAL_SERVER_ERROR, &error.message())
}

/// A message with the server's token and no blank field, whose preset, if it
/// names one, is known, is admitted with all it says: its texts without white
/// space around them, the effort it asks for, and the tools of its preset.
pub proof fn complete_messages_are_admitted(
    token: Text,
    presets: Seq<PresetView>,
    session_id: Text,
    client_id: Text,
    model: ModelRefView,
    preset: Option<int>,
    reasoning_effort: Option<ReasoningEffort>,
    text: Text,
)
    requires
        trim(session_id).len() > 0,
        trim(client_id).len() > 0,
        trim(model.provider).len() > 0,
        trim(model.id).len() > 0,
        trim(text).len() > 0,
        preset matches Some(i) ==> 0 <= i < presets.len() && presets[i].name.len() > 0 && forall|
            k: int,
        |
            0 <= k < i ==> (#[trigger] presets[k]).name != presets[i].name,
    ensures
        ({
            let command = CommandView::SendMessage {
                session_id,
                client_id,
                model,
                preset: match preset {
                    Some(i) => Some(presets[i].name),
                    None => None,
                },
                reasoning_effort,
                text,
            };
            admission(Some("Bearer "@ + token), token, presets, Ok(command)) == Ok::<
                AcceptedMessageView,
                ReplyView,
            >(
                AcceptedMessageView {
                    session_id: trim(session_id),
                    message: PendingMessageView {
                        client_id: trim(client_id),
                        model: ModelRefView { provider: trim(model.provider), id: trim(model.id) },
                        reasoning_effort,
                        allowed_tools: match preset {
                            Some(i) => Some(presets[i].tools),
                            None => None,
                        },
                        text: trim(text),
                    },
                },
            )
        }),
{
    if let Some(i) = preset {
        assert(has_preset(presets, presets[i].name));
        first_presets_count(presets, i);
    }
}

proof fn first_presets_count(presets: Seq<PresetView>, i: int)
    requires
        0 <= i < presets.len(),
        forall|k: int| 0 <= k < i ==> (#[trigger] presets[k]).name != presets[i].name,
    ensures
        preset_tools(presets, presets[i].name) == presets[i].tools,
    decreases i,
{
    if i > 0 {
        assert(presets[0].name != presets[i].name);
        let rest = presets.drop_first();
        assert forall|k: int| 0 <= k < i - 1 implies (#[trigger] rest[k]).name != rest[i
            - 1].name by {
            assert(rest[k] == presets[k + 1]);
        }
        first_presets_count(rest, i - 1);
    }
}

/// A message with a blank field, and one whose preset is unknown or empty, is
/// refused as a bad request or as not found; the body's own fault is told.
pub proof fn incomplete_messages_are_refused(
    token: Text,
    presets: Seq<PresetView>,
    command: CommandView,
    fault: Text,
)
    requires
        trim(command->session_id).len() == 0 || trim(command->client_id).len() == 0 || trim(
            command->model.provider,
        ).len() == 0 || trim(command->model.id).len() == 0 || trim(command->text).len() == 0 || (
        command->preset is Some && (command->preset->0.len() == 0 || forall|k: int|
            0 <= k < presets.len() ==> (#[trigger] presets[k]).name != command->preset->0)),
    ensures
        admission(Some("Bearer "@ + token), token, presets, Ok(command)) matches Err(reply) && (
        reply.status == 400 || reply.status == 404) && reply.body is Error,
        admission(Some("Bearer "@ + token), token, presets, Err(fault)) == Err::<
            AcceptedMessageView,
            ReplyView,
        >(ReplyView { status: 400, body: ReplyBodyView::Error(fault) }),
{
}

/// The answers tell what became of a request, in the terms of the protocol.
pub proof fn answers_tell_the_outcome(
    sequence: u64,
    error: Text,
    fault: RegistryErrorView,
    authorization: Option<Text>,
    token: Text,
)
    ensures
        append_reply(Ok(sequence)) == (ReplyView {
            status: 201,
            body: ReplyBodyView::Accepted(AcceptedCommandView { accepted: true, sequence }),
        }),
        append_reply(Err(SessionErrorView::Busy)).status == 409,
        append_reply(Err(SessionErrorView::InvalidModel(error))) == (ReplyView {
            status: 400,
            body: ReplyBodyView::Error(error),
        }),
        append_reply(Err(SessionErrorView::Io(error))) == (ReplyView {
            status: 500,
            body: ReplyBodyView::Error(error),
        }),
        append_reply(Err(SessionErrorView::Closed)).status == 500,
        registry_reply(fault).body == ReplyBodyView::Error(fault.message_text()),
        fault is NotFound ==> registry_reply(fault).status == 404,
        fault is Workspace || fault is InvalidWorkspace || fault is InvalidSessionId
            ==> registry_reply(fault).status == 400,
        !(fault is NotFound || fault is Workspace || fault is InvalidWorkspace || fault
            is InvalidSessionId) ==> registry_reply(fault).status == 500,
        unauthorized().status == 401,
{
}

/// Clients are told of every preset, in order, with its name and its tools.
pub proof fn every_preset_is_told(presets: Seq<PresetView>, i: int)
    requires
        0 <= i < presets.len(),
    ensures
        preset_rows(presets).len() == presets.len(),
        preset_rows(presets)[i].name == presets[i].name,
        preset_rows(presets)[i].tools == presets[i].tools,
        preset_rows(presets)[i].description.len() == 0,
{
}

/// With the server's token a workspace that is not blank is admitted, and a
/// catalog is handed out as it is.
pub proof fn the_token_opens_the_server(token: Text, workspace: Text, catalog: ReplyBodyView)
    ensures
        workspace_refusal(Some("Bearer "@ + token), token, workspace) is None <==> trim(
            workspace,
        ).len() > 0,
        catalog_reply(Some("Bearer "@ + token), token, catalog) == (ReplyView {
            status: 200,
            body: catalog,
        }),
{
}

/// A message that is admitted goes to the session it names, with the effort it asks for and with
/// every text it says; none is admitted without the server's token.
pub proof fn admitted_commands_say_what_was_sent(
    authorization: Option<String>,
    token: &str,
    presets: Vec<Preset>,
    command: Command,
    r: Result<AcceptedMessage, Reply>,
)
    requires
        call_ensures(
            accept_command,
            (&authorization, token, &presets, Ok::<Command, String>(command)),
            r,
        ),
    ensures
        r is Ok ==> opt_view(authorization) == Some("Bearer "@ + token@),
        r matches Ok(admitted) ==> (command@ matches CommandView::SendMessage {
            session_id,
            client_id,
            model,
            preset,
            reasoning_effort,
            text,
        } && {
            &&& admitted@.session_id == trim(session_id)
            &&& admitted@.message.client_id == trim(client_id)
            &&& admitted@.message.model.provider == trim(model.provider)
            &&& admitted@.message.model.id == trim(model.id)
            &&& admitted@.message.reasoning_effort == reasoning_effort
            &&& admitted@.message.text == trim(text)
            &&& preset is None ==> admitted@.message.allowed_tools is None
        }),
{
}

/// What the registry says of its sessions is answered as it is.
pub proof fn registry_answers_are_passed_on(
    info: SessionInfo,
    sessions: Vec<SessionSummary>,
    created: Reply,
    listed: Reply,
)
    requires
        call_ensures(create_response, (Ok::<SessionInfo, RegistryError>(info),), created),
        call_ensures(list_response, (Ok::<Vec<SessionSummary>, RegistryError>(sessions),), listed),
    ensures
        created@ == (ReplyView { status: 201, body: ReplyBodyView::Session(info@) }),
        listed@ == (ReplyView { status: 200, body: ReplyBodyView::Sessions(views(sessions@)) }),
{
}

/// An event is sent under its own number, with its own text.
pub proof fn events_are_sent_as_encoded(sequence: u64, data: String, r: StreamItem)
    requires
        call_ensures(stream_item, (sequence, Ok::<String, String>(data)), r),
    ensures
        r@.id == Some(decimal(sequence as nat)),
        r@.event == "message"@,
        r@.data == data@,
{
}

} // verus!
