//! The OpenAI-compatible provider: the registry of configured providers, the
//! request it sends, the stream it reads and the model listing it discovers.

use crate::agent::{InferenceRequest, InferenceRequestView, ProviderEvent, ProviderEventView};
use crate::config::{
    all_valid, reports_first_fault, stored_key, AuthStyle, CredentialFile, ModelEntry,
    ModelEntryView, ProviderConfig, ProviderConfigError, ProviderConfigView, ProviderCredential,
    ProviderFile,
};
use crate::json::{
    first_three_members, four, four_items, four_members, get_member, json_get, json_list,
    json_member, json_object, json_quoted, json_string, json_text_member, list_json,
    lists_are_told_apart, lists_are_written_out, literals_are_told_apart, member_json, member_then,
    members_are_written_out, object_json, one, one_member, regroup, same_behind, text_member,
    text_members_are_told_apart, three, three_members, two, two_members, values_stand_behind_keys,
    Json,
};
use crate::protocol::{
    parse_effort, parse_inverts_spelling, ModelMessage, ModelMessageView, ModelRef, ModelRefView, ModelSummary,
    ModelSummaryView, ProviderSummary, ProviderSummaryView, ReasoningEffort, ToolCall, ToolCallView,
};
use crate::reasoning::{inferred, inferred_reasoning_efforts, levels};
use crate::table::{entries_are_unique, has_key, sorted, value_of, Table};
use crate::text::{
    concat, concat3, debug_form, debug_text, is_blank, join, lowercase, lowercase_text, opt_view,
    precedes, precedes_is_an_order, same, text_precedes, trim, trim_end_char, trim_end_char_text,
    views, Text,
};
use crate::tools::{ToolDefinition, ToolDefinitionView};
use vstd::prelude::*;

verus! {

/// The content of a [`RegisteredProvider`].
#[verifier::ext_equal]
pub struct RegisteredProviderView {
    pub config: ProviderConfigView,
    pub api_key: Option<Text>,
}

/// A configured provider with the key stored for it.
#[derive(Debug, Eq, PartialEq)]
pub struct RegisteredProvider {
    pub config: ProviderConfig,
    pub api_key: Option<String>,
}

impl View for RegisteredProvider {
    type V = RegisteredProviderView;

    open spec fn view(&self) -> RegisteredProviderView {
        RegisteredProviderView {
            config: self.config@,
            api_key: opt_view(self.api_key),
        }
    }
}

impl Clone for RegisteredProvider {
    fn clone(&self) -> (r: Self)
        ensures
            r@ == self@,
    {
        let r = RegisteredProvider {
            config: self.config.clone(),
            api_key: self.api_key.clone(),
        };
        assert(r@ =~~= self@);
        r
    }
}

/// The configured providers, by id.
#[derive(Debug)]
pub struct ProviderRegistry {
    pub providers: Table<RegisteredProvider>,
}

/// Whether a registry holds exactly the providers of a file, each with the key
/// stored for it.
pub open spec fn registers(
    registry: Seq<(Text, RegisteredProvider)>,
    file: Seq<(Text, ProviderConfig)>,
    credentials: Seq<(Text, ProviderCredential)>,
) -> bool {
    &&& registry.len() == file.len()
    &&& forall|i: int|
        0 <= i < file.len() ==> {
            &&& (#[trigger] registry[i]).0 == file[i].0
            &&& registry[i].1@ == (RegisteredProviderView {
                config: file[i].1@,
                api_key: stored_key(credentials, file[i].0),
            })
        }
}

/// The number of models of the first `count` providers.
pub open spec fn models_of(registry: Seq<(Text, RegisteredProvider)>, count: nat) -> nat
    decreases count,
{
    if count == 0 {
        0
    } else {
        models_of(registry, (count - 1) as nat) + registry[count - 1].1.config.models@.len()
    }
}

proof fn models_of_grows(registry: Seq<(Text, RegisteredProvider)>, few: nat, many: nat)
    requires
        few <= many,
    ensures
        models_of(registry, few) <= models_of(registry, many),
    decreases many,
{
    if few < many {
        models_of_grows(registry, few, (many - 1) as nat);
    }
}

/// A model as a front end is told of it: the declared levels, otherwise those
/// implied by its id.
pub open spec fn model_summary(entry: ModelEntryView) -> ModelSummaryView {
    ModelSummaryView {
        id: entry.id(),
        reasoning_efforts: match entry.efforts() {
            Some(list) => Some(list),
            None => inferred(entry.id()),
        },
    }
}

/// A provider as a front end is told of it.
pub open spec fn provider_summary(id: Text, config: ProviderConfigView) -> ProviderSummaryView {
    ProviderSummaryView {
        id,
        name: config.name,
        api_format: config.api_format,
        models: config.models.map_values(|entry: ModelEntryView| model_summary(entry)),
    }
}

/// What is told of every provider, in the order of the ids.
pub open spec fn catalog_of(registry: Seq<(Text, RegisteredProvider)>) -> Seq<ProviderSummaryView> {
    registry.map_values(
        |entry: (Text, RegisteredProvider)| provider_summary(entry.0, entry.1@.config),
    )
}

/// Whether a provider offers a model.
pub open spec fn offers(config: ProviderConfigView, id: Text) -> bool {
    exists|i: int| 0 <= i < config.models.len() && #[trigger] config.models[i].id() == id
}

/// Why a registry rejects a model, if it does.
pub open spec fn model_fault(
    registry: Seq<(Text, RegisteredProvider)>,
    model: ModelRefView,
) -> Option<Text> {
    if !has_key(registry, model.provider) {
        Some("unknown provider "@ + debug_form(model.provider))
    } else if !offers(value_of(registry, model.provider)@.config, model.id) {
        Some(
            "provider "@ + debug_form(model.provider) + " does not offer model "@ + debug_form(
                model.id,
            ),
        )
    } else {
        None
    }
}

fn summarize_model(entry: &ModelEntry) -> (r: ModelSummary)
    ensures
        r@ == model_summary(entry@),
{
    let id = entry.id();
    let reasoning_efforts = match entry.reasoning_efforts() {
        Some(list) => Some(levels(list)),
        None => inferred_reasoning_efforts(id),
    };
    ModelSummary { id: id.to_owned(), reasoning_efforts }
}

fn summarize_provider(id: &str, config: &ProviderConfig) -> (r: ProviderSummary)
    ensures
        r@ == provider_summary(id@, config@),
{
    let mut models: Vec<ModelSummary> = Vec::new();
    let mut i: usize = 0;
    while i < config.models.len()
        invariant
            i <= config.models@.len(),
            models@.len() == i,
            forall|k: int| 0 <= k < i ==> (#[trigger] models@[k])@ == model_summary(config.models@[k]@),
        decreases config.models@.len() - i,
    {
        models.push(summarize_model(&config.models[i]));
        i += 1;
    }
    let r = ProviderSummary {
        id: id.to_owned(),
        name: config.name.clone(),
        api_format: config.api_format,
        models,
    };
    assert(r@.models =~= provider_summary(id@, config@).models);
    r
}

fn offers_model(config: &ProviderConfig, id: &str) -> (r: bool)
    ensures
        r == offers(config@, id@),
{
    let mut i: usize = 0;
    while i < config.models.len()
        invariant
            i <= config.models@.len(),
            forall|k: int| 0 <= k < i ==> #[trigger] config@.models[k].id() != id@,
        decreases config.models@.len() - i,
    {
        assert(config@.models[i as int] == config.models@[i as int]@);
        if same(config.models[i].id(), id) {
            assert(config@.models[i as int].id() == id@);
            return true;
        }
        i += 1;
    }
    false
}

/// The key that a request to a provider carries. Where the provider names an
/// environment variable, its value comes first, unless it is unset or blank;
/// without any key such a provider cannot be asked.
pub open spec fn request_key(
    provider: Text,
    registered: RegisteredProviderView,
    environment: Option<Text>,
) -> Result<Option<Text>, Text> {
    match registered.config.api_key_env {
        None => Ok(registered.api_key),
        Some(variable) => match environment {
            Some(value) if trim(value).len() > 0 => Ok(Some(value)),
            _ => if registered.api_key is Some {
                Ok(registered.api_key)
            } else {
                Err(
                    "provider "@ + debug_form(provider) + " requires authentication through "@
                        + variable,
                )
            },
        },
    }
}

/// The content of a [`ProviderTarget`].
#[verifier::ext_equal]
pub struct ProviderTargetView {
    pub endpoint: Text,
    pub api_key: Option<Text>,
    pub auth: AuthStyle,
}

/// Where and how a request goes out.
#[derive(Debug, Eq, PartialEq)]
pub struct ProviderTarget {
    pub endpoint: String,
    pub api_key: Option<String>,
    pub auth: AuthStyle,
}

impl View for ProviderTarget {
    type V = ProviderTargetView;

    open spec fn view(&self) -> ProviderTargetView {
        ProviderTargetView {
            endpoint: self.endpoint@,
            api_key: opt_view(self.api_key),
            auth: self.auth,
        }
    }
}

impl Clone for ProviderTarget {
    fn clone(&self) -> (r: Self)
        ensures
            r@ == self@,
    {
        let r = ProviderTarget {
            endpoint: self.endpoint.clone(),
            api_key: self.api_key.clone(),
            auth: self.auth,
        };
        assert(r@ =~~= self@);
        r
    }
}

/// The address that completions are requested from.
pub open spec fn completions_endpoint(base_url: Text) -> Text {
    trim_end_char(base_url, '/') + "/chat/completions"@
}

/// The address that models are listed at.
pub open spec fn models_endpoint(base_url: Text) -> Text {
    trim_end_char(base_url, '/') + "/models"@
}

pub fn models_url(base_url: &str) -> (r: String)
    ensures
        r@ == models_endpoint(base_url@),
{
    concat(&trim_end_char_text(base_url, '/'), "/models")
}

pub fn completions_url(base_url: &str) -> (r: String)
    ensures
        r@ == completions_endpoint(base_url@),
{
    concat(&trim_end_char_text(base_url, '/'), "/chat/completions")
}

impl ProviderRegistry {
    /// The registry of a provider file without stored keys.
    pub fn new(file: &ProviderFile) -> (r: Result<ProviderRegistry, ProviderConfigError>)
        ensures
            r is Ok <==> all_valid(file.providers@),
            r matches Ok(registry) ==> registers(
                registry.providers@,
                file.providers@,
                Seq::<(Text, ProviderCredential)>::empty(),
            ),
            r matches Err(error) ==> reports_first_fault(file.providers@, error@),
    {
        let none = CredentialFile::default();
        assert(none.providers@ =~= Seq::<(Text, ProviderCredential)>::empty());
        ProviderRegistry::with_credentials(file, &none)
    }

    /// The registry of a provider file with the keys stored for its providers.
    pub fn with_credentials(file: &ProviderFile, credentials: &CredentialFile) -> (r: Result<
        ProviderRegistry,
        ProviderConfigError,
    >)
        ensures
            r is Ok <==> all_valid(file.providers@),
            r matches Ok(registry) ==> registers(
                registry.providers@,
                file.providers@,
                credentials.providers@,
            ),
            r matches Err(error) ==> reports_first_fault(file.providers@, error@),
    {
        if let Err(error) = file.validated_providers() {
            return Err(error);
        }
        let mut providers: Table<RegisteredProvider> = Table::new();
        let mut i: usize = 0;
        let total: usize = file.providers.len();
        while i < total
            invariant
                total == file.providers@.len(),
                i <= total,
                sorted(file.providers@),
                registers(
                    providers@,
                    file.providers@.take(i as int),
                    credentials.providers@,
                ),
            decreases total - i,
        {
            let id = file.providers.key(i);
            let api_key = match credentials.api_key(id) {
                Some(key) => Some(key.to_owned()),
                None => None,
            };
            let registered = RegisteredProvider {
                config: file.providers.value(i).clone(),
                api_key,
            };
            let ghost before = providers@;
            assert forall|k: int| 0 <= k < before.len() implies precedes(
                #[trigger] before[k].0,
                id@,
            ) by {
                assert(before[k].0 == file.providers@.take(i as int)[k].0);
                assert(precedes(file.providers@[k].0, file.providers@[i as int].0));
            }
            providers.append(id.clone(), registered);
            assert(file.providers@.take(i as int + 1) =~= file.providers@.take(i as int).push(
                file.providers@[i as int],
            ));
            i += 1;
        }
        assert(file.providers@.take(total as int) =~= file.providers@);
        Ok(ProviderRegistry { providers })
    }

    /// The number of models over all providers.
    pub fn model_count(&self) -> (r: usize)
        requires
            models_of(self.providers@, self.providers@.len()) <= usize::MAX,
        ensures
            r == models_of(self.providers@, self.providers@.len()),
    {
        let mut count: usize = 0;
        let mut i: usize = 0;
        let total: usize = self.providers.len();
        while i < total
            invariant
                total == self.providers@.len(),
                i <= total,
                models_of(self.providers@, total as nat) <= usize::MAX,
                count == models_of(self.providers@, i as nat),
            decreases total - i,
        {
            proof {
                models_of_grows(self.providers@, (i + 1) as nat, total as nat);
            }
            count += self.providers.value(i).config.models.len();
            i += 1;
        }
        count
    }

    /// What front ends are told of the providers and their models.
    pub fn catalog(&self) -> (r: Vec<ProviderSummary>)
        ensures
            views(r@) == catalog_of(self.providers@),
    {
        let mut out: Vec<ProviderSummary> = Vec::new();
        let mut i: usize = 0;
        let total: usize = self.providers.len();
        while i < total
            invariant
                total == self.providers@.len(),
                i <= total,
                out@.len() == i,
                forall|k: int|
                    0 <= k < i ==> (#[trigger] out@[k])@ == provider_summary(
                        self.providers@[k].0,
                        self.providers@[k].1@.config,
                    ),
            decreases total - i,
        {
            out.push(summarize_provider(self.providers.key(i), &self.providers.value(i).config));
            i += 1;
        }
        assert(views(out@) =~= catalog_of(self.providers@));
        out
    }

    /// Accepts the provider/model pairs that are configured.
    pub fn validate_model(&self, model: &ModelRef) -> (r: Result<(), String>)
        ensures
            r is Ok <==> model_fault(self.providers@, model@) is None,
            r matches Err(error) ==> model_fault(self.providers@, model@) == Some(error@),
    {
        match self.providers.get(&model.provider) {
            None => Err(concat("unknown provider ", &debug_text(&model.provider))),
            Some(provider) => {
                if offers_model(&provider.config, &model.id) {
                    Ok(())
                } else {
                    let head = concat3(
                        "provider ",
                        &debug_text(&model.provider),
                        " does not offer model ",
                    );
                    Err(concat(&head, &debug_text(&model.id)))
                }
            },
        }
    }

    /// The environment variable that a provider takes its key from, if it
    /// names one.
    pub fn key_variable(&self, provider: &str) -> (r: Option<String>)
        ensures
            r is Some <==> has_key(self.providers@, provider@) && value_of(
                self.providers@,
                provider@,
            )@.config.api_key_env is Some,
            r matches Some(name) ==> value_of(self.providers@, provider@)@.config.api_key_env
                == Some(name@),
    {
        match self.providers.get(provider) {
            Some(registered) => registered.config.api_key_env.clone(),
            None => None,
        }
    }

    /// Where and how the request for a model goes out. `environment` is the
    /// value of the provider's key variable, if it is set.
    pub fn target(&self, model: &ModelRef, environment: Option<String>) -> (r: Result<
        ProviderTarget,
        String,
    >)
        ensures
            match model_fault(self.providers@, model@) {
                Some(fault) => r matches Err(error) && error@ == fault,
                None => {
                    let registered = value_of(self.providers@, model@.provider)@;
                    match request_key(model@.provider, registered, opt_view(environment)) {
                        Err(fault) => r matches Err(error) && error@ == fault,
                        Ok(key) => r matches Ok(target) && target@ == (ProviderTargetView {
                            endpoint: completions_endpoint(registered.config.base_url),
                            api_key: key,
                            auth: registered.config.auth,
                        }),
                    }
                },
            },
    {
        if let Err(error) = self.validate_model(model) {
            return Err(error);
        }
        match self.providers.get(&model.provider) {
            None => Err(concat("unknown provider ", &debug_text(&model.provider))),
            Some(provider) => {
                let api_key = match &provider.config.api_key_env {
                    None => provider.api_key.clone(),
                    Some(variable) => {
                        let usable = match &environment {
                            Some(value) => !is_blank(value),
                            None => false,
                        };
                        if usable {
                            environment
                        } else if provider.api_key.is_some() {
                            provider.api_key.clone()
                        } else {
                            let head = concat3(
                                "provider ",
                                &debug_text(&model.provider),
                                " requires authentication through ",
                            );
                            return Err(concat(&head, variable));
                        }
                    },
                };
                Ok(
                    ProviderTarget {
                        endpoint: completions_url(&provider.config.base_url),
                        api_key,
                        auth: provider.config.auth,
                    },
                )
            },
        }
    }
}

/// Environment credentials take precedence over stored ones.
pub proof fn environment_keys_take_precedence(
    provider: Text,
    registered: RegisteredProviderView,
    value: Text,
)
    requires
        registered.config.api_key_env is Some,
        trim(value).len() > 0,
    ensures
        request_key(provider, registered, Some(value)) == Ok::<Option<Text>, Text>(Some(value)),
{
}

/// Model ids need not be unique across providers: what a provider is asked
/// depends on the provider/model pair alone.
pub proof fn providers_may_share_model_ids(
    registry: Seq<(Text, RegisteredProvider)>,
    first: int,
    second: int,
    id: Text,
)
    requires
        sorted(registry),
        0 <= first < registry.len(),
        0 <= second < registry.len(),
        offers(registry[first].1@.config, id),
        offers(registry[second].1@.config, id),
    ensures
        model_fault(registry, ModelRefView { provider: registry[first].0, id }) is None,
        model_fault(registry, ModelRefView { provider: registry[second].0, id }) is None,
{
    entries_are_unique(registry, first);
    entries_are_unique(registry, second);
}

/// The JSON of a tool call inside an assistant message.
pub open spec fn call_json(call: ToolCallView) -> Text {
    json_object(
        seq![
            json_member(
                "function"@,
                json_object(
                    seq![
                        json_text_member("arguments"@, call.arguments),
                        json_text_member("name"@, call.name),
                    ],
                ),
            ),
            json_text_member("id"@, call.id),
            json_text_member("type"@, "function"@),
        ],
    )
}

/// The JSON of one message of the conversation.
pub open spec fn message_json_spec(message: ModelMessageView) -> Text {
    match message {
        ModelMessageView::User { content } => json_object(
            seq![json_text_member("content"@, content), json_text_member("role"@, "user"@)],
        ),
        ModelMessageView::Assistant { content, tool_calls } => if tool_calls.len() == 0 {
            json_object(
                seq![
                    json_text_member("content"@, content),
                    json_text_member("role"@, "assistant"@),
                ],
            )
        } else {
            json_object(
                seq![
                    json_text_member("content"@, content),
                    json_text_member("role"@, "assistant"@),
                    json_member(
                        "tool_calls"@,
                        json_list(tool_calls.map_values(|call: ToolCallView| call_json(call))),
                    ),
                ],
            )
        },
        ModelMessageView::Tool(result) => json_object(
            seq![
                json_text_member("content"@, result.content),
                json_text_member("role"@, "tool"@),
                json_text_member("tool_call_id"@, result.tool_call_id),
            ],
        ),
    }
}

/// The JSON of a tool offered to the model.
pub open spec fn tool_json_spec(tool: ToolDefinitionView) -> Text {
    json_object(
        seq![
            json_member(
                "function"@,
                json_object(
                    seq![
                        json_text_member("description"@, tool.description),
                        json_text_member("name"@, tool.name),
                        json_member("parameters"@, tool.input_schema),
                    ],
                ),
            ),
            json_text_member("type"@, "function"@),
        ],
    )
}

fn write_call(call: &ToolCall) -> (r: String)
    ensures
        r@ == call_json(call@),
{
    let function = object_json(
        &two(text_member("arguments", &call.arguments), text_member("name", &call.name)),
    );
    object_json(
        &three(
            member_json("function", &function),
            text_member("id", &call.id),
            text_member("type", "function"),
        ),
    )
}

/// One message of the conversation, in JSON.
pub fn message_json(message: &ModelMessage) -> (r: String)
    ensures
        r@ == message_json_spec(message@),
{
    match message {
        ModelMessage::User { content } => object_json(
            &two(text_member("content", content), text_member("role", "user")),
        ),
        ModelMessage::Assistant { content, tool_calls } => {
            let content = text_member("content", content);
            let role = text_member("role", "assistant");
            if tool_calls.len() == 0 {
                object_json(&two(content, role))
            } else {
                let mut calls: Vec<String> = Vec::new();
                let mut i: usize = 0;
                while i < tool_calls.len()
                    invariant
                        i <= tool_calls@.len(),
                        calls@.len() == i,
                        forall|k: int|
                            0 <= k < i ==> (#[trigger] calls@[k])@ == call_json(tool_calls@[k]@),
                    decreases tool_calls@.len() - i,
                {
                    calls.push(write_call(&tool_calls[i]));
                    i += 1;
                }
                assert(views(calls@) =~= views(tool_calls@).map_values(
                    |call: ToolCallView| call_json(call),
                ));
                object_json(&three(content, role, member_json("tool_calls", &list_json(&calls))))
            }
        },
        ModelMessage::Tool(result) => object_json(
            &three(
                text_member("content", &result.content),
                text_member("role", "tool"),
                text_member("tool_call_id", &result.tool_call_id),
            ),
        ),
    }
}

/// A tool offered to the model, in JSON.
pub fn tool_json(tool: &ToolDefinition) -> (r: String)
    ensures
        r@ == tool_json_spec(tool@),
{
    let function = object_json(
        &three(
            text_member("description", &tool.description),
            text_member("name", &tool.name),
            member_json("parameters", &tool.input_schema),
        ),
    );
    object_json(&two(member_json("function", &function), text_member("type", "function")))
}

/// The JSON body of a request for completions. A requested effort is sent in
/// every spelling that compatible servers read.
pub open spec fn request_body_spec(request: InferenceRequestView) -> Text {
    let messages = json_member(
        "messages"@,
        json_list(request.messages.map_values(|m: ModelMessageView| message_json_spec(m))),
    );
    let model = json_text_member("model"@, request.model.id);
    let stream = json_member("stream"@, "true"@);
    let tools = json_member(
        "tools"@,
        json_list(request.tools.map_values(|t: ToolDefinitionView| tool_json_spec(t))),
    );
    match request.reasoning_effort {
        None => json_object(seq![messages, model, stream, tools]),
        Some(effort) => json_object(
            seq![
                json_member(
                    "allowed_openai_params"@,
                    json_list(seq![json_quoted("reasoning_effort"@)]),
                ),
                messages,
                model,
                json_member(
                    "reasoning"@,
                    json_object(seq![json_text_member("effort"@, effort.spelling())]),
                ),
                json_text_member("reasoning_effort"@, effort.spelling()),
                stream,
                tools,
            ],
        ),
    }
}

/// The JSON body of a request for completions.
pub fn request_body(request: &InferenceRequest) -> (r: String)
    ensures
        r@ == request_body_spec(request@),
{
    let mut texts: Vec<String> = Vec::new();
    let mut i: usize = 0;
    while i < request.messages.len()
        invariant
            i <= request.messages@.len(),
            texts@.len() == i,
            forall|k: int|
                0 <= k < i ==> (#[trigger] texts@[k])@ == message_json_spec(request.messages@[k]@),
        decreases request.messages@.len() - i,
    {
        texts.push(message_json(&request.messages[i]));
        i += 1;
    }
    assert(views(texts@) =~= request@.messages.map_values(
        |m: ModelMessageView| message_json_spec(m),
    ));
    let messages = member_json("messages", &list_json(&texts));
    let mut texts: Vec<String> = Vec::new();
    let mut i: usize = 0;
    while i < request.tools.len()
        invariant
            i <= request.tools@.len(),
            texts@.len() == i,
            forall|k: int|
                0 <= k < i ==> (#[trigger] texts@[k])@ == tool_json_spec(request.tools@[k]@),
        decreases request.tools@.len() - i,
    {
        texts.push(tool_json(&request.tools[i]));
        i += 1;
    }
    assert(views(texts@) =~= request@.tools.map_values(|t: ToolDefinitionView| tool_json_spec(t)));
    let tools = member_json("tools", &list_json(&texts));
    let model = text_member("model", &request.model.id);
    let stream = member_json("stream", "true");
    match request.reasoning_effort {
        None => object_json(&four(messages, model, stream, tools)),
        Some(effort) => {
            let allowed = member_json(
                "allowed_openai_params",
                &list_json(&one(json_string("reasoning_effort"))),
            );
            let nested = member_json(
                "reasoning",
                &object_json(&one(text_member("effort", effort.as_str()))),
            );
            let plain = text_member("reasoning_effort", effort.as_str());
            let ghost expected = seq![
                allowed@,
                messages@,
                model@,
                nested@,
                plain@,
                stream@,
                tools@,
            ];
            let mut members = three(allowed, messages, model);
            let ghost front = views(members@);
            let mut rest = four(nested, plain, stream, tools);
            let ghost back = views(rest@);
            members.append(&mut rest);
            assert(views(members@) =~= front + back);
            assert(views(members@) =~= expected);
            object_json(&members)
        },
    }
}

/// The content of a [`StreamFunctionDelta`].
#[verifier::ext_equal]
pub struct StreamFunctionDeltaView {
    pub name: Option<Text>,
    pub arguments: Option<Text>,
}

/// A piece of the function of a streamed tool call.
#[derive(Debug, Eq, PartialEq)]
pub struct StreamFunctionDelta {
    pub name: Option<String>,
    pub arguments: Option<String>,
}

impl View for StreamFunctionDelta {
    type V = StreamFunctionDeltaView;

    open spec fn view(&self) -> StreamFunctionDeltaView {
        StreamFunctionDeltaView {
            name: opt_view(self.name),
            arguments: opt_view(self.arguments),
        }
    }
}

impl Clone for StreamFunctionDelta {
    fn clone(&self) -> (r: Self)
        ensures
            r@ == self@,
    {
        let r = StreamFunctionDelta {
            name: self.name.clone(),
            arguments: self.arguments.clone(),
        };
        assert(r@ =~~= self@);
        r
    }
}

/// The content of a [`StreamToolCallDelta`].
#[verifier::ext_equal]
pub struct StreamToolCallDeltaView {
    pub index: usize,
    pub id: Option<Text>,
    pub function: Option<StreamFunctionDeltaView>,
}

/// A piece of the tool call number `index`.
#[derive(Debug, Eq, PartialEq)]
pub struct StreamToolCallDelta {
    pub index: usize,
    pub id: Option<String>,
    pub function: Option<StreamFunctionDelta>,
}

impl View for StreamToolCallDelta {
    type V = StreamToolCallDeltaView;

    open spec fn view(&self) -> StreamToolCallDeltaView {
        StreamToolCallDeltaView {
            index: self.index,
            id: opt_view(self.id),
            function: opt_view(self.function),
        }
    }
}

impl Clone for StreamToolCallDelta {
    fn clone(&self) -> (r: Self)
        ensures
            r@ == self@,
    {
        let r = StreamToolCallDelta {
            index: self.index,
            id: self.id.clone(),
            function: self.function.clone(),
        };
        assert(r@ =~~= self@);
        r
    }
}

/// The content of a [`StreamChoice`].
#[verifier::ext_equal]
pub struct StreamChoiceView {
    pub content: Option<Text>,
    pub tool_calls: Seq<StreamToolCallDeltaView>,
}

/// What one choice of a streamed chunk adds.
#[derive(Debug, Eq, PartialEq)]
pub struct StreamChoice {
    pub content: Option<String>,
    pub tool_calls: Vec<StreamToolCallDelta>,
}

impl View for StreamChoice {
    type V = StreamChoiceView;

    open spec fn view(&self) -> StreamChoiceView {
        StreamChoiceView {
            content: opt_view(self.content),
            tool_calls: views(self.tool_calls@),
        }
    }
}

impl Clone for StreamChoice {
    fn clone(&self) -> (r: Self)
        ensures
            r@ == self@,
    {
        let r = StreamChoice {
            content: self.content.clone(),
            tool_calls: self.tool_calls.clone(),
        };
        assert(r@ =~~= self@);
        r
    }
}

/// The content of a [`StreamChunk`].
#[verifier::ext_equal]
pub struct StreamChunkView {
    pub choices: Seq<StreamChoiceView>,
}

/// One decoded chunk of a provider stream.
#[derive(Debug, Eq, PartialEq)]
pub struct StreamChunk {
    pub choices: Vec<StreamChoice>,
}

impl View for StreamChunk {
    type V = StreamChunkView;

    open spec fn view(&self) -> StreamChunkView {
        StreamChunkView {
            choices: views(self.choices@),
        }
    }
}

impl Clone for StreamChunk {
    fn clone(&self) -> (r: Self)
        ensures
            r@ == self@,
    {
        let r = StreamChunk {
            choices: self.choices.clone(),
        };
        assert(r@ =~~= self@);
        r
    }
}

/// The content of a [`PartialToolCall`].
#[verifier::ext_equal]
pub struct PartialToolCallView {
    pub index: usize,
    pub id: Text,
    pub name: Text,
    pub arguments: Text,
}

/// A tool call as far as it was streamed.
#[derive(Debug, Eq, PartialEq)]
pub struct PartialToolCall {
    pub index: usize,
    pub id: String,
    pub name: String,
    pub arguments: String,
}

impl View for PartialToolCall {
    type V = PartialToolCallView;

    open spec fn view(&self) -> PartialToolCallView {
        PartialToolCallView {
            index: self.index,
            id: self.id@,
            name: self.name@,
            arguments: self.arguments@,
        }
    }
}

impl Clone for PartialToolCall {
    fn clone(&self) -> (r: Self)
        ensures
            r@ == self@,
    {
        let r = PartialToolCall {
            index: self.index,
            id: self.id.clone(),
            name: self.name.clone(),
            arguments: self.arguments.clone(),
        };
        assert(r@ =~~= self@);
        r
    }
}

/// The text of a piece that may be missing.
pub open spec fn or_empty(piece: Option<Text>) -> Text {
    match piece {
        Some(text) => text,
        None => seq![],
    }
}

/// How many of the calls, which are in the order of their index, come before
/// the call `index`.
pub open spec fn calls_before(calls: Seq<PartialToolCallView>, index: usize) -> nat
    decreases calls.len(),
{
    if calls.len() > 0 && calls[0].index < index {
        1 + calls_before(calls.drop_first(), index)
    } else {
        0
    }
}

/// A call with a streamed piece added behind what it has.
pub open spec fn extended(call: PartialToolCallView, delta: StreamToolCallDeltaView) -> PartialToolCallView {
    PartialToolCallView {
        index: call.index,
        id: call.id + or_empty(delta.id),
        name: call.name + match delta.function {
            Some(function) => or_empty(function.name),
            None => seq![],
        },
        arguments: call.arguments + match delta.function {
            Some(function) => or_empty(function.arguments),
            None => seq![],
        },
    }
}

/// The calls after a streamed piece: added to the call with its index, or
/// opening that call.
pub open spec fn with_delta(
    calls: Seq<PartialToolCallView>,
    delta: StreamToolCallDeltaView,
) -> Seq<PartialToolCallView> {
    let at = calls_before(calls, delta.index) as int;
    if at < calls.len() && calls[at].index == delta.index {
        calls.update(at, extended(calls[at], delta))
    } else {
        calls.insert(
            at,
            extended(
                PartialToolCallView {
                    index: delta.index,
                    id: seq![],
                    name: seq![],
                    arguments: seq![],
                },
                delta,
            ),
        )
    }
}

/// The calls after a row of streamed pieces.
pub open spec fn with_deltas(
    calls: Seq<PartialToolCallView>,
    deltas: Seq<StreamToolCallDeltaView>,
) -> Seq<PartialToolCallView>
    decreases deltas.len(),
{
    if deltas.len() == 0 {
        calls
    } else {
        with_delta(with_deltas(calls, deltas.drop_last()), deltas.last())
    }
}

/// The calls after the choices of a chunk.
pub open spec fn with_choices(
    calls: Seq<PartialToolCallView>,
    choices: Seq<StreamChoiceView>,
) -> Seq<PartialToolCallView>
    decreases choices.len(),
{
    if choices.len() == 0 {
        calls
    } else {
        with_deltas(with_choices(calls, choices.drop_last()), choices.last().tool_calls)
    }
}

/// What a stream yields: an event, or the error that ends it.
pub open spec fn item_view(item: Result<ProviderEvent, String>) -> Result<ProviderEventView, Text> {
    match item {
        Ok(event) => Ok(event@),
        Err(error) => Err(error@),
    }
}

pub open spec fn items_view(items: Seq<Result<ProviderEvent, String>>) -> Seq<
    Result<ProviderEventView, Text>,
> {
    items.map_values(|item: Result<ProviderEvent, String>| item_view(item))
}

/// The text events of the choices of a chunk. Empty text is no event.
pub open spec fn text_events(choices: Seq<StreamChoiceView>) -> Seq<Result<ProviderEventView, Text>>
    decreases choices.len(),
{
    if choices.len() == 0 {
        seq![]
    } else {
        let rest = text_events(choices.drop_last());
        match choices.last().content {
            Some(text) if text.len() > 0 => rest.push(Ok(ProviderEventView::TextDelta(text))),
            _ => rest,
        }
    }
}

/// What closes a stream: the calls in the order of their index and the
/// completion, or, at the first call without an id or a name, an error.
pub open spec fn closing(calls: Seq<PartialToolCallView>) -> Seq<Result<ProviderEventView, Text>>
    decreases calls.len(),
{
    if calls.len() == 0 {
        seq![Ok(ProviderEventView::Completed)]
    } else if calls[0].id.len() == 0 || calls[0].name.len() == 0 {
        seq![Err("provider returned an incomplete tool call"@)]
    } else {
        seq![
            Ok(
                ProviderEventView::ToolCall(
                    ToolCallView {
                        id: calls[0].id,
                        name: calls[0].name,
                        arguments: calls[0].arguments,
                    },
                ),
            ),
        ] + closing(calls.drop_first())
    }
}

/// A decoded payload, or the decoder's complaint.
pub open spec fn chunk_view(chunk: Result<StreamChunk, String>) -> Result<StreamChunkView, Text> {
    match chunk {
        Ok(chunk) => Ok(chunk@),
        Err(error) => Err(error@),
    }
}

/// What one payload makes of the calls, what it yields, and whether it ends the
/// stream. `[DONE]` closes the stream; any other payload is a chunk.
pub open spec fn handled(
    calls: Seq<PartialToolCallView>,
    payload: Text,
    chunk: Result<StreamChunkView, Text>,
) -> (Seq<PartialToolCallView>, Seq<Result<ProviderEventView, Text>>, bool) {
    if payload == "[DONE]"@ {
        (seq![], closing(calls), true)
    } else {
        match chunk {
            Err(error) => (calls, seq![Err("invalid provider stream event: "@ + error)], true),
            Ok(chunk) => (with_choices(calls, chunk.choices), text_events(chunk.choices), false),
        }
    }
}

/// The state of a provider stream: the tool calls as far as they were
/// streamed, in the order of their index.
#[derive(Debug)]
pub struct ProviderStream {
    pub calls: Vec<PartialToolCall>,
}

impl View for ProviderStream {
    type V = Seq<PartialToolCallView>;

    open spec fn view(&self) -> Seq<PartialToolCallView> {
        views(self.calls@)
    }
}

/// The content of an optional string.
fn piece(text: &Option<String>) -> (r: &str)
    ensures
        r@ == or_empty(opt_view(*text)),
{
    match text {
        Some(text) => text.as_str(),
        None => {
            proof {
                reveal_strlit("");
                assert(""@ =~= Seq::<char>::empty());
            }
            ""
        },
    }
}

/// What reading one payload of a stream asks for: its items are to be passed
/// on, and after the last of them the stream may be over.
#[derive(Debug)]
pub struct StreamOutput {
    pub items: Vec<Result<ProviderEvent, String>>,
    pub ended: bool,
}

impl ProviderStream {
    pub fn new() -> (r: ProviderStream)
        ensures
            r@.len() == 0,
    {
        ProviderStream { calls: Vec::new() }
    }

    fn add_delta(&mut self, delta: &StreamToolCallDelta)
        ensures
            final(self)@ == with_delta(old(self)@, delta@),
    {
        let ghost before = self@;
        let mut at: usize = 0;
        assert(before.skip(0) =~= before);
        while at < self.calls.len() && self.calls[at].index < delta.index
            invariant
                self@ == before,
                at <= self.calls@.len(),
                at + calls_before(before.skip(at as int), delta.index) == calls_before(
                    before,
                    delta.index,
                ),
            decreases self.calls@.len() - at,
        {
            assert(before.skip(at as int).drop_first() =~= before.skip(at as int + 1));
            assert(before.skip(at as int)[0] == self.calls@[at as int]@);
            at += 1;
        }
        if at < self.calls.len() {
            assert(before.skip(at as int)[0] == self.calls@[at as int]@);
        }
        let known = at < self.calls.len() && self.calls[at].index == delta.index;
        let mut call = if known {
            self.calls[at].clone()
        } else {
            PartialToolCall {
                index: delta.index,
                id: String::new(),
                name: String::new(),
                arguments: String::new(),
            }
        };
        let ghost start = call@;
        call.id.push_str(piece(&delta.id));
        match &delta.function {
            Some(function) => {
                call.name.push_str(piece(&function.name));
                call.arguments.push_str(piece(&function.arguments));
            },
            None => {
                assert(call.name@ + Seq::<char>::empty() =~= call.name@);
                assert(call.arguments@ + Seq::<char>::empty() =~= call.arguments@);
            },
        }
        assert(call@ =~= extended(start, delta@));
        let ghost added = call@;
        if known {
            self.calls.set(at, call);
            assert(self@ =~= before.update(at as int, added));
        } else {
            self.calls.insert(at, call);
            assert(self@ =~= before.insert(at as int, added));
        }
    }

    fn add_deltas(&mut self, deltas: &Vec<StreamToolCallDelta>)
        ensures
            final(self)@ == with_deltas(old(self)@, views(deltas@)),
    {
        let ghost before = self@;
        let ghost all = views(deltas@);
        let mut i: usize = 0;
        assert(all.take(0) =~= seq![]);
        while i < deltas.len()
            invariant
                i <= deltas@.len(),
                all == views(deltas@),
                self@ == with_deltas(before, all.take(i as int)),
            decreases deltas@.len() - i,
        {
            assert(all.take(i as int + 1).drop_last() =~= all.take(i as int));
            assert(all.take(i as int + 1).last() == deltas@[i as int]@);
            self.add_delta(&deltas[i]);
            i += 1;
        }
        assert(all.take(deltas@.len() as int) =~= all);
    }

    /// Adds a decoded chunk and returns its text events.
    pub fn add_chunk(&mut self, chunk: &StreamChunk) -> (r: Vec<Result<ProviderEvent, String>>)
        ensures
            final(self)@ == with_choices(old(self)@, chunk@.choices),
            items_view(r@) == text_events(chunk@.choices),
    {
        let ghost before = self@;
        let ghost all = chunk@.choices;
        let mut items: Vec<Result<ProviderEvent, String>> = Vec::new();
        let mut i: usize = 0;
        assert(all.take(0) =~= seq![]);
        assert(items_view(items@) =~= text_events(all.take(0)));
        while i < chunk.choices.len()
            invariant
                i <= chunk.choices@.len(),
                all == chunk@.choices,
                self@ == with_choices(before, all.take(i as int)),
                items_view(items@) == text_events(all.take(i as int)),
            decreases chunk.choices@.len() - i,
        {
            let ghost items_before = items@;
            assert(all.take(i as int + 1).drop_last() =~= all.take(i as int));
            assert(all.take(i as int + 1).last() == chunk.choices@[i as int]@);
            let choice = &chunk.choices[i];
            if let Some(content) = &choice.content {
                if !content.as_str().is_empty() {
                    items.push(Ok(ProviderEvent::TextDelta(content.clone())));
                    assert(items_view(items@) =~= items_view(items_before).push(
                        Ok(ProviderEventView::TextDelta(content@)),
                    ));
                }
            }
            self.add_deltas(&choice.tool_calls);
            i += 1;
        }
        assert(all.take(chunk.choices@.len() as int) =~= all);
        items
    }

    /// Closes the stream.
    pub fn finish(&mut self) -> (r: Vec<Result<ProviderEvent, String>>)
        ensures
            items_view(r@) == closing(old(self)@),
            final(self)@.len() == 0,
    {
        let ghost all = self@;
        let calls = self.calls.split_off(0);
        assert(views(calls@) =~= all);
        let mut items: Vec<Result<ProviderEvent, String>> = Vec::new();
        let mut i: usize = 0;
        assert(all.skip(0) =~= all);
        assert(items_view(items@) + closing(all) =~= closing(all));
        while i < calls.len()
            invariant
                i <= calls@.len(),
                all == views(calls@),
                self@.len() == 0,
                items_view(items@) + closing(all.skip(i as int)) == closing(all),
                all == old(self)@,
            decreases calls@.len() - i,
        {
            let ghost before = items@;
            let ghost rest = all.skip(i as int);
            assert(rest[0] == calls@[i as int]@);
            assert(rest.drop_first() =~= all.skip(i as int + 1));
            let call = &calls[i];
            if call.id.as_str().is_empty() || call.name.as_str().is_empty() {
                items.push(Err("provider returned an incomplete tool call".to_owned()));
                assert(items_view(items@) =~= items_view(before) + closing(rest));
                return items;
            }
            items.push(
                Ok(
                    ProviderEvent::ToolCall(
                        ToolCall {
                            id: call.id.clone(),
                            name: call.name.clone(),
                            arguments: call.arguments.clone(),
                        },
                    ),
                ),
            );
            assert(items_view(items@) + closing(all.skip(i as int + 1)) =~= items_view(before)
                + closing(rest));
            i += 1;
        }
        let ghost before = items@;
        items.push(Ok(ProviderEvent::Completed));
        assert(items_view(items@) =~= items_view(before) + closing(all.skip(i as int)));
        items
    }

    /// Reads one payload. `[DONE]` closes the stream; any other payload is a
    /// chunk, handed in decoded together with the decoder's error, if any.
    pub fn handle_payload(&mut self, payload: &str, chunk: Result<StreamChunk, String>) -> (r:
        StreamOutput)
        ensures
            handled(old(self)@, payload@, chunk_view(chunk)) == (
                final(self)@,
                items_view(r.items@),
                r.ended,
            ),
    {
        if same(payload, "[DONE]") {
            let items = self.finish();
            assert(self@ =~= seq![]);
            return StreamOutput { items, ended: true };
        }
        match chunk {
            Err(error) => {
                let mut items: Vec<Result<ProviderEvent, String>> = Vec::new();
                items.push(Err(concat("invalid provider stream event: ", &error)));
                assert(items_view(items@) =~= seq![
                    Err::<ProviderEventView, Text>("invalid provider stream event: "@ + error@),
                ]);
                StreamOutput { items, ended: true }
            },
            Ok(chunk) => {
                let items = self.add_chunk(&chunk);
                StreamOutput { items, ended: false }
            },
        }
    }
}

/// Calls in the order of their index, which are distinct.
pub open spec fn calls_in_order(calls: Seq<PartialToolCallView>) -> bool {
    forall|i: int, j: int|
        0 <= i < j < calls.len() ==> (#[trigger] calls[i]).index < (#[trigger] calls[j]).index
}

proof fn calls_before_facts(calls: Seq<PartialToolCallView>, index: usize)
    ensures
        calls_before(calls, index) <= calls.len(),
        forall|k: int|
            0 <= k < calls_before(calls, index) ==> (#[trigger] calls[k]).index < index,
        calls_before(calls, index) < calls.len() ==> calls[calls_before(
            calls,
            index,
        ) as int].index >= index,
    decreases calls.len(),
{
    if calls.len() > 0 && calls[0].index < index {
        let rest = calls.drop_first();
        calls_before_facts(rest, index);
        assert forall|k: int| 0 <= k < calls_before(calls, index) implies (#[trigger] calls[k]).index
            < index by {
            if k > 0 {
                assert(calls[k] == rest[k - 1]);
            }
        }
    }
}

/// Streamed pieces keep the calls in the order of their index, however they
/// arrive, and add to no call but their own.
pub proof fn deltas_keep_the_order(
    calls: Seq<PartialToolCallView>,
    delta: StreamToolCallDeltaView,
)
    requires
        calls_in_order(calls),
    ensures
        calls_in_order(with_delta(calls, delta)),
        forall|i: int|
            0 <= i < calls.len() && (#[trigger] calls[i]).index != delta.index ==> with_delta(
                calls,
                delta,
            ).contains(calls[i]),
{
    calls_before_facts(calls, delta.index);
    let at = calls_before(calls, delta.index) as int;
    let after = with_delta(calls, delta);
    let known = at < calls.len() && calls[at].index == delta.index;
    assert forall|i: int, j: int| 0 <= i < j < after.len() implies (#[trigger] after[i]).index < (
    #[trigger] after[j]).index by {
        if !known {
            let bi = if i <= at {
                i
            } else {
                i - 1
            };
            let bj = if j <= at {
                j
            } else {
                j - 1
            };
            if i != at {
                assert(after[i] == calls[bi]);
            }
            if j != at {
                assert(after[j] == calls[bj]);
            }
            if i == at && bj != at {
                assert(calls[at].index < calls[bj].index);
            }
        }
    }
    assert forall|i: int|
        0 <= i < calls.len() && (#[trigger] calls[i]).index != delta.index implies after.contains(
        calls[i],
    ) by {
        let k = if known || i < at {
            i
        } else {
            i + 1
        };
        assert(after[k] == calls[i]);
    }
}

/// The content of a [`ModelInfo`].
#[verifier::ext_equal]
pub struct ModelInfoView {
    pub id: Text,
    pub reasoning_efforts: Option<Seq<ReasoningEffort>>,
}

/// One model reported by a provider's models listing.
#[derive(Debug, Eq, PartialEq)]
pub struct ModelInfo {
    pub id: String,
    /// Effort levels declared for this model, or `None` when the endpoint does
    /// not say. A declaration without recognizable levels resolves to
    /// [`ReasoningEffort::COMMON`].
    pub reasoning_efforts: Option<Vec<ReasoningEffort>>,
}

impl View for ModelInfo {
    type V = ModelInfoView;

    open spec fn view(&self) -> ModelInfoView {
        ModelInfoView {
            id: self.id@,
            reasoning_efforts: match self.reasoning_efforts {
                Some(list) => Some(list@),
                None => None,
            },
        }
    }
}

impl Clone for ModelInfo {
    fn clone(&self) -> (r: Self)
        ensures
            r@ == self@,
    {
        let r = ModelInfo {
            id: self.id.clone(),
            reasoning_efforts: self.reasoning_efforts.clone(),
        };
        assert(r@ =~~= self@);
        r
    }
}

/// One entry of a models listing: an object with an id and further members, or
/// a bare id.
#[derive(Debug)]
pub enum ModelListingEntry {
    Identified { id: String, extra: Vec<(String, Json)> },
    Named(String),
}

/// A decoded models listing.
#[derive(Debug)]
pub struct ModelListing {
    pub data: Vec<ModelListingEntry>,
}

/// Whether an item of a list is a text that names the level `effort`.
pub open spec fn names_level(item: Json, effort: ReasoningEffort) -> bool {
    item matches Json::Text(text) && parse_effort(text@) == Some(effort)
}

/// Whether some item of a list names the level `effort`.
pub open spec fn mentions(items: Seq<Json>, effort: ReasoningEffort) -> bool {
    exists|i: int| 0 <= i < items.len() && names_level(#[trigger] items[i], effort)
}

/// The levels that a list mentions, from least to most expensive.
pub open spec fn mentioned(items: Seq<Json>) -> Seq<ReasoningEffort> {
    ReasoningEffort::ALL@.filter(|effort: ReasoningEffort| mentions(items, effort))
}

/// The levels that the member `field` enumerates; none if it is no list.
pub open spec fn enumerated(extra: Seq<(String, Json)>, field: Text) -> Seq<ReasoningEffort> {
    match json_get(extra, field) {
        Some(Json::List(items)) => mentioned(items@),
        _ => seq![],
    }
}

/// Whether a listing declares effort levels at all, recognizable or not.
pub open spec fn declares_levels(extra: Seq<(String, Json)>) -> bool {
    ||| json_get(extra, "reasoning_efforts"@) matches Some(Json::List(_))
    ||| json_get(extra, "supported_reasoning_efforts"@) matches Some(Json::List(_))
}

/// Whether an item of a parameter list marks reasoning support.
pub open spec fn names_reasoning(item: Json) -> bool {
    item matches Json::Text(text) && (text@ == "reasoning_effort"@ || text@ == "reasoning"@)
}

/// Whether a parameter list marks reasoning support.
pub open spec fn marks_reasoning(items: Seq<Json>) -> bool {
    exists|i: int| 0 <= i < items.len() && names_reasoning(#[trigger] items[i])
}

/// Whether the member `field` is a parameter list that marks reasoning support.
pub open spec fn supports_parameter(extra: Seq<(String, Json)>, field: Text) -> bool {
    json_get(extra, field) matches Some(Json::List(items)) && marks_reasoning(items@)
}

/// Whether the member `field` is `true`.
pub open spec fn flagged(extra: Seq<(String, Json)>, field: Text) -> bool {
    json_get(extra, field) == Some(Json::Bool(true))
}

/// The effort levels that a listing declares for a model. Enumerated levels
/// come first; a declaration without recognizable levels and marks of reasoning
/// support stand for the common ones; `None` means that the listing does not
/// say.
pub open spec fn reported(extra: Seq<(String, Json)>) -> Option<Seq<ReasoningEffort>> {
    if enumerated(extra, "reasoning_efforts"@).len() > 0 {
        Some(enumerated(extra, "reasoning_efforts"@))
    } else if enumerated(extra, "supported_reasoning_efforts"@).len() > 0 {
        Some(enumerated(extra, "supported_reasoning_efforts"@))
    } else if declares_levels(extra) || supports_parameter(extra, "supported_parameters"@)
        || supports_parameter(extra, "supported_openai_params"@) || flagged(extra, "reasoning"@)
        || flagged(extra, "supports_reasoning"@) || (json_get(
        extra,
        "capabilities"@,
    ) matches Some(Json::Object(members)) && (flagged(members@, "reasoning"@) || flagged(
        members@,
        "thinking"@,
    ))) {
        Some(ReasoningEffort::COMMON@)
    } else {
        None
    }
}

fn list_mentions(items: &Vec<Json>, effort: ReasoningEffort) -> (r: bool)
    ensures
        r == mentions(items@, effort),
{
    let mut i: usize = 0;
    while i < items.len()
        invariant
            i <= items@.len(),
            forall|k: int| 0 <= k < i ==> !names_level(#[trigger] items@[k], effort),
        decreases items@.len() - i,
    {
        let named = match &items[i] {
            Json::Text(text) => match ReasoningEffort::parse(text) {
                Some(level) => level == effort,
                None => false,
            },
            _ => false,
        };
        if named {
            assert(names_level(items@[i as int], effort));
            return true;
        }
        i += 1;
    }
    false
}

fn mentioned_levels(items: &Vec<Json>) -> (r: Vec<ReasoningEffort>)
    ensures
        r@ == mentioned(items@),
{
    let ghost keep = |effort: ReasoningEffort| mentions(items@, effort);
    let all = levels(&ReasoningEffort::ALL);
    let mut out: Vec<ReasoningEffort> = Vec::new();
    let mut i: usize = 0;
    proof {
        reveal(Seq::filter);
        assert(all@.take(0) =~= seq![]);
        assert(out@ =~= all@.take(0).filter(keep));
    }
    while i < all.len()
        invariant
            i <= all@.len(),
            keep == (|effort: ReasoningEffort| mentions(items@, effort)),
            out@ == all@.take(i as int).filter(keep),
        decreases all@.len() - i,
    {
        proof {
            reveal(Seq::filter);
            assert(all@.take(i as int + 1).drop_last() =~= all@.take(i as int));
            assert(all@.take(i as int + 1).last() == all@[i as int]);
        }
        if list_mentions(items, all[i]) {
            out.push(all[i]);
        }
        i += 1;
    }
    assert(all@.take(all@.len() as int) =~= all@);
    out
}

fn enumerated_levels(extra: &Vec<(String, Json)>, field: &str) -> (r: Vec<ReasoningEffort>)
    ensures
        r@ == enumerated(extra@, field@),
{
    match get_member(extra, field) {
        Some(Json::List(items)) => mentioned_levels(items),
        _ => Vec::new(),
    }
}

fn is_list(extra: &Vec<(String, Json)>, field: &str) -> (r: bool)
    ensures
        r == (json_get(extra@, field@) matches Some(Json::List(_))),
{
    match get_member(extra, field) {
        Some(Json::List(_)) => true,
        _ => false,
    }
}

fn list_marks_reasoning(items: &Vec<Json>) -> (r: bool)
    ensures
        r == marks_reasoning(items@),
{
    let mut i: usize = 0;
    while i < items.len()
        invariant
            i <= items@.len(),
            forall|k: int| 0 <= k < i ==> !names_reasoning(#[trigger] items@[k]),
        decreases items@.len() - i,
    {
        let named = match &items[i] {
            Json::Text(text) => same(text, "reasoning_effort") || same(text, "reasoning"),
            _ => false,
        };
        if named {
            assert(names_reasoning(items@[i as int]));
            return true;
        }
        i += 1;
    }
    false
}

fn lists_parameter(extra: &Vec<(String, Json)>, field: &str) -> (r: bool)
    ensures
        r == supports_parameter(extra@, field@),
{
    match get_member(extra, field) {
        Some(Json::List(items)) => list_marks_reasoning(items),
        _ => false,
    }
}

fn is_flagged(extra: &Vec<(String, Json)>, field: &str) -> (r: bool)
    ensures
        r == flagged(extra@, field@),
{
    match get_member(extra, field) {
        Some(Json::Bool(value)) => *value,
        _ => false,
    }
}

/// The effort levels that a listing declares for a model.
pub fn reported_reasoning_efforts(extra: &Vec<(String, Json)>) -> (r: Option<Vec<ReasoningEffort>>)
    ensures
        r is Some <==> reported(extra@) is Some,
        r matches Some(list) ==> reported(extra@) == Some(list@),
{
    let listed = enumerated_levels(extra, "reasoning_efforts");
    if listed.len() > 0 {
        return Some(listed);
    }
    let listed = enumerated_levels(extra, "supported_reasoning_efforts");
    if listed.len() > 0 {
        return Some(listed);
    }
    if is_list(extra, "reasoning_efforts") || is_list(extra, "supported_reasoning_efforts") {
        return Some(levels(&ReasoningEffort::COMMON));
    }
    if lists_parameter(extra, "supported_parameters") || lists_parameter(
        extra,
        "supported_openai_params",
    ) || is_flagged(extra, "reasoning") || is_flagged(extra, "supports_reasoning") {
        return Some(levels(&ReasoningEffort::COMMON));
    }
    if let Some(Json::Object(members)) = get_member(extra, "capabilities") {
        if is_flagged(members, "reasoning") || is_flagged(members, "thinking") {
            return Some(levels(&ReasoningEffort::COMMON));
        }
    }
    None
}

/// A model as a listing entry describes it: the declared levels, otherwise
/// those implied by its id.
pub open spec fn listed_model(entry: ModelListingEntry) -> ModelInfoView {
    match entry {
        ModelListingEntry::Identified { id, extra } => ModelInfoView {
            id: id@,
            reasoning_efforts: match reported(extra@) {
                Some(list) => Some(list),
                None => inferred(id@),
            },
        },
        ModelListingEntry::Named(id) => ModelInfoView {
            id: id@,
            reasoning_efforts: inferred(id@),
        },
    }
}

/// The models of a listing, in its order. Blank ids are left out.
pub open spec fn listed_models(data: Seq<ModelListingEntry>) -> Seq<ModelInfoView>
    decreases data.len(),
{
    if data.len() == 0 {
        seq![]
    } else {
        let rest = listed_models(data.drop_last());
        let model = listed_model(data.last());
        if trim(model.id).len() == 0 {
            rest
        } else {
            rest.push(model)
        }
    }
}

fn describe_model(entry: &ModelListingEntry) -> (r: ModelInfo)
    ensures
        r@ == listed_model(*entry),
{
    match entry {
        ModelListingEntry::Identified { id, extra } => {
            let reasoning_efforts = match reported_reasoning_efforts(extra) {
                Some(list) => Some(list),
                None => inferred_reasoning_efforts(id),
            };
            ModelInfo { id: id.clone(), reasoning_efforts }
        },
        ModelListingEntry::Named(id) => ModelInfo {
            id: id.clone(),
            reasoning_efforts: inferred_reasoning_efforts(id),
        },
    }
}

impl ModelListing {
    /// The models of the listing, in its order, without blank ids.
    pub fn models(&self) -> (r: Vec<ModelInfo>)
        ensures
            views(r@) == listed_models(self.data@),
    {
        let mut out: Vec<ModelInfo> = Vec::new();
        let mut i: usize = 0;
        assert(self.data@.take(0) =~= seq![]);
        assert(views(out@) =~= listed_models(self.data@.take(0)));
        while i < self.data.len()
            invariant
                i <= self.data@.len(),
                views(out@) == listed_models(self.data@.take(i as int)),
            decreases self.data@.len() - i,
        {
            let ghost before = out@;
            assert(self.data@.take(i as int + 1).drop_last() =~= self.data@.take(i as int));
            let model = describe_model(&self.data[i]);
            if !is_blank(&model.id) {
                out.push(model);
                assert(views(out@) =~= views(before).push(model@));
            }
            i += 1;
        }
        assert(self.data@.take(self.data@.len() as int) =~= self.data@);
        out
    }
}

/// Whether no key before position `at` equals the key there.
pub open spec fn is_first_key(keys: Seq<Text>, at: int) -> bool {
    0 <= at < keys.len() && forall|k: int| 0 <= k < at ==> #[trigger] keys[k] != keys[at]
}

/// Whether one of the listed positions holds this key.
pub open spec fn key_is_listed(keys: Seq<Text>, order: Seq<usize>, key: Text) -> bool {
    exists|i: int| 0 <= i < order.len() && keys[(#[trigger] order[i]) as int] == key
}

/// Whether `order` lists the first `count` keys by their positions, in the order
/// of the keys, and of equal keys the first.
pub open spec fn orders_first(keys: Seq<Text>, count: int, order: Seq<usize>) -> bool {
    &&& forall|i: int|
        0 <= i < order.len() ==> (#[trigger] order[i]) < count && is_first_key(
            keys,
            order[i] as int,
        )
    &&& forall|i: int, j: int|
        0 <= i < j < order.len() ==> precedes(
            keys[(#[trigger] order[i]) as int],
            keys[(#[trigger] order[j]) as int],
        )
    &&& forall|k: int| 0 <= k < count ==> key_is_listed(keys, order, #[trigger] keys[k])
}

/// Whether `order` lists all keys in this way.
pub open spec fn orders(keys: Seq<Text>, order: Seq<usize>) -> bool {
    orders_first(keys, keys.len() as int, order)
}

/// A key that is listed stays listed when a position is inserted.
proof fn key_stays_listed(keys: Seq<Text>, order: Seq<usize>, at: int, position: usize, key: Text)
    requires
        key_is_listed(keys, order, key),
        0 <= at <= order.len(),
    ensures
        key_is_listed(keys, order.insert(at, position), key),
{
    let after = order.insert(at, position);
    let i = choose|i: int| 0 <= i < order.len() && keys[(#[trigger] order[i]) as int] == key;
    let moved = if i < at {
        i
    } else {
        i + 1
    };
    assert(after[moved] == order[i]);
}

/// A key that belongs behind the listed keys before `at` and before the others
/// is a new one.
proof fn key_is_new(keys: Seq<Text>, count: int, order: Seq<usize>, at: int)
    requires
        orders_first(keys, count, order),
        0 <= count < keys.len(),
        0 <= at <= order.len(),
        forall|k: int| 0 <= k < at ==> precedes(keys[(#[trigger] order[k]) as int], keys[count]),
        forall|k: int|
            at <= k < order.len() ==> precedes(keys[count], keys[(#[trigger] order[k]) as int]),
    ensures
        is_first_key(keys, count),
{
    assert forall|k: int| 0 <= k < count implies #[trigger] keys[k] != keys[count] by {
        assert(key_is_listed(keys, order, keys[k]));
        let i = choose|i: int|
            0 <= i < order.len() && keys[(#[trigger] order[i]) as int] == keys[k];
        precedes_is_an_order(keys[order[i] as int], keys[count], keys[count]);
        precedes_is_an_order(keys[count], keys[order[i] as int], keys[count]);
    }
}

/// Listing one more key where it belongs, unless it is listed, lists all keys up
/// to it.
proof fn one_more_key(keys: Seq<Text>, count: usize, order: Seq<usize>, at: int, known: bool)
    requires
        orders_first(keys, count as int, order),
        count < keys.len(),
        0 <= at <= order.len(),
        forall|k: int|
            0 <= k < at ==> precedes(keys[(#[trigger] order[k]) as int], keys[count as int]),
        at < order.len() ==> !precedes(keys[order[at] as int], keys[count as int]),
        known <==> at < order.len() && keys[order[at] as int] == keys[count as int],
    ensures
        orders_first(
            keys,
            count + 1,
            if known {
                order
            } else {
                order.insert(at, count)
            },
        ),
{
    let key = keys[count as int];
    if known {
        assert(key_is_listed(keys, order, key));
    } else {
        let after = order.insert(at, count);
        assert forall|k: int| at <= k < order.len() implies precedes(
            key,
            keys[(#[trigger] order[k]) as int],
        ) by {
            precedes_is_an_order(keys[order[at] as int], key, key);
            precedes_is_an_order(key, keys[order[at] as int], keys[order[k] as int]);
        }
        key_is_new(keys, count as int, order, at);
        assert forall|i: int, j: int| 0 <= i < j < after.len() implies precedes(
            keys[(#[trigger] after[i]) as int],
            keys[(#[trigger] after[j]) as int],
        ) by {
            if i == at {
                assert(after[j] == order[j - 1]);
            } else if j == at {
                assert(after[i] == order[i]);
            } else {
                let bi = if i < at {
                    i
                } else {
                    i - 1
                };
                let bj = if j < at {
                    j
                } else {
                    j - 1
                };
                assert(after[i] == order[bi]);
                assert(after[j] == order[bj]);
            }
        }
        assert forall|i: int| 0 <= i < after.len() implies (#[trigger] after[i]) < count + 1
            && is_first_key(keys, after[i] as int) by {
            if i != at {
                let b = if i < at {
                    i
                } else {
                    i - 1
                };
                assert(after[i] == order[b]);
            }
        }
        assert forall|k: int| 0 <= k < count + 1 implies key_is_listed(
            keys,
            after,
            #[trigger] keys[k],
        ) by {
            if k < count {
                key_stays_listed(keys, order, at, count, keys[k]);
            } else {
                assert(keys[after[at] as int] == key);
            }
        }
    }
}

/// The positions of keys in the order of the keys, of equal keys the first.
pub fn key_order(keys: &Vec<String>) -> (r: Vec<usize>)
    ensures
        orders(views(keys@), r@),
{
    let ghost all = views(keys@);
    let mut order: Vec<usize> = Vec::new();
    let mut i: usize = 0;
    while i < keys.len()
        invariant
            i <= keys@.len(),
            all == views(keys@),
            orders_first(all, i as int, order@),
        decreases keys@.len() - i,
    {
        assert(all[i as int] == keys@[i as int]@);
        let mut at: usize = 0;
        while at < order.len() && text_precedes(&keys[order[at]], &keys[i])
            invariant
                i < keys@.len(),
                at <= order@.len(),
                all == views(keys@),
                orders_first(all, i as int, order@),
                forall|k: int|
                    0 <= k < at ==> precedes(all[(#[trigger] order@[k]) as int], all[i as int]),
            decreases order@.len() - at,
        {
            assert(all[order@[at as int] as int] == keys@[order@[at as int] as int]@);
            at += 1;
        }
        if at < order.len() {
            assert(all[order@[at as int] as int] == keys@[order@[at as int] as int]@);
        }
        let known = at < order.len() && same(&keys[order[at]], &keys[i]);
        proof {
            one_more_key(all, i, order@, at as int, known);
        }
        if !known {
            order.insert(at, i);
        }
        i += 1;
    }
    order
}

/// The keys by which models are ordered and told apart: their ids in lowercase.
pub open spec fn model_keys(models: Seq<ModelInfoView>) -> Seq<Text> {
    models.map_values(|model: ModelInfoView| lowercase(model.id))
}

/// Whether `chosen` are the models of `models` in alphabetical order without
/// regard to case, of those that differ in case alone the first.
pub open spec fn alphabetical(models: Seq<ModelInfoView>, chosen: Seq<ModelInfoView>) -> bool {
    exists|order: Seq<usize>| #[trigger]
        orders(model_keys(models), order) && chosen == order.map_values(
            |position: usize| models[position as int],
        )
}

/// Sorts models alphabetically without regard to case and keeps the first of
/// those that differ in case alone.
pub fn sorted_models(models: Vec<ModelInfo>) -> (r: Vec<ModelInfo>)
    ensures
        alphabetical(views(models@), views(r@)),
{
    let ghost all = views(models@);
    let mut keys: Vec<String> = Vec::new();
    let mut i: usize = 0;
    assert(views(keys@) =~= model_keys(all).take(0));
    while i < models.len()
        invariant
            i <= models@.len(),
            all == views(models@),
            views(keys@) == model_keys(all).take(i as int),
        decreases models@.len() - i,
    {
        let key = lowercase_text(&models[i].id);
        let ghost before = views(keys@);
        let ghost added = key@;
        keys.push(key);
        assert(views(keys@) =~= before.push(added));
        assert(model_keys(all).take(i as int + 1) =~= model_keys(all).take(i as int).push(added));
        i += 1;
    }
    assert(model_keys(all).take(all.len() as int) =~= model_keys(all));
    let order = key_order(&keys);
    let ghost chosen = order@.map_values(|position: usize| all[position as int]);
    let mut out: Vec<ModelInfo> = Vec::new();
    let mut at: usize = 0;
    assert(views(out@) =~= chosen.take(0));
    while at < order.len()
        invariant
            at <= order@.len(),
            all == views(models@),
            orders(model_keys(all), order@),
            chosen == order@.map_values(|position: usize| all[position as int]),
            views(out@) == chosen.take(at as int),
        decreases order@.len() - at,
    {
        let position: usize = order[at];
        assert(is_first_key(model_keys(all), position as int));
        let ghost before = views(out@);
        out.push(models[position].clone());
        assert(views(out@) =~= before.push(all[position as int]));
        assert(chosen.take(at as int + 1) =~= chosen.take(at as int).push(all[position as int]));
        at += 1;
    }
    assert(chosen.take(order@.len() as int) =~= chosen);
    out
}

/// The models of a listing as setup offers them.
pub fn discovered_models(listing: &ModelListing) -> (r: Vec<ModelInfo>)
    ensures
        alphabetical(listed_models(listing.data@), views(r@)),
{
    sorted_models(listing.models())
}

/// A declared list of levels wins over what an id implies, and a listing that
/// does not say leaves the id to decide.
pub proof fn declared_levels_win(id: String, extra: Vec<(String, Json)>)
    ensures
        ({
            let model = listed_model(ModelListingEntry::Identified { id, extra });
            model.reasoning_efforts == if reported(extra@) is Some {
                reported(extra@)
            } else {
                inferred(id@)
            }
        }),
{
}

/// A listing that declares levels decides without the id: by the levels it
/// enumerates, or, where none of them is recognizable, by the common ones.
pub proof fn declarations_decide(id: String, extra: Vec<(String, Json)>)
    requires
        declares_levels(extra@),
    ensures
        ({
            let declared = enumerated(extra@, "reasoning_efforts"@);
            let supported = enumerated(extra@, "supported_reasoning_efforts"@);
            listed_model(ModelListingEntry::Identified { id, extra }).reasoning_efforts
                == Some(
                if declared.len() > 0 {
                    declared
                } else if supported.len() > 0 {
                    supported
                } else {
                    ReasoningEffort::COMMON@
                },
            )
        }),
{
}

/// What is reported of a response with an error status.
pub fn provider_failure(status: &str, body: &str) -> (r: String)
    ensures
        r@ == "provider returned "@ + status@ + ": "@ + body@,
{
    concat(&concat3("provider returned ", status, ": "), body)
}

/// What is reported of a models listing with an error status.
pub fn listing_failure(status: &str, body: &str) -> (r: String)
    ensures
        r@ == "model listing returned "@ + status@ + ": "@ + body@,
{
    concat(&concat3("model listing returned ", status, ": "), body)
}

/// What is reported of a models listing that did not decode.
pub fn invalid_listing(error: &str) -> (r: String)
    ensures
        r@ == "invalid model listing response: "@ + error@,
{
    concat("invalid model listing response: ", error)
}

/// How a tool call is written, whatever stands behind it: an object with its
/// arguments and its name in the member `function`, and its id in the member
/// `id`.
pub proof fn calls_are_written_out(call: ToolCallView, rest: Text)
    ensures
        call_json(call) + rest == "{"@ + member_then(
            "function"@,
            "{"@,
            member_then(
                "arguments"@,
                json_quoted(call.arguments),
                ","@ + member_then(
                    "name"@,
                    json_quoted(call.name),
                    "}"@ + (","@ + member_then(
                        "id"@,
                        json_quoted(call.id),
                        ","@ + member_then("type"@, json_quoted("function"@), "}"@ + rest),
                    )),
                ),
            ),
        ),
{
    let arguments = json_text_member("arguments"@, call.arguments);
    let name = json_text_member("name"@, call.name);
    let function = json_object(seq![arguments, name]);
    let id = json_text_member("id"@, call.id);
    let kind = json_text_member("type"@, "function"@);
    let end = "}"@ + rest;
    let third = ","@ + (kind + end);
    let second = ","@ + (id + third);
    three_members(json_member("function"@, function), id, kind, rest);
    members_are_written_out("type"@, json_quoted("function"@), end);
    members_are_written_out("id"@, json_quoted(call.id), third);
    members_are_written_out("function"@, function, second);
    two_members(arguments, name, second);
    let closing = "}"@ + second;
    members_are_written_out("name"@, json_quoted(call.name), closing);
    members_are_written_out("arguments"@, json_quoted(call.arguments), ","@ + (name + closing));
}

/// How a message is written, whatever stands behind it: an object whose member
/// `content` is what was said and whose member `role` is who said it. An answer
/// with tool calls has them in the member `tool_calls`, one behind the other; a
/// tool result names its call in the member `tool_call_id`.
pub proof fn messages_are_written_out(message: ModelMessageView, rest: Text)
    ensures
        message_json_spec(message) + rest == match message {
            ModelMessageView::User { content } => "{"@ + member_then(
                "content"@,
                json_quoted(content),
                ","@ + member_then("role"@, json_quoted("user"@), "}"@ + rest),
            ),
            ModelMessageView::Assistant { content, tool_calls } => "{"@ + member_then(
                "content"@,
                json_quoted(content),
                ","@ + member_then(
                    "role"@,
                    json_quoted("assistant"@),
                    if tool_calls.len() == 0 {
                        "}"@ + rest
                    } else {
                        ","@ + member_then(
                            "tool_calls"@,
                            "["@,
                            join(
                                tool_calls.map_values(|call: ToolCallView| call_json(call)),
                                ","@,
                            ) + ("]"@ + ("}"@ + rest)),
                        )
                    },
                ),
            ),
            ModelMessageView::Tool(result) => "{"@ + member_then(
                "content"@,
                json_quoted(result.content),
                ","@ + member_then(
                    "role"@,
                    json_quoted("tool"@),
                    ","@ + member_then(
                        "tool_call_id"@,
                        json_quoted(result.tool_call_id),
                        "}"@ + rest,
                    ),
                ),
            ),
        },
{
    let end = "}"@ + rest;
    match message {
        ModelMessageView::User { content } => {
            let said = json_text_member("content"@, content);
            let role = json_text_member("role"@, "user"@);
            two_members(said, role, rest);
            members_are_written_out("role"@, json_quoted("user"@), end);
            members_are_written_out("content"@, json_quoted(content), ","@ + (role + end));
        },
        ModelMessageView::Assistant { content, tool_calls } => {
            let said = json_text_member("content"@, content);
            let role = json_text_member("role"@, "assistant"@);
            let texts = tool_calls.map_values(|call: ToolCallView| call_json(call));
            let calls = json_member("tool_calls"@, json_list(texts));
            if tool_calls.len() == 0 {
                two_members(said, role, rest);
                members_are_written_out("role"@, json_quoted("assistant"@), end);
                members_are_written_out("content"@, json_quoted(content), ","@ + (role + end));
            } else {
                let last = ","@ + (calls + end);
                three_members(said, role, calls, rest);
                members_are_written_out("tool_calls"@, json_list(texts), end);
                lists_are_written_out(texts, end);
                members_are_written_out("role"@, json_quoted("assistant"@), last);
                members_are_written_out("content"@, json_quoted(content), ","@ + (role + last));
            }
        },
        ModelMessageView::Tool(result) => {
            let said = json_text_member("content"@, result.content);
            let role = json_text_member("role"@, "tool"@);
            let call = json_text_member("tool_call_id"@, result.tool_call_id);
            let last = ","@ + (call + end);
            three_members(said, role, call, rest);
            members_are_written_out("tool_call_id"@, json_quoted(result.tool_call_id), end);
            members_are_written_out("role"@, json_quoted("tool"@), last);
            members_are_written_out("content"@, json_quoted(result.content), ","@ + (role + last));
        },
    }
}

proof fn call_texts_differ(a: ToolCallView, b: ToolCallView, x: Text, y: Text)
    requires
        call_json(a) + x == call_json(b) + y,
    ensures
        a == b,
        x == y,
{
    calls_are_written_out(a, x);
    calls_are_written_out(b, y);
    let a4 = ","@ + member_then("type"@, json_quoted("function"@), "}"@ + x);
    let b4 = ","@ + member_then("type"@, json_quoted("function"@), "}"@ + y);
    let a3 = "}"@ + (","@ + member_then("id"@, json_quoted(a.id), a4));
    let b3 = "}"@ + (","@ + member_then("id"@, json_quoted(b.id), b4));
    let a2 = ","@ + member_then("name"@, json_quoted(a.name), a3);
    let b2 = ","@ + member_then("name"@, json_quoted(b.name), b3);
    let a1 = member_then("arguments"@, json_quoted(a.arguments), a2);
    let b1 = member_then("arguments"@, json_quoted(b.arguments), b2);
    same_behind("{"@, member_then("function"@, "{"@, a1), member_then("function"@, "{"@, b1));
    values_stand_behind_keys("function"@, "{"@, "{"@, a1, b1);
    same_behind("{"@, a1, b1);
    text_members_are_told_apart("arguments"@, a.arguments, b.arguments, a2, b2);
    same_behind(
        ","@,
        member_then("name"@, json_quoted(a.name), a3),
        member_then("name"@, json_quoted(b.name), b3),
    );
    text_members_are_told_apart("name"@, a.name, b.name, a3, b3);
    same_behind(
        "}"@,
        ","@ + member_then("id"@, json_quoted(a.id), a4),
        ","@ + member_then("id"@, json_quoted(b.id), b4),
    );
    same_behind(
        ","@,
        member_then("id"@, json_quoted(a.id), a4),
        member_then("id"@, json_quoted(b.id), b4),
    );
    text_members_are_told_apart("id"@, a.id, b.id, a4, b4);
    same_behind(
        ","@,
        member_then("type"@, json_quoted("function"@), "}"@ + x),
        member_then("type"@, json_quoted("function"@), "}"@ + y),
    );
    text_members_are_told_apart("type"@, "function"@, "function"@, "}"@ + x, "}"@ + y);
    same_behind("}"@, x, y);
}

proof fn call_lists_differ(a: Seq<ToolCallView>, b: Seq<ToolCallView>, x: Text, y: Text)
    requires
        join(a.map_values(|call: ToolCallView| call_json(call)), ","@) + ("]"@ + x) == join(
            b.map_values(|call: ToolCallView| call_json(call)),
            ","@,
        ) + ("]"@ + y),
    ensures
        a == b,
        x == y,
{
    let write = |call: ToolCallView| call_json(call);
    let alike = |p: ToolCallView, q: ToolCallView| p == q;
    assert forall|p: ToolCallView, q: ToolCallView, u: Text, v: Text|
        #![trigger write(p) + u, write(q) + v]
        write(p) + u == write(q) + v implies alike(p, q) && u == v by {
        call_texts_differ(p, q, u, v);
    }
    assert forall|p: ToolCallView| (#[trigger] write(p)).len() > 0 && write(p)[0] == '{' by {
        reveal_strlit("{");
    }
    regroup(join(a.map_values(write), ","@), "]"@, x);
    regroup(join(b.map_values(write), ","@), "]"@, y);
    lists_are_told_apart(a, b, write, alike, x, y);
    assert forall|i: int| 0 <= i < a.len() implies a[i] == b[i] by {
        assert(alike(a[i], b[i]));
    }
    assert(a =~= b);
}

/// Whether two messages say the same to a provider: all of them, but for whether
/// a tool result is an error, which only its content tells.
pub open spec fn say_the_same(a: ModelMessageView, b: ModelMessageView) -> bool {
    match (a, b) {
        (ModelMessageView::Tool(left), ModelMessageView::Tool(right)) => left.content
            == right.content && left.tool_call_id == right.tool_call_id,
        _ => a == b,
    }
}

spec fn role_of(message: ModelMessageView) -> Text {
    match message {
        ModelMessageView::User { .. } => "user"@,
        ModelMessageView::Assistant { .. } => "assistant"@,
        ModelMessageView::Tool(_) => "tool"@,
    }
}

spec fn content_of(message: ModelMessageView) -> Text {
    match message {
        ModelMessageView::User { content } => content,
        ModelMessageView::Assistant { content, .. } => content,
        ModelMessageView::Tool(result) => result.content,
    }
}

spec fn behind_the_role(message: ModelMessageView, rest: Text) -> Text {
    match message {
        ModelMessageView::User { .. } => "}"@ + rest,
        ModelMessageView::Assistant { tool_calls, .. } => if tool_calls.len() == 0 {
            "}"@ + rest
        } else {
            ","@ + member_then(
                "tool_calls"@,
                "["@,
                join(tool_calls.map_values(|call: ToolCallView| call_json(call)), ","@) + ("]"@ + (
                "}"@ + rest)),
            )
        },
        ModelMessageView::Tool(result) => ","@ + member_then(
            "tool_call_id"@,
            json_quoted(result.tool_call_id),
            "}"@ + rest,
        ),
    }
}

proof fn roles_differ()
    ensures
        "user"@ != "tool"@,
        "user"@ != "assistant"@,
        "tool"@ != "assistant"@,
{
    reveal_strlit("user");
    reveal_strlit("assistant");
    reveal_strlit("tool");
    assert("user"@[0] != "tool"@[0] && "user"@[0] != "assistant"@[0] && "tool"@[0]
        != "assistant"@[0]);
}

/// The text of a message tells which message it is, whatever stands behind it:
/// what was said, by whom, with which tool calls or to which of them.
pub proof fn messages_are_told_apart(
    a: ModelMessageView,
    b: ModelMessageView,
    x: Text,
    y: Text,
)
    requires
        message_json_spec(a) + x == message_json_spec(b) + y,
    ensures
        say_the_same(a, b),
        x == y,
{
    messages_are_written_out(a, x);
    messages_are_written_out(b, y);
    let a2 = behind_the_role(a, x);
    let b2 = behind_the_role(b, y);
    let a1 = ","@ + member_then("role"@, json_quoted(role_of(a)), a2);
    let b1 = ","@ + member_then("role"@, json_quoted(role_of(b)), b2);
    same_behind(
        "{"@,
        member_then("content"@, json_quoted(content_of(a)), a1),
        member_then("content"@, json_quoted(content_of(b)), b1),
    );
    text_members_are_told_apart("content"@, content_of(a), content_of(b), a1, b1);
    same_behind(
        ","@,
        member_then("role"@, json_quoted(role_of(a)), a2),
        member_then("role"@, json_quoted(role_of(b)), b2),
    );
    text_members_are_told_apart("role"@, role_of(a), role_of(b), a2, b2);
    roles_differ();
    match (a, b) {
        (ModelMessageView::Tool(left), ModelMessageView::Tool(right)) => {
            same_behind(
                ","@,
                member_then("tool_call_id"@, json_quoted(left.tool_call_id), "}"@ + x),
                member_then("tool_call_id"@, json_quoted(right.tool_call_id), "}"@ + y),
            );
            text_members_are_told_apart(
                "tool_call_id"@,
                left.tool_call_id,
                right.tool_call_id,
                "}"@ + x,
                "}"@ + y,
            );
            same_behind("}"@, x, y);
        },
        (
            ModelMessageView::Assistant { tool_calls: left, .. },
            ModelMessageView::Assistant { tool_calls: right, .. },
        ) => {
            calls_show_behind_the_role(left, right, x, y, a2, b2);
        },
        _ => {
            same_behind("}"@, x, y);
        },
    }
}

proof fn calls_show_behind_the_role(
    left: Seq<ToolCallView>,
    right: Seq<ToolCallView>,
    x: Text,
    y: Text,
    a: Text,
    b: Text,
)
    requires
        a == b,
        a == behind_the_role(
            ModelMessageView::Assistant { content: seq![], tool_calls: left },
            x,
        ),
        b == behind_the_role(
            ModelMessageView::Assistant { content: seq![], tool_calls: right },
            y,
        ),
    ensures
        left == right,
        x == y,
{
    reveal_strlit("}");
    reveal_strlit(",");
    if left.len() == 0 || right.len() == 0 {
        assert(a[0] == if left.len() == 0 {
            '}'
        } else {
            ','
        });
        assert(b[0] == if right.len() == 0 {
            '}'
        } else {
            ','
        });
        same_behind("}"@, x, y);
        assert(left =~= right);
    } else {
        let l = join(left.map_values(|call: ToolCallView| call_json(call)), ","@) + ("]"@ + ("}"@
            + x));
        let r = join(right.map_values(|call: ToolCallView| call_json(call)), ","@) + ("]"@ + ("}"@
            + y));
        same_behind(
            ","@,
            member_then("tool_calls"@, "["@, l),
            member_then("tool_calls"@, "["@, r),
        );
        values_stand_behind_keys("tool_calls"@, "["@, "["@, l, r);
        same_behind("["@, l, r);
        call_lists_differ(left, right, "}"@ + x, "}"@ + y);
        same_behind("}"@, x, y);
    }
}

/// How a tool is offered: its name, its description and its parameters in the
/// member `function`.
pub proof fn tools_are_written_out(tool: ToolDefinitionView, rest: Text)
    ensures
        tool_json_spec(tool) + rest == "{"@ + member_then(
            "function"@,
            "{"@,
            member_then(
                "description"@,
                json_quoted(tool.description),
                ","@ + member_then(
                    "name"@,
                    json_quoted(tool.name),
                    ","@ + member_then(
                        "parameters"@,
                        tool.input_schema,
                        "}"@ + (","@ + member_then("type"@, json_quoted("function"@), "}"@ + rest)),
                    ),
                ),
            ),
        ),
{
    let description = json_text_member("description"@, tool.description);
    let name = json_text_member("name"@, tool.name);
    let parameters = json_member("parameters"@, tool.input_schema);
    let function = json_object(seq![description, name, parameters]);
    let kind = json_text_member("type"@, "function"@);
    let end = "}"@ + rest;
    let second = ","@ + (kind + end);
    two_members(json_member("function"@, function), kind, rest);
    members_are_written_out("type"@, json_quoted("function"@), end);
    members_are_written_out("function"@, function, second);
    three_members(description, name, parameters, second);
    let closing = "}"@ + second;
    let third = ","@ + (parameters + closing);
    members_are_written_out("parameters"@, tool.input_schema, closing);
    members_are_written_out("name"@, json_quoted(tool.name), third);
    members_are_written_out("description"@, json_quoted(tool.description), ","@ + (name + third));
}

/// The messages of a request, written one behind the other.
pub open spec fn messages_text(request: InferenceRequestView) -> Text {
    join(request.messages.map_values(|m: ModelMessageView| message_json_spec(m)), ","@)
}

/// The tools of a request, written one behind the other.
pub open spec fn tools_text(request: InferenceRequestView) -> Text {
    join(request.tools.map_values(|t: ToolDefinitionView| tool_json_spec(t)), ","@)
}

/// The messages and the model of a request with what stands behind them.
pub open spec fn asked_then(request: InferenceRequestView, rest: Text) -> Text {
    member_then(
        "messages"@,
        "["@,
        messages_text(request) + ("]"@ + (","@ + member_then(
            "model"@,
            json_quoted(request.model.id),
            rest,
        ))),
    )
}

/// The end of a request: the wish for a stream, and its tools.
pub open spec fn offered_then(request: InferenceRequestView, rest: Text) -> Text {
    member_then(
        "stream"@,
        "true"@,
        ","@ + member_then("tools"@, "["@, tools_text(request) + ("]"@ + ("}"@ + rest))),
    )
}

/// How a request is written: all its messages and all its tools, one behind the
/// other, its model's id, the wish for a stream, and its effort, if it has one, in
/// each of its spellings.
pub proof fn requests_are_written_out(request: InferenceRequestView)
    ensures
        request_body_spec(request) == match request.reasoning_effort {
            None => "{"@ + asked_then(request, ","@ + offered_then(request, seq![])),
            Some(effort) => "{"@ + member_then(
                "allowed_openai_params"@,
                "["@,
                json_quoted("reasoning_effort"@) + ("]"@ + (","@ + asked_then(
                    request,
                    ","@ + member_then(
                        "reasoning"@,
                        "{"@,
                        member_then(
                            "effort"@,
                            json_quoted(effort.spelling()),
                            "}"@ + (","@ + member_then(
                                "reasoning_effort"@,
                                json_quoted(effort.spelling()),
                                ","@ + offered_then(request, seq![]),
                            )),
                        ),
                    ),
                ))),
            ),
        },
{
    let none = Seq::<char>::empty();
    let message_texts = request.messages.map_values(|m: ModelMessageView| message_json_spec(m));
    let tool_texts = request.tools.map_values(|t: ToolDefinitionView| tool_json_spec(t));
    let messages = json_member("messages"@, json_list(message_texts));
    let model = json_text_member("model"@, request.model.id);
    let stream = json_member("stream"@, "true"@);
    let tools = json_member("tools"@, json_list(tool_texts));
    let end = "}"@ + none;
    let last = ","@ + (tools + end);
    members_are_written_out("tools"@, json_list(tool_texts), end);
    lists_are_written_out(tool_texts, end);
    members_are_written_out("stream"@, "true"@, last);
    assert(stream + last == offered_then(request, none));
    let body = request_body_spec(request);
    assert(body + none =~= body);
    match request.reasoning_effort {
        None => {
            four_members(messages, model, stream, tools, none);
            let third = ","@ + (stream + last);
            members_are_written_out("model"@, json_quoted(request.model.id), third);
            let second = ","@ + (model + third);
            members_are_written_out("messages"@, json_list(message_texts), second);
            lists_are_written_out(message_texts, second);
        },
        Some(effort) => {
            let names = seq![json_quoted("reasoning_effort"@)];
            let allowed = json_member("allowed_openai_params"@, json_list(names));
            let inner = json_text_member("effort"@, effort.spelling());
            let nested = json_member("reasoning"@, json_object(seq![inner]));
            let plain = json_text_member("reasoning_effort"@, effort.spelling());
            let all = seq![allowed, messages, model, nested, plain, stream, tools];
            first_three_members(all, none);
            assert(all.skip(3) =~= seq![nested, plain, stream, tools]);
            four_items(nested, plain, stream, tools, end);
            let fifth = ","@ + (stream + last);
            members_are_written_out("reasoning_effort"@, json_quoted(effort.spelling()), fifth);
            let fourth = ","@ + (plain + fifth);
            members_are_written_out("reasoning"@, json_object(seq![inner]), fourth);
            one_member(inner, fourth);
            members_are_written_out("effort"@, json_quoted(effort.spelling()), "}"@ + fourth);
            let third = ","@ + (nested + fourth);
            members_are_written_out("model"@, json_quoted(request.model.id), third);
            let second = ","@ + (model + third);
            members_are_written_out("messages"@, json_list(message_texts), second);
            lists_are_written_out(message_texts, second);
            let first = ","@ + (messages + second);
            members_are_written_out("allowed_openai_params"@, json_list(names), first);
            lists_are_written_out(names, first);
        },
    }
}

proof fn asked_is_told_apart(a: InferenceRequestView, b: InferenceRequestView, x: Text, y: Text)
    requires
        asked_then(a, x) == asked_then(b, y),
    ensures
        a.messages.len() == b.messages.len(),
        forall|i: int|
            0 <= i < a.messages.len() ==> say_the_same(#[trigger] a.messages[i], b.messages[i]),
        a.model.id == b.model.id,
        x == y,
{
    let write = |m: ModelMessageView| message_json_spec(m);
    let alike = |p: ModelMessageView, q: ModelMessageView| say_the_same(p, q);
    assert forall|p: ModelMessageView, q: ModelMessageView, u: Text, v: Text|
        #![trigger write(p) + u, write(q) + v]
        write(p) + u == write(q) + v implies alike(p, q) && u == v by {
        messages_are_told_apart(p, q, u, v);
    }
    assert forall|p: ModelMessageView| (#[trigger] write(p)).len() > 0 && write(p)[0] == '{' by {
        reveal_strlit("{");
    }
    let a1 = ","@ + member_then("model"@, json_quoted(a.model.id), x);
    let b1 = ","@ + member_then("model"@, json_quoted(b.model.id), y);
    let l = messages_text(a) + ("]"@ + a1);
    let r = messages_text(b) + ("]"@ + b1);
    values_stand_behind_keys("messages"@, "["@, "["@, l, r);
    same_behind("["@, l, r);
    regroup(messages_text(a), "]"@, a1);
    regroup(messages_text(b), "]"@, b1);
    lists_are_told_apart(a.messages, b.messages, write, alike, a1, b1);
    assert forall|i: int| 0 <= i < a.messages.len() implies say_the_same(
        #[trigger] a.messages[i],
        b.messages[i],
    ) by {
        assert(alike(a.messages[i], b.messages[i]));
    }
    same_behind(
        ","@,
        member_then("model"@, json_quoted(a.model.id), x),
        member_then("model"@, json_quoted(b.model.id), y),
    );
    text_members_are_told_apart("model"@, a.model.id, b.model.id, x, y);
}

/// The text of a request tells what it asks for: the same text means the same
/// model, the same effort, and the same messages in the same order.
pub proof fn requests_are_told_apart(a: InferenceRequestView, b: InferenceRequestView)
    requires
        request_body_spec(a) == request_body_spec(b),
    ensures
        a.model.id == b.model.id,
        a.reasoning_effort == b.reasoning_effort,
        a.messages.len() == b.messages.len(),
        forall|i: int|
            0 <= i < a.messages.len() ==> say_the_same(#[trigger] a.messages[i], b.messages[i]),
{
    requests_are_written_out(a);
    requests_are_written_out(b);
    let none = Seq::<char>::empty();
    match (a.reasoning_effort, b.reasoning_effort) {
        (None, None) => {
            let x = ","@ + offered_then(a, none);
            let y = ","@ + offered_then(b, none);
            same_behind("{"@, asked_then(a, x), asked_then(b, y));
            asked_is_told_apart(a, b, x, y);
        },
        (Some(p), Some(r)) => {
            let a3 = "}"@ + (","@ + member_then(
                "reasoning_effort"@,
                json_quoted(p.spelling()),
                ","@ + offered_then(a, none),
            ));
            let b3 = "}"@ + (","@ + member_then(
                "reasoning_effort"@,
                json_quoted(r.spelling()),
                ","@ + offered_then(b, none),
            ));
            let a2 = member_then("effort"@, json_quoted(p.spelling()), a3);
            let b2 = member_then("effort"@, json_quoted(r.spelling()), b3);
            let x = ","@ + member_then("reasoning"@, "{"@, a2);
            let y = ","@ + member_then("reasoning"@, "{"@, b2);
            let a1 = "]"@ + (","@ + asked_then(a, x));
            let b1 = "]"@ + (","@ + asked_then(b, y));
            let a0 = json_quoted("reasoning_effort"@) + a1;
            let b0 = json_quoted("reasoning_effort"@) + b1;
            same_behind(
                "{"@,
                member_then("allowed_openai_params"@, "["@, a0),
                member_then("allowed_openai_params"@, "["@, b0),
            );
            values_stand_behind_keys("allowed_openai_params"@, "["@, "["@, a0, b0);
            same_behind("["@, a0, b0);
            same_behind(json_quoted("reasoning_effort"@), a1, b1);
            same_behind("]"@, ","@ + asked_then(a, x), ","@ + asked_then(b, y));
            same_behind(","@, asked_then(a, x), asked_then(b, y));
            asked_is_told_apart(a, b, x, y);
            same_behind(
                ","@,
                member_then("reasoning"@, "{"@, a2),
                member_then("reasoning"@, "{"@, b2),
            );
            values_stand_behind_keys("reasoning"@, "{"@, "{"@, a2, b2);
            same_behind("{"@, a2, b2);
            text_members_are_told_apart("effort"@, p.spelling(), r.spelling(), a3, b3);
            parse_inverts_spelling(p.spelling(), p);
            parse_inverts_spelling(r.spelling(), r);
        },
        (None, Some(effort)) => {
            efforts_show(
                behind_messages(a, ","@ + offered_then(a, none)),
                behind_allowed(b, effort),
            );
        },
        (Some(effort), None) => {
            efforts_show(
                behind_messages(b, ","@ + offered_then(b, none)),
                behind_allowed(a, effort),
            );
        },
    }
}

proof fn efforts_show(x: Text, y: Text)
    ensures
        "{"@ + (json_quoted("messages"@) + x) != "{"@ + (json_quoted("allowed_openai_params"@) + y),
{
    let left = json_quoted("messages"@) + x;
    let right = json_quoted("allowed_openai_params"@) + y;
    if "{"@ + left == "{"@ + right {
        same_behind("{"@, left, right);
        literals_are_told_apart("messages"@, "allowed_openai_params"@, x, y);
        reveal_strlit("messages");
        reveal_strlit("allowed_openai_params");
        assert("messages"@[0] != "allowed_openai_params"@[0]);
    }
}

spec fn behind_allowed(request: InferenceRequestView, effort: ReasoningEffort) -> Text {
    ":"@ + ("["@ + (json_quoted("reasoning_effort"@) + ("]"@ + (","@ + asked_then(
        request,
        ","@ + member_then(
            "reasoning"@,
            "{"@,
            member_then(
                "effort"@,
                json_quoted(effort.spelling()),
                "}"@ + (","@ + member_then(
                    "reasoning_effort"@,
                    json_quoted(effort.spelling()),
                    ","@ + offered_then(request, seq![]),
                )),
            ),
        ),
    )))))
}

spec fn behind_messages(request: InferenceRequestView, rest: Text) -> Text {
    ":"@ + ("["@ + (messages_text(request) + ("]"@ + (","@ + member_then(
        "model"@,
        json_quoted(request.model.id),
        rest,
    )))))
}

/// The text of some items, joined.
pub open spec fn items_text(items: Seq<Result<ProviderEventView, Text>>) -> Text
    decreases items.len(),
{
    if items.len() == 0 {
        seq![]
    } else {
        items_text(items.drop_last()) + match items.last() {
            Ok(ProviderEventView::TextDelta(text)) => text,
            _ => seq![],
        }
    }
}

/// The contents of some choices, joined. A missing content counts as empty.
pub open spec fn choices_text(choices: Seq<StreamChoiceView>) -> Text
    decreases choices.len(),
{
    if choices.len() == 0 {
        seq![]
    } else {
        choices_text(choices.drop_last()) + or_empty(choices.last().content)
    }
}

/// No streamed character is lost, added or moved: the texts that a chunk yields
/// are, joined, the contents of its choices, and each of them says something.
pub proof fn streamed_text_is_kept(choices: Seq<StreamChoiceView>)
    ensures
        items_text(text_events(choices)) == choices_text(choices),
        forall|i: int|
            0 <= i < text_events(choices).len() ==> ((#[trigger] text_events(choices)[i]) matches Ok(
                ProviderEventView::TextDelta(text),
            ) && text.len() > 0),
    decreases choices.len(),
{
    if choices.len() > 0 {
        let rest = text_events(choices.drop_last());
        streamed_text_is_kept(choices.drop_last());
        let all = text_events(choices);
        if all.len() > rest.len() {
            assert(all.drop_last() =~= rest);
        } else {
            assert(all == rest);
            assert(or_empty(choices.last().content) =~= seq![]);
            assert(choices_text(choices) =~= choices_text(choices.drop_last()));
        }
        assert forall|i: int| 0 <= i < all.len() implies ((#[trigger] all[i]) matches Ok(
            ProviderEventView::TextDelta(text),
        ) && text.len() > 0) by {
            if i < rest.len() {
                assert(all[i] == rest[i]);
            }
        }
    }
}

/// All pieces of tool calls in some choices, in order.
pub open spec fn all_pieces(choices: Seq<StreamChoiceView>) -> Seq<StreamToolCallDeltaView>
    decreases choices.len(),
{
    if choices.len() == 0 {
        seq![]
    } else {
        all_pieces(choices.drop_last()) + choices.last().tool_calls
    }
}

/// What the pieces of one call say of some part of it, joined.
pub open spec fn said_of(
    pieces: Seq<StreamToolCallDeltaView>,
    index: usize,
    part: spec_fn(StreamToolCallDeltaView) -> Text,
) -> Text
    decreases pieces.len(),
{
    if pieces.len() == 0 {
        seq![]
    } else if pieces.last().index == index {
        said_of(pieces.drop_last(), index, part) + part(pieces.last())
    } else {
        said_of(pieces.drop_last(), index, part)
    }
}

pub open spec fn piece_id(piece: StreamToolCallDeltaView) -> Text {
    or_empty(piece.id)
}

pub open spec fn piece_name(piece: StreamToolCallDeltaView) -> Text {
    match piece.function {
        Some(function) => or_empty(function.name),
        None => seq![],
    }
}

pub open spec fn piece_arguments(piece: StreamToolCallDeltaView) -> Text {
    match piece.function {
        Some(function) => or_empty(function.arguments),
        None => seq![],
    }
}

/// Whether calls are what the pieces say: one for each index that occurs, in
/// the order of the indices, each with its parts joined in the order they came.
pub open spec fn assembled(
    calls: Seq<PartialToolCallView>,
    pieces: Seq<StreamToolCallDeltaView>,
) -> bool {
    &&& calls_in_order(calls)
    &&& forall|k: int|
        0 <= k < calls.len() ==> {
            let call = #[trigger] calls[k];
            &&& call.id == said_of(pieces, call.index, |p: StreamToolCallDeltaView| piece_id(p))
            &&& call.name == said_of(pieces, call.index, |p: StreamToolCallDeltaView| piece_name(p))
            &&& call.arguments == said_of(
                pieces,
                call.index,
                |p: StreamToolCallDeltaView| piece_arguments(p),
            )
            &&& exists|i: int| 0 <= i < pieces.len() && (#[trigger] pieces[i]).index == call.index
        }
    &&& forall|i: int|
        0 <= i < pieces.len() ==> has_call(calls, (#[trigger] pieces[i]).index)
}

/// Whether there is a call with an index.
pub open spec fn has_call(calls: Seq<PartialToolCallView>, index: usize) -> bool {
    exists|k: int| 0 <= k < calls.len() && (#[trigger] calls[k]).index == index
}

proof fn unheard_calls_are_empty(
    pieces: Seq<StreamToolCallDeltaView>,
    index: usize,
    part: spec_fn(StreamToolCallDeltaView) -> Text,
)
    requires
        forall|i: int| 0 <= i < pieces.len() ==> (#[trigger] pieces[i]).index != index,
    ensures
        said_of(pieces, index, part) == Seq::<char>::empty(),
    decreases pieces.len(),
{
    if pieces.len() > 0 {
        assert(pieces[pieces.len() - 1].index != index);
        let front = pieces.drop_last();
        assert forall|i: int| 0 <= i < front.len() implies (#[trigger] front[i]).index != index by {
            assert(front[i] == pieces[i]);
        }
        unheard_calls_are_empty(front, index, part);
    }
}

proof fn one_piece_is_added(
    calls: Seq<PartialToolCallView>,
    pieces: Seq<StreamToolCallDeltaView>,
    piece: StreamToolCallDeltaView,
)
    requires
        assembled(calls, pieces),
    ensures
        assembled(with_delta(calls, piece), pieces.push(piece)),
{
    let more = pieces.push(piece);
    let after = with_delta(calls, piece);
    let at = calls_before(calls, piece.index) as int;
    let known = at < calls.len() && calls[at].index == piece.index;
    let id = |p: StreamToolCallDeltaView| piece_id(p);
    let name = |p: StreamToolCallDeltaView| piece_name(p);
    let arguments = |p: StreamToolCallDeltaView| piece_arguments(p);
    calls_before_facts(calls, piece.index);
    deltas_keep_the_order(calls, piece);
    assert(more.drop_last() =~= pieces);
    if !known {
        assert forall|i: int| 0 <= i < pieces.len() implies (#[trigger] pieces[i]).index
            != piece.index by {
            if pieces[i].index == piece.index {
                assert(has_call(calls, piece.index));
                let k = choose|k: int| 0 <= k < calls.len() && (#[trigger] calls[k]).index
                    == piece.index;
                assert(calls[k].index == piece.index);
            }
        }
        unheard_calls_are_empty(pieces, piece.index, id);
        unheard_calls_are_empty(pieces, piece.index, name);
        unheard_calls_are_empty(pieces, piece.index, arguments);
    }
    assert(more[pieces.len() as int] == piece);
    assert forall|k: int| 0 <= k < after.len() implies {
        let call = #[trigger] after[k];
        &&& call.id == said_of(more, call.index, id)
        &&& call.name == said_of(more, call.index, name)
        &&& call.arguments == said_of(more, call.index, arguments)
        &&& exists|i: int| 0 <= i < more.len() && (#[trigger] more[i]).index == call.index
    } by {
        let call = after[k];
        if k == at {
            assert(call.index == piece.index);
            if known {
                assert(call == extended(calls[at], piece));
            }
            assert(more[pieces.len() as int].index == call.index);
        } else {
            let from = if known || k < at {
                k
            } else {
                k - 1
            };
            assert(call == calls[from]);
            if !known && from >= at {
                assert(calls[at].index > piece.index);
                assert(calls[from].index >= calls[at].index);
            }
            assert(call.index != piece.index);
            let i = choose|i: int| 0 <= i < pieces.len() && (#[trigger] pieces[i]).index
                == call.index;
            assert(more[i].index == call.index);
        }
    }
    assert forall|i: int| 0 <= i < more.len() implies has_call(after, (#[trigger] more[i]).index) by {
        if more[i].index == piece.index {
            assert(after[at].index == piece.index);
        } else {
            assert(pieces[i] == more[i]);
            assert(has_call(calls, pieces[i].index));
            let k = choose|k: int| 0 <= k < calls.len() && (#[trigger] calls[k]).index
                == more[i].index;
            if known || k < at {
                assert(after[k].index == more[i].index);
            } else {
                assert(after[k + 1].index == more[i].index);
            }
        }
    }
}

proof fn pieces_are_added(
    calls: Seq<PartialToolCallView>,
    before: Seq<StreamToolCallDeltaView>,
    pieces: Seq<StreamToolCallDeltaView>,
)
    requires
        assembled(calls, before),
    ensures
        assembled(with_deltas(calls, pieces), before + pieces),
    decreases pieces.len(),
{
    if pieces.len() == 0 {
        assert(before + pieces =~= before);
    } else {
        pieces_are_added(calls, before, pieces.drop_last());
        one_piece_is_added(
            with_deltas(calls, pieces.drop_last()),
            before + pieces.drop_last(),
            pieces.last(),
        );
        assert((before + pieces.drop_last()).push(pieces.last()) =~= before + pieces);
    }
}

/// The tool calls of a stream are made of its pieces, however these arrive: a
/// call for each index, in the order of the indices, with its id, its name and
/// its arguments as they were streamed, joined.
pub proof fn tool_calls_are_assembled(choices: Seq<StreamChoiceView>)
    ensures
        assembled(with_choices(seq![], choices), all_pieces(choices)),
    decreases choices.len(),
{
    if choices.len() > 0 {
        tool_calls_are_assembled(choices.drop_last());
        pieces_are_added(
            with_choices(seq![], choices.drop_last()),
            all_pieces(choices.drop_last()),
            choices.last().tool_calls,
        );
    }
}

/// A stream is closed by its tool calls, each once and in order, and then by its
/// completion. The first call without an id or a name is an error instead, and nothing
/// comes behind it.
pub proof fn closings_tell_every_call(calls: Seq<PartialToolCallView>, count: int)
    requires
        0 <= count <= calls.len(),
        forall|j: int|
            0 <= j < count ==> (#[trigger] calls[j]).id.len() > 0 && calls[j].name.len() > 0,
        count < calls.len() ==> calls[count].id.len() == 0 || calls[count].name.len() == 0,
    ensures
        closing(calls).len() == count + 1,
        forall|k: int|
            0 <= k < count ==> (#[trigger] closing(calls)[k]) == Ok::<ProviderEventView, Text>(
                ProviderEventView::ToolCall(
                    ToolCallView {
                        id: calls[k].id,
                        name: calls[k].name,
                        arguments: calls[k].arguments,
                    },
                ),
            ),
        count == calls.len() ==> closing(calls)[count] == Ok::<ProviderEventView, Text>(
            ProviderEventView::Completed,
        ),
        count < calls.len() ==> closing(calls)[count] is Err,
    decreases count,
{
    if count > 0 {
        let rest = calls.drop_first();
        let items = closing(calls);
        let tail = closing(rest);
        assert(calls[0].id.len() > 0 && calls[0].name.len() > 0);
        assert forall|j: int| 0 <= j < count - 1 implies (#[trigger] rest[j]).id.len() > 0
            && rest[j].name.len() > 0 by {
            assert(rest[j] == calls[j + 1]);
        }
        if count < calls.len() {
            assert(rest[count - 1] == calls[count]);
        }
        closings_tell_every_call(rest, count - 1);
        assert(items.skip(1) =~= tail);
        assert(items[count] == tail[count - 1]);
        assert forall|k: int| 0 <= k < count implies (#[trigger] items[k]) == Ok::<
            ProviderEventView,
            Text,
        >(
            ProviderEventView::ToolCall(
                ToolCallView {
                    id: calls[k].id,
                    name: calls[k].name,
                    arguments: calls[k].arguments,
                },
            ),
        ) by {
            if k > 0 {
                assert(items[k] == tail[k - 1]);
                assert(rest[k - 1] == calls[k]);
            }
        }
    }
}

/// Front ends are told of every provider and every model, in their order: a provider under its
/// own id and name, a model under its own id with the levels it declares, or with those that its
/// id implies where it declares none.
pub proof fn catalogs_tell_every_model(
    registry: Seq<(Text, RegisteredProvider)>,
    i: int,
    m: int,
)
    requires
        0 <= i < registry.len(),
        0 <= m < registry[i].1@.config.models.len(),
    ensures
        ({
            let told = catalog_of(registry);
            let config = registry[i].1@.config;
            &&& told.len() == registry.len()
            &&& told[i].id == registry[i].0
            &&& told[i].name == config.name
            &&& told[i].api_format == config.api_format
            &&& told[i].models.len() == config.models.len()
            &&& told[i].models[m].id == config.models[m].id()
            &&& config.models[m].efforts() is Some ==> told[i].models[m].reasoning_efforts
                == config.models[m].efforts()
            &&& config.models[m].efforts() is None ==> told[i].models[m].reasoning_efforts
                == inferred(config.models[m].id())
        }),
{
}

/// A model is accepted exactly if its provider is configured and lists it.
pub proof fn listed_models_are_accepted(
    registry: Seq<(Text, RegisteredProvider)>,
    at: int,
    model: ModelRefView,
)
    requires
        sorted(registry),
        0 <= at < registry.len(),
    ensures
        model.provider == registry[at].0 ==> (model_fault(registry, model) is None <==> exists|m: int|
            0 <= m < registry[at].1@.config.models.len()
                && #[trigger] registry[at].1@.config.models[m].id() == model.id),
        (forall|k: int| 0 <= k < registry.len() ==> (#[trigger] registry[k]).0 != model.provider)
            ==> model_fault(registry, model) is Some,
{
    entries_are_unique(registry, at);
}

/// A request for an accepted model goes to the address of its provider, in the style of its
/// provider, and with the key that is stored for its provider where no variable is named.
pub proof fn requests_go_to_their_provider(
    registry: ProviderRegistry,
    at: int,
    model: ModelRef,
    environment: Option<String>,
    r: Result<ProviderTarget, String>,
)
    requires
        sorted(registry.providers@),
        0 <= at < registry.providers@.len(),
        registry.providers@[at].0 == model@.provider,
        offers(registry.providers@[at].1@.config, model@.id),
        call_ensures(ProviderRegistry::target, (&registry, &model, environment), r),
    ensures
        ({
            let registered = registry.providers@[at].1@;
            &&& r matches Ok(target) ==> {
                &&& target@.endpoint == completions_endpoint(registered.config.base_url)
                &&& target@.auth == registered.config.auth
                &&& target@.api_key == registered.api_key || target@.api_key == opt_view(
                    environment,
                )
            }
            &&& registered.config.api_key_env is None ==> r is Ok && r->Ok_0@.api_key
                == registered.api_key
            &&& registered.config.api_key_env is Some && (environment is None || trim(
                environment->0@,
            ).len() == 0) ==> if registered.api_key is Some {
                r is Ok && r->Ok_0@.api_key == registered.api_key
            } else {
                r is Err
            }
            &&& registered.config.api_key_env is Some && environment is Some && trim(
                environment->0@,
            ).len() > 0 ==> r is Ok && r->Ok_0@.api_key == Some(environment->0@)
        }),
{
    entries_are_unique(registry.providers@, at);
}

/// The address of a provider may be written with or without a slash at its end.
pub proof fn provider_addresses_are_extended(base_url: Text)
    ensures
        completions_endpoint(base_url.push('/')) == completions_endpoint(base_url),
        models_endpoint(base_url.push('/')) == models_endpoint(base_url),
        base_url.len() == 0 || base_url.last() != '/' ==> completions_endpoint(base_url) == base_url
            + "/chat/completions"@ && models_endpoint(base_url) == base_url + "/models"@,
{
    assert(base_url.push('/').drop_last() =~= base_url);
}

/// Every model of a listing is taken in its order, however it is written, unless its id is blank.
pub proof fn listings_are_taken_whole(
    data: Seq<ModelListingEntry>,
    more: Seq<ModelListingEntry>,
    entry: ModelListingEntry,
)
    ensures
        listed_models(data + more) == listed_models(data) + listed_models(more),
        ({
            let id = match entry {
                ModelListingEntry::Identified { id, .. } => id@,
                ModelListingEntry::Named(id) => id@,
            };
            if trim(id).len() == 0 {
                listed_models(seq![entry]).len() == 0
            } else {
                listed_models(seq![entry]).len() == 1 && listed_models(seq![entry])[0].id == id
            }
        }),
    decreases more.len(),
{
    let one = seq![entry];
    assert(one.drop_last() =~= seq![]);
    assert(listed_models(seq![]) =~= seq![]);
    assert(listed_models(one) == if trim(listed_model(entry).id).len() == 0 {
        listed_models(seq![])
    } else {
        listed_models(seq![]).push(listed_model(entry))
    });
    if more.len() == 0 {
        assert(data + more =~= data);
        assert(listed_models(data) + listed_models(more) =~= listed_models(data));
    } else {
        listings_are_taken_whole(data, more.drop_last(), entry);
        assert((data + more).drop_last() =~= data + more.drop_last());
        assert(listed_models(data + more) =~= listed_models(data) + listed_models(more));
    }
}

/// A listing that enumerates levels is taken at its word: a level is reported exactly if it is
/// named, whatever its case.
pub proof fn enumerated_levels_are_reported(
    extra: Seq<(String, Json)>,
    items: Vec<Json>,
    effort: ReasoningEffort,
)
    requires
        json_get(extra, "reasoning_efforts"@) == Some(Json::List(items)),
        exists|i: int, level: ReasoningEffort|
            0 <= i < items@.len() && #[trigger] names_level(items@[i], level),
    ensures
        reported(extra) is Some,
        reported(extra)->0.contains(effort) <==> exists|i: int|
            0 <= i < items@.len() && ((#[trigger] items@[i]) matches Json::Text(text)
                && parse_effort(text@) == Some(effort)),
{
    let all = ReasoningEffort::ALL@;
    let keep = |level: ReasoningEffort| mentions(items@, level);
    broadcast use vstd::seq_lib::group_filter_ensures;

    every_level_is_known(effort);
    let (i, level) = choose|i: int, level: ReasoningEffort|
        0 <= i < items@.len() && #[trigger] names_level(items@[i], level);
    every_level_is_known(level);
    let k = choose|k: int| 0 <= k < all.len() && all[k] == level;
    assert(mentions(items@, level));
    assert(keep(all[k]));
    assert(all.filter(keep).contains(all[k]));
    assert(mentioned(items@) == all.filter(keep));
    let e = choose|e: int| 0 <= e < all.len() && all[e] == effort;
    if mentions(items@, effort) {
        assert(keep(all[e]));
        assert(all.filter(keep).contains(all[e]));
    }
    if all.filter(keep).contains(effort) {
        let at = choose|at: int| 0 <= at < all.filter(keep).len() && all.filter(keep)[at] == effort;
        assert(keep(all.filter(keep)[at]));
        let n = choose|n: int| 0 <= n < items@.len() && names_level(#[trigger] items@[n], effort);
        assert(names_level(items@[n], effort));
    }
    if exists|i: int|
        0 <= i < items@.len() && ((#[trigger] items@[i]) matches Json::Text(text) && parse_effort(
            text@,
        ) == Some(effort)) {
        let n = choose|n: int|
            0 <= n < items@.len() && ((#[trigger] items@[n]) matches Json::Text(text)
                && parse_effort(text@) == Some(effort));
        assert(names_level(items@[n], effort));
    }
}

proof fn every_level_is_known(effort: ReasoningEffort)
    ensures
        ReasoningEffort::ALL@.contains(effort),
{
    let all = ReasoningEffort::ALL@;
    assert(all[0] is Minimal && all[1] is Low && all[2] is Medium && all[3] is High && all[4]
        is XHigh && all[5] is Max);
}

/// Setup offers the models in the order of their ids without regard to case, each of them one of
/// the listing, and one for every id of the listing.
pub proof fn offered_models_are_sorted(models: Seq<ModelInfoView>, chosen: Seq<ModelInfoView>)
    requires
        alphabetical(models, chosen),
    ensures
        forall|i: int, j: int|
            0 <= i < j < chosen.len() ==> precedes(
                lowercase((#[trigger] chosen[i]).id),
                lowercase((#[trigger] chosen[j]).id),
            ),
        forall|i: int| 0 <= i < chosen.len() ==> models.contains(#[trigger] chosen[i]),
        forall|k: int|
            0 <= k < models.len() ==> exists|i: int|
                0 <= i < chosen.len() && lowercase((#[trigger] chosen[i]).id) == lowercase(
                    (#[trigger] models[k]).id,
                ),
{
    let keys = model_keys(models);
    let order = choose|order: Seq<usize>| #[trigger]
        orders(keys, order) && chosen == order.map_values(
            |position: usize| models[position as int],
        );
    assert forall|i: int, j: int| 0 <= i < j < chosen.len() implies precedes(
        lowercase((#[trigger] chosen[i]).id),
        lowercase((#[trigger] chosen[j]).id),
    ) by {
        assert(order[i] < keys.len() && order[j] < keys.len());
        assert(precedes(keys[order[i] as int], keys[order[j] as int]));
    }
    assert forall|i: int| 0 <= i < chosen.len() implies models.contains(#[trigger] chosen[i]) by {
        assert(order[i] < keys.len());
        assert(models[order[i] as int] == chosen[i]);
    }
    assert forall|k: int| 0 <= k < models.len() implies exists|i: int|
        0 <= i < chosen.len() && lowercase((#[trigger] chosen[i]).id) == lowercase(
            (#[trigger] models[k]).id,
        ) by {
        assert(key_is_listed(keys, order, keys[k]));
        let i = choose|i: int| 0 <= i < order.len() && keys[(#[trigger] order[i]) as int] == keys[k];
        assert(order[i] < keys.len());
        assert(lowercase(chosen[i].id) == lowercase(models[k].id));
    }
}

/// Taking in a chunk passes on all of its text and nothing else, in order.
pub proof fn chunks_are_passed_on(
    stream: &mut ProviderStream,
    chunk: StreamChunk,
    r: Vec<Result<ProviderEvent, String>>,
)
    requires
        call_ensures(ProviderStream::add_chunk, (stream, &chunk), r),
    ensures
        items_text(items_view(r@)) == choices_text(chunk@.choices),
        forall|i: int|
            0 <= i < r@.len() ==> ((#[trigger] items_view(r@)[i]) matches Ok(
                ProviderEventView::TextDelta(text),
            ) && text.len() > 0),
{
    streamed_text_is_kept(chunk@.choices);
}

/// What is written of two messages is the same only if they say the same.
pub proof fn written_messages_are_told_apart(
    a: ModelMessage,
    b: ModelMessage,
    first: String,
    second: String,
)
    requires
        call_ensures(message_json, (&a,), first),
        call_ensures(message_json, (&b,), second),
        first@ == second@,
    ensures
        say_the_same(a@, b@),
{
    messages_are_told_apart(a@, b@, seq![], seq![]);
}

/// What is wrong with an answer of the provider is told as it is.
pub proof fn provider_faults_are_told(
    status: &str,
    body: &str,
    failed: String,
    unlisted: String,
    invalid: String,
)
    requires
        call_ensures(provider_failure, (status, body), failed),
        call_ensures(listing_failure, (status, body), unlisted),
        call_ensures(invalid_listing, (body,), invalid),
    ensures
        failed@ == "provider returned "@ + status@ + ": "@ + body@,
        unlisted@ == "model listing returned "@ + status@ + ": "@ + body@,
        invalid@ == "invalid model listing response: "@ + body@,
{
}

} // verus!
