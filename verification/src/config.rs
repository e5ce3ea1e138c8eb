//! What is kept under the state directory: the provider registry, the
//! credentials, the client settings and the server token.

use crate::protocol::{ApiFormat, ReasoningEffort};
use crate::table::{entries_are_unique, has_key, sorted, value_of, Table};
use crate::text::{
    concat, concat3, debug_form, debug_text, hex, hex_text, index_of, index_of_bounds, is_blank,
    opt_view, same, split_once, split_once_text, starts_with, trim, trim_text, views, Text,
};
use vstd::prelude::*;

verus! {

/// How credentials are sent: as `Authorization: Bearer <key>`, or as
/// `x-api-key: <key>`.
#[derive(Clone, Copy, Debug, Eq, PartialEq, Structural)]
pub enum AuthStyle {
    Bearer,
    XApiKey,
}

impl Default for AuthStyle {
    fn default() -> (r: Self)
        ensures
            r == AuthStyle::Bearer,
    {
        AuthStyle::Bearer
    }
}

impl AuthStyle {
    pub open spec fn other(self) -> AuthStyle {
        match self {
            AuthStyle::Bearer => AuthStyle::XApiKey,
            AuthStyle::XApiKey => AuthStyle::Bearer,
        }
    }

    /// The style to try when this one is rejected.
    pub fn alternate(self) -> (r: AuthStyle)
        ensures
            r == self.other(),
            r != self,
            r.other() == self,
    {
        match self {
            AuthStyle::Bearer => AuthStyle::XApiKey,
            AuthStyle::XApiKey => AuthStyle::Bearer,
        }
    }
}

/// The header that carries an API key, by name and value.
pub open spec fn auth_header_spec(api_key: Option<Text>, auth: AuthStyle) -> Option<(Text, Text)> {
    match api_key {
        Some(key) => match auth {
            AuthStyle::Bearer => Some(("authorization"@, "Bearer "@ + key)),
            AuthStyle::XApiKey => Some(("x-api-key"@, key)),
        },
        None => None,
    }
}

/// The header that carries an API key, if there is one to send.
pub fn auth_header(api_key: &Option<String>, auth: AuthStyle) -> (r: Option<(String, String)>)
    ensures
        r is Some <==> api_key is Some,
        r matches Some((name, value)) ==> auth_header_spec(opt_view(*api_key), auth) == Some(
            (name@, value@),
        ),
{
    match api_key {
        Some(key) => match auth {
            AuthStyle::Bearer => Some(("authorization".to_owned(), concat("Bearer ", key))),
            AuthStyle::XApiKey => Some(("x-api-key".to_owned(), key.clone())),
        },
        None => None,
    }
}

/// The content of a [`ModelEntry`].
#[verifier::ext_equal]
pub enum ModelEntryView {
    Detailed { id: Text, reasoning_efforts: Option<Seq<ReasoningEffort>> },
    Plain(Text),
}

/// One selectable model of a provider. A plain entry carries no capability
/// details.
#[derive(Debug, Eq, PartialEq)]
pub enum ModelEntry {
    Detailed { id: String, reasoning_efforts: Option<Vec<ReasoningEffort>> },
    Plain(String),
}

impl View for ModelEntry {
    type V = ModelEntryView;

    open spec fn view(&self) -> ModelEntryView {
        match self {
            ModelEntry::Detailed { id, reasoning_efforts } => ModelEntryView::Detailed {
                id: id@,
                reasoning_efforts: match reasoning_efforts {
                Some(list) => Some(list@),
                None => None,
            },
            },
            ModelEntry::Plain(item) => ModelEntryView::Plain(item@),
        }
    }
}

impl Clone for ModelEntry {
    fn clone(&self) -> (r: Self)
        ensures
            r@ == self@,
    {
        let r = match self {
            ModelEntry::Detailed { id, reasoning_efforts } => ModelEntry::Detailed {
                id: id.clone(),
                reasoning_efforts: reasoning_efforts.clone(),
            },
            ModelEntry::Plain(item) => ModelEntry::Plain(item.clone()),
        };
        assert(r@ =~~= self@);
        r
    }
}

/// The content of a [`ProviderConfig`].
#[verifier::ext_equal]
pub struct ProviderConfigView {
    pub name: Text,
    pub base_url: Text,
    pub api_format: ApiFormat,
    pub models: Seq<ModelEntryView>,
    pub api_key_env: Option<Text>,
    pub auth: AuthStyle,
}

/// One provider of the registry.
#[derive(Debug, Eq, PartialEq)]
pub struct ProviderConfig {
    pub name: String,
    pub base_url: String,
    pub api_format: ApiFormat,
    pub models: Vec<ModelEntry>,
    pub api_key_env: Option<String>,
    pub auth: AuthStyle,
}

impl View for ProviderConfig {
    type V = ProviderConfigView;

    open spec fn view(&self) -> ProviderConfigView {
        ProviderConfigView {
            name: self.name@,
            base_url: self.base_url@,
            api_format: self.api_format,
            models: views(self.models@),
            api_key_env: opt_view(self.api_key_env),
            auth: self.auth,
        }
    }
}

impl Clone for ProviderConfig {
    fn clone(&self) -> (r: Self)
        ensures
            r@ == self@,
    {
        let r = ProviderConfig {
            name: self.name.clone(),
            base_url: self.base_url.clone(),
            api_format: self.api_format,
            models: self.models.clone(),
            api_key_env: self.api_key_env.clone(),
            auth: self.auth,
        };
        assert(r@ =~~= self@);
        r
    }
}

impl ModelEntryView {
    pub open spec fn id(self) -> Text {
        match self {
            ModelEntryView::Detailed { id, .. } => id,
            ModelEntryView::Plain(id) => id,
        }
    }

    /// The declared levels, if the entry declares any list.
    pub open spec fn efforts(self) -> Option<Seq<ReasoningEffort>> {
        match self {
            ModelEntryView::Detailed { reasoning_efforts, .. } => reasoning_efforts,
            ModelEntryView::Plain(_) => None,
        }
    }
}

impl ModelEntry {
    pub fn id(&self) -> (r: &str)
        ensures
            r@ == self@.id(),
    {
        match self {
            ModelEntry::Detailed { id, .. } => id.as_str(),
            ModelEntry::Plain(id) => id.as_str(),
        }
    }

    pub fn reasoning_efforts(&self) -> (r: Option<&[ReasoningEffort]>)
        ensures
            r is Some <==> self@.efforts() is Some,
            r matches Some(list) ==> self@.efforts() == Some(list@),
    {
        match self {
            ModelEntry::Detailed { reasoning_efforts, .. } => match reasoning_efforts {
                Some(list) => Some(list.as_slice()),
                None => None,
            },
            ModelEntry::Plain(_) => None,
        }
    }
}

/// The provider registry, by provider id.
#[derive(Debug)]
pub struct ProviderFile {
    pub providers: Table<ProviderConfig>,
}

impl Default for ProviderFile {
    fn default() -> (r: Self)
        ensures
            r.providers@.len() == 0,
    {
        ProviderFile { providers: Table::new() }
    }
}

/// Why a provider may not stand in the registry, if there is a reason.
pub open spec fn provider_fault(id: Text, provider: ProviderConfigView) -> Option<Text> {
    if trim(id).len() == 0 || trim(provider.name).len() == 0 {
        Some("provider ID and name must not be empty"@)
    } else if trim(provider.base_url).len() == 0 {
        Some("base_url must not be empty"@)
    } else if provider.models.len() == 0 || exists|i: int|
        0 <= i < provider.models.len() && trim(#[trigger] provider.models[i].id()).len() == 0 {
        Some("models must contain at least one non-empty model ID"@)
    } else {
        None
    }
}

/// The content of a [`ProviderConfigError`].
#[verifier::ext_equal]
pub enum ProviderConfigErrorView {
    Read(Text),
    Write(Text),
    Parse(Text),
    Serialize(Text),
    InvalidProvider { name: Text, reason: Text },
}

/// What can go wrong with the provider registry. The variants carry the text of the
/// underlying failure.
#[derive(Debug, Eq, PartialEq)]
pub enum ProviderConfigError {
    Read(String),
    Write(String),
    Parse(String),
    Serialize(String),
    InvalidProvider { name: String, reason: String },
}

impl View for ProviderConfigError {
    type V = ProviderConfigErrorView;

    open spec fn view(&self) -> ProviderConfigErrorView {
        match self {
            ProviderConfigError::Read(item) => ProviderConfigErrorView::Read(item@),
            ProviderConfigError::Write(item) => ProviderConfigErrorView::Write(item@),
            ProviderConfigError::Parse(item) => ProviderConfigErrorView::Parse(item@),
            ProviderConfigError::Serialize(item) => ProviderConfigErrorView::Serialize(item@),
            ProviderConfigError::InvalidProvider { name, reason } => ProviderConfigErrorView::InvalidProvider {
                name: name@,
                reason: reason@,
            },
        }
    }
}

impl Clone for ProviderConfigError {
    fn clone(&self) -> (r: Self)
        ensures
            r@ == self@,
    {
        let r = match self {
            ProviderConfigError::Read(item) => ProviderConfigError::Read(item.clone()),
            ProviderConfigError::Write(item) => ProviderConfigError::Write(item.clone()),
            ProviderConfigError::Parse(item) => ProviderConfigError::Parse(item.clone()),
            ProviderConfigError::Serialize(item) => ProviderConfigError::Serialize(item.clone()),
            ProviderConfigError::InvalidProvider { name, reason } => ProviderConfigError::InvalidProvider {
                name: name.clone(),
                reason: reason.clone(),
            },
        };
        assert(r@ =~~= self@);
        r
    }
}

impl ProviderConfigErrorView {
    /// The text shown for an error.
    pub open spec fn message_text(self) -> Text {
        match self {
            ProviderConfigErrorView::Read(error) => "could not read provider registry: "@ + error,
            ProviderConfigErrorView::Write(error) => "could not write provider registry: "@ + error,
            ProviderConfigErrorView::Parse(error) => "invalid provider registry: "@ + error,
            ProviderConfigErrorView::Serialize(error) => "could not serialize provider registry: "@ + error,
            ProviderConfigErrorView::InvalidProvider { name, reason } => "provider "@ + debug_form(name)
                + " is invalid: "@ + reason,
        }
    }
}

impl ProviderConfigError {
    pub fn message(&self) -> (r: String)
        ensures
            r@ == self@.message_text(),
    {
        match self {
            ProviderConfigError::Read(error) => concat("could not read provider registry: ", error),
            ProviderConfigError::Write(error) => concat("could not write provider registry: ", error),
            ProviderConfigError::Parse(error) => concat("invalid provider registry: ", error),
            ProviderConfigError::Serialize(error) => concat("could not serialize provider registry: ", error),
            ProviderConfigError::InvalidProvider { name, reason } => concat(
                &concat3("provider ", &debug_text(name), " is invalid: "),
                reason,
            ),
        }
    }
}

/// The content of a [`CredentialFileError`].
#[verifier::ext_equal]
pub enum CredentialFileErrorView {
    Read(Text),
    Write(Text),
    Parse(Text),
    Serialize(Text),
}

/// What can go wrong with the credentials. The variants carry the text of the
/// underlying failure.
#[derive(Debug, Eq, PartialEq)]
pub enum CredentialFileError {
    Read(String),
    Write(String),
    Parse(String),
    Serialize(String),
}

impl View for CredentialFileError {
    type V = CredentialFileErrorView;

    open spec fn view(&self) -> CredentialFileErrorView {
        match self {
            CredentialFileError::Read(item) => CredentialFileErrorView::Read(item@),
            CredentialFileError::Write(item) => CredentialFileErrorView::Write(item@),
            CredentialFileError::Parse(item) => CredentialFileErrorView::Parse(item@),
            CredentialFileError::Serialize(item) => CredentialFileErrorView::Serialize(item@),
        }
    }
}

impl Clone for CredentialFileError {
    fn clone(&self) -> (r: Self)
        ensures
            r@ == self@,
    {
        let r = match self {
            CredentialFileError::Read(item) => CredentialFileError::Read(item.clone()),
            CredentialFileError::Write(item) => CredentialFileError::Write(item.clone()),
            CredentialFileError::Parse(item) => CredentialFileError::Parse(item.clone()),
            CredentialFileError::Serialize(item) => CredentialFileError::Serialize(item.clone()),
        };
        assert(r@ =~~= self@);
        r
    }
}

impl CredentialFileErrorView {
    /// The text shown for an error.
    pub open spec fn message_text(self) -> Text {
        match self {
            CredentialFileErrorView::Read(error) => "could not read credentials: "@ + error,
            CredentialFileErrorView::Write(error) => "could not write credentials: "@ + error,
            CredentialFileErrorView::Parse(error) => "invalid credentials file: "@ + error,
            CredentialFileErrorView::Serialize(error) => "could not serialize credentials: "@ + error,
        }
    }
}

impl CredentialFileError {
    pub fn message(&self) -> (r: String)
        ensures
            r@ == self@.message_text(),
    {
        match self {
            CredentialFileError::Read(error) => concat("could not read credentials: ", error),
            CredentialFileError::Write(error) => concat("could not write credentials: ", error),
            CredentialFileError::Parse(error) => concat("invalid credentials file: ", error),
            CredentialFileError::Serialize(error) => concat("could not serialize credentials: ", error),
        }
    }
}

/// The content of a [`SettingsFileError`].
#[verifier::ext_equal]
pub enum SettingsFileErrorView {
    Read(Text),
    Write(Text),
    Parse(Text),
    Serialize(Text),
}

/// What can go wrong with the settings. The variants carry the text of the
/// underlying failure.
#[derive(Debug, Eq, PartialEq)]
pub enum SettingsFileError {
    Read(String),
    Write(String),
    Parse(String),
    Serialize(String),
}

impl View for SettingsFileError {
    type V = SettingsFileErrorView;

    open spec fn view(&self) -> SettingsFileErrorView {
        match self {
            SettingsFileError::Read(item) => SettingsFileErrorView::Read(item@),
            SettingsFileError::Write(item) => SettingsFileErrorView::Write(item@),
            SettingsFileError::Parse(item) => SettingsFileErrorView::Parse(item@),
            SettingsFileError::Serialize(item) => SettingsFileErrorView::Serialize(item@),
        }
    }
}

impl Clone for SettingsFileError {
    fn clone(&self) -> (r: Self)
        ensures
            r@ == self@,
    {
        let r = match self {
            SettingsFileError::Read(item) => SettingsFileError::Read(item.clone()),
            SettingsFileError::Write(item) => SettingsFileError::Write(item.clone()),
            SettingsFileError::Parse(item) => SettingsFileError::Parse(item.clone()),
            SettingsFileError::Serialize(item) => SettingsFileError::Serialize(item.clone()),
        };
        assert(r@ =~~= self@);
        r
    }
}

impl SettingsFileErrorView {
    /// The text shown for an error.
    pub open spec fn message_text(self) -> Text {
        match self {
            SettingsFileErrorView::Read(error) => "could not read settings: "@ + error,
            SettingsFileErrorView::Write(error) => "could not write settings: "@ + error,
            SettingsFileErrorView::Parse(error) => "invalid settings file: "@ + error,
            SettingsFileErrorView::Serialize(error) => "could not serialize settings: "@ + error,
        }
    }
}

impl SettingsFileError {
    pub fn message(&self) -> (r: String)
        ensures
            r@ == self@.message_text(),
    {
        match self {
            SettingsFileError::Read(error) => concat("could not read settings: ", error),
            SettingsFileError::Write(error) => concat("could not write settings: ", error),
            SettingsFileError::Parse(error) => concat("invalid settings file: ", error),
            SettingsFileError::Serialize(error) => concat("could not serialize settings: ", error),
        }
    }
}

/// The error for a faulty provider.
pub open spec fn invalid_provider(id: Text, reason: Text) -> ProviderConfigErrorView {
    ProviderConfigErrorView::InvalidProvider { name: id, reason }
}

fn invalid(id: &str, reason: &str) -> (r: ProviderConfigError)
    ensures
        r@ == invalid_provider(id@, reason@),
{
    ProviderConfigError::InvalidProvider { name: id.to_owned(), reason: reason.to_owned() }
}

fn has_blank_model(models: &Vec<ModelEntry>) -> (r: bool)
    ensures
        r == exists|i: int|
            0 <= i < models@.len() && trim(#[trigger] views(models@)[i].id()).len() == 0,
{
    let mut i: usize = 0;
    while i < models.len()
        invariant
            i <= models@.len(),
            forall|k: int| 0 <= k < i ==> trim(#[trigger] views(models@)[k].id()).len() != 0,
        decreases models@.len() - i,
    {
        if is_blank(models[i].id()) {
            assert(trim(views(models@)[i as int].id()).len() == 0);
            return true;
        }
        i += 1;
    }
    false
}

/// Accepts the providers that may stand in the registry.
pub fn validate_provider(name: &str, provider: &ProviderConfig) -> (r: Result<
    (),
    ProviderConfigError,
>)
    ensures
        r is Ok <==> provider_fault(name@, provider@) is None,
        r matches Err(error) ==> error@ == invalid_provider(
            name@,
            provider_fault(name@, provider@)->0,
        ),
{
    if is_blank(name) || is_blank(&provider.name) {
        return Err(invalid(name, "provider ID and name must not be empty"));
    }
    if is_blank(&provider.base_url) {
        return Err(invalid(name, "base_url must not be empty"));
    }
    if provider.models.len() == 0 || has_blank_model(&provider.models) {
        return Err(invalid(name, "models must contain at least one non-empty model ID"));
    }
    Ok(())
}

/// Whether the entry number `i` of a registry is valid.
pub open spec fn entry_is_valid(providers: Seq<(Text, ProviderConfig)>, i: int) -> bool {
    provider_fault(providers[i].0, providers[i].1@) is None
}

/// Whether the providers of a registry are all valid.
pub open spec fn all_valid(providers: Seq<(Text, ProviderConfig)>) -> bool {
    forall|i: int| 0 <= i < providers.len() ==> #[trigger] entry_is_valid(providers, i)
}

/// The report on the first invalid provider of a registry.
pub open spec fn reports_first_fault(
    providers: Seq<(Text, ProviderConfig)>,
    error: ProviderConfigErrorView,
) -> bool {
    exists|k: int|
        0 <= k < providers.len() && !(#[trigger] entry_is_valid(providers, k)) && error
            == invalid_provider(
            providers[k].0,
            provider_fault(providers[k].0, providers[k].1@)->0,
        ) && forall|i: int| 0 <= i < k ==> #[trigger] entry_is_valid(providers, i)
}

impl ProviderFile {
    /// Accepts a registry whose providers are all valid; otherwise reports the
    /// first that is not, in the order of the ids.
    pub fn validated_providers(&self) -> (r: Result<(), ProviderConfigError>)
        ensures
            r is Ok <==> all_valid(self.providers@),
            r matches Err(error) ==> reports_first_fault(self.providers@, error@),
    {
        let mut i: usize = 0;
        while i < self.providers.len()
            invariant
                i <= self.providers@.len(),
                forall|k: int| 0 <= k < i ==> #[trigger] entry_is_valid(self.providers@, k),
            decreases self.providers@.len() - i,
        {
            let outcome = validate_provider(self.providers.key(i), self.providers.value(i));
            assert(outcome is Ok <==> entry_is_valid(self.providers@, i as int));
            if let Err(error) = outcome {
                return Err(error);
            }
            i += 1;
        }
        Ok(())
    }
}

/// The content of a [`ProviderCredential`].
#[verifier::ext_equal]
pub struct ProviderCredentialView {
    pub api_key: Text,
}

#[derive(Debug, Eq, PartialEq)]
pub struct ProviderCredential {
    pub api_key: String,
}

impl View for ProviderCredential {
    type V = ProviderCredentialView;

    open spec fn view(&self) -> ProviderCredentialView {
        ProviderCredentialView { api_key: self.api_key@ }
    }
}

impl Clone for ProviderCredential {
    fn clone(&self) -> (r: Self)
        ensures
            r@ == self@,
    {
        ProviderCredential { api_key: self.api_key.clone() }
    }
}

/// The API keys, by provider id.
#[derive(Debug)]
pub struct CredentialFile {
    pub providers: Table<ProviderCredential>,
}

impl Default for CredentialFile {
    fn default() -> (r: Self)
        ensures
            r.providers@.len() == 0,
    {
        CredentialFile { providers: Table::new() }
    }
}

/// The key stored for a provider. A blank key counts as none.
pub open spec fn stored_key(credentials: Seq<(Text, ProviderCredential)>, provider: Text) -> Option<
    Text,
> {
    if has_key(credentials, provider) {
        let key = value_of(credentials, provider).api_key@;
        if trim(key).len() == 0 {
            None
        } else {
            Some(key)
        }
    } else {
        None
    }
}

impl CredentialFile {
    /// The key stored for a provider. A blank key counts as none.
    pub fn api_key(&self, provider: &str) -> (r: Option<&str>)
        ensures
            r is Some <==> stored_key(self.providers@, provider@) is Some,
            r matches Some(key) ==> stored_key(self.providers@, provider@) == Some(key@),
    {
        match self.providers.get(provider) {
            Some(credential) => {
                if is_blank(&credential.api_key) {
                    None
                } else {
                    Some(credential.api_key.as_str())
                }
            },
            None => None,
        }
    }
}

/// The content of a [`DefaultModel`].
#[verifier::ext_equal]
pub struct DefaultModelView {
    pub provider: Text,
    pub model: Text,
}

/// A `provider/model` pair written as a single slash-separated string. Provider
/// IDs never contain slashes, so splitting on the first one is unambiguous even
/// when the model ID itself does.
#[derive(Debug, Eq, PartialEq)]
pub struct DefaultModel {
    pub provider: String,
    pub model: String,
}

impl View for DefaultModel {
    type V = DefaultModelView;

    open spec fn view(&self) -> DefaultModelView {
        DefaultModelView { provider: self.provider@, model: self.model@ }
    }
}

impl Clone for DefaultModel {
    fn clone(&self) -> (r: Self)
        ensures
            r@ == self@,
    {
        DefaultModel { provider: self.provider.clone(), model: self.model.clone() }
    }
}

impl DefaultModelView {
    /// The pair as it is written.
    pub open spec fn written(self) -> Text {
        self.provider + "/"@ + self.model
    }
}

/// The pair that a text stands for, if it holds a slash.
pub open spec fn read_default_model(value: Text) -> Option<DefaultModelView> {
    match split_once(value, '/') {
        Some((provider, model)) => Some(
            DefaultModelView { provider: trim(provider), model: trim(model) },
        ),
        None => None,
    }
}

impl DefaultModel {
    /// Writes the pair as `provider/model`.
    pub fn display(&self) -> (r: String)
        ensures
            r@ == self@.written(),
    {
        concat3(&self.provider, "/", &self.model)
    }

    /// Reads `provider/model`, ignoring white space around either part.
    pub fn parse(value: &str) -> (r: Result<DefaultModel, String>)
        ensures
            r is Ok <==> read_default_model(value@) is Some,
            r matches Ok(pair) ==> read_default_model(value@) == Some(pair@),
            r matches Err(error) ==> error@
                == "expected \"provider-id/model-id\", for example \"xai/grok-code-fast-1\""@,
    {
        match split_once_text(value, '/') {
            Some((provider, model)) => Ok(
                DefaultModel { provider: trim_text(&provider), model: trim_text(&model) },
            ),
            None => Err(
                "expected \"provider-id/model-id\", for example \"xai/grok-code-fast-1\"".to_owned(),
            ),
        }
    }
}

/// Reading what was written gives the pair back, as long as the provider holds
/// no slash and neither part has white space at its ends.
pub proof fn default_model_roundtrip(pair: DefaultModelView)
    requires
        !pair.provider.contains('/'),
        trim(pair.provider) == pair.provider,
        trim(pair.model) == pair.model,
    ensures
        read_default_model(pair.written()) == Some(pair),
{
    reveal_strlit("/");
    let text = pair.written();
    let at = index_of(text, '/');
    index_of_bounds(text, '/');
    let size = pair.provider.len() as int;
    assert(text[size] == '/');
    if at < size {
        assert(pair.provider[at] == '/');
    }
    assert(at == size);
    assert(text.take(at) =~= pair.provider);
    assert(text.skip(at + 1) =~= pair.model);
}

/// The content of a [`ModelsSettings`].
#[verifier::ext_equal]
pub struct ModelsSettingsView {
    pub default: Option<DefaultModelView>,
    pub default_reasoning_effort: Option<ReasoningEffort>,
}

/// The model and the effort to select on startup.
#[derive(Debug, Eq, PartialEq)]
pub struct ModelsSettings {
    pub default: Option<DefaultModel>,
    pub default_reasoning_effort: Option<ReasoningEffort>,
}

impl View for ModelsSettings {
    type V = ModelsSettingsView;

    open spec fn view(&self) -> ModelsSettingsView {
        ModelsSettingsView {
            default: opt_view(self.default),
            default_reasoning_effort: self.default_reasoning_effort,
        }
    }
}

impl Clone for ModelsSettings {
    fn clone(&self) -> (r: Self)
        ensures
            r@ == self@,
    {
        ModelsSettings {
            default: self.default.clone(),
            default_reasoning_effort: self.default_reasoning_effort,
        }
    }
}

impl Default for ModelsSettings {
    fn default() -> (r: Self)
        ensures
            r@ == (ModelsSettingsView { default: None, default_reasoning_effort: None }),
    {
        ModelsSettings { default: None, default_reasoning_effort: None }
    }
}

/// The content of a [`DesktopSettings`].
#[verifier::ext_equal]
pub struct DesktopSettingsView {
    pub active_workspace: Option<Text>,
    pub default_preset: Option<Text>,
    pub recent_workspaces: Seq<Text>,
}

/// Desktop client state persisted across launches: the active workspace, its
/// default agent preset, and recently used workspaces, the latest first.
#[derive(Debug, Eq, PartialEq)]
pub struct DesktopSettings {
    pub active_workspace: Option<String>,
    pub default_preset: Option<String>,
    pub recent_workspaces: Vec<String>,
}

impl View for DesktopSettings {
    type V = DesktopSettingsView;

    open spec fn view(&self) -> DesktopSettingsView {
        DesktopSettingsView {
            active_workspace: opt_view(self.active_workspace),
            default_preset: opt_view(self.default_preset),
            recent_workspaces: views(self.recent_workspaces@),
        }
    }
}

impl Clone for DesktopSettings {
    fn clone(&self) -> (r: Self)
        ensures
            r@ == self@,
    {
        let recent = self.recent_workspaces.clone();
        assert(views(recent@) =~= views(self.recent_workspaces@));
        DesktopSettings {
            active_workspace: self.active_workspace.clone(),
            default_preset: self.default_preset.clone(),
            recent_workspaces: recent,
        }
    }
}

impl Default for DesktopSettings {
    fn default() -> (r: Self)
        ensures
            r@ == (DesktopSettingsView {
                active_workspace: None,
                default_preset: None,
                recent_workspaces: Seq::empty(),
            }),
    {
        let r = DesktopSettings {
            active_workspace: None,
            default_preset: None,
            recent_workspaces: Vec::new(),
        };
        assert(r@.recent_workspaces =~= Seq::<Text>::empty());
        r
    }
}

/// The items of `list` that differ from `item`, in order.
pub open spec fn without(list: Seq<Text>, item: Text) -> Seq<Text>
    decreases list.len(),
{
    if list.len() == 0 {
        seq![]
    } else if list.last() == item {
        without(list.drop_last(), item)
    } else {
        without(list.drop_last(), item).push(list.last())
    }
}

/// The first `limit` items of a list, or all of them.
pub open spec fn first_of<T>(list: Seq<T>, limit: nat) -> Seq<T> {
    if list.len() <= limit {
        list
    } else {
        list.take(limit as int)
    }
}

/// The recent list after `workspace` was used.
pub open spec fn remembered(recent: Seq<Text>, workspace: Text) -> Seq<Text> {
    first_of(
        seq![workspace] + without(recent, workspace),
        DesktopSettings::MAX_RECENT_WORKSPACES as nat,
    )
}

impl DesktopSettings {
    pub const MAX_RECENT_WORKSPACES: usize = 12;

    /// Moves `workspace` to the front of the recent list, deduplicating and
    /// capping it at [`DesktopSettings::MAX_RECENT_WORKSPACES`].
    pub fn remember_workspace(&mut self, workspace: String)
        ensures
            final(self)@ == (DesktopSettingsView {
                recent_workspaces: remembered(old(self)@.recent_workspaces, workspace@),
                ..old(self)@
            }),
    {
        let ghost all = views(self.recent_workspaces@);
        let mut kept: Vec<String> = Vec::new();
        let mut i: usize = 0;
        assert(all.take(0) =~= seq![]);
        assert(views(kept@) =~= without(all.take(0), workspace@));
        while i < self.recent_workspaces.len()
            invariant
                i <= self.recent_workspaces@.len(),
                all == views(self.recent_workspaces@),
                views(kept@) == without(all.take(i as int), workspace@),
                *self == *old(self),
            decreases self.recent_workspaces@.len() - i,
        {
            let ghost before = kept@;
            assert(all.take(i as int + 1).drop_last() =~= all.take(i as int));
            assert(all.take(i as int + 1).last() == self.recent_workspaces@[i as int]@);
            if !same(&self.recent_workspaces[i], &workspace) {
                kept.push(self.recent_workspaces[i].clone());
                assert(views(kept@) =~= views(before).push(self.recent_workspaces@[i as int]@));
            }
            i += 1;
        }
        assert(all.take(all.len() as int) =~= all);
        let ghost rest = views(kept@);
        let ghost item = workspace@;
        kept.insert(0, workspace);
        assert(views(kept@) =~= seq![item] + rest);
        kept.truncate(DesktopSettings::MAX_RECENT_WORKSPACES);
        assert(views(kept@) =~= remembered(all, item));
        self.recent_workspaces = kept;
    }
}

/// A recent list has no duplicates and at most
/// [`DesktopSettings::MAX_RECENT_WORKSPACES`] entries.
pub open spec fn is_recent_list(recent: Seq<Text>) -> bool {
    recent.no_duplicates() && recent.len() <= DesktopSettings::MAX_RECENT_WORKSPACES
}

proof fn without_facts(list: Seq<Text>, item: Text)
    ensures
        !without(list, item).contains(item),
        without(list, item).len() <= list.len(),
        forall|x: Text| #[trigger]
            without(list, item).contains(x) <==> list.contains(x) && x != item,
        list.no_duplicates() ==> without(list, item).no_duplicates(),
        !list.contains(item) ==> without(list, item) == list,
    decreases list.len(),
{
    if list.len() > 0 {
        let front = list.drop_last();
        without_facts(front, item);
        let rest = without(front, item);
        assert(list =~= front.push(list.last()));
        assert forall|x: Text| #[trigger] without(list, item).contains(x) <==> list.contains(x) && x
            != item by {
            if list.contains(x) && x != item {
                let k = choose|k: int| 0 <= k < list.len() && list[k] == x;
                if k < front.len() {
                    assert(front[k] == x);
                    assert(rest.contains(x));
                    let m = choose|m: int| 0 <= m < rest.len() && rest[m] == x;
                    assert(without(list, item)[m] == x);
                } else {
                    assert(without(list, item).last() == x);
                }
            }
            if without(list, item).contains(x) {
                let m = choose|m: int|
                    0 <= m < without(list, item).len() && without(list, item)[m] == x;
                if m < rest.len() {
                    assert(rest[m] == x);
                    assert(rest.contains(x));
                    let k = choose|k: int| 0 <= k < front.len() && front[k] == x;
                    assert(list[k] == x);
                } else {
                    assert(list.last() == x);
                    assert(list[list.len() - 1] == x);
                }
            }
        }
        if list.no_duplicates() {
            assert(front.no_duplicates());
            assert(!front.contains(list.last())) by {
                if front.contains(list.last()) {
                    let k = choose|k: int| 0 <= k < front.len() && front[k] == list.last();
                    assert(list[k] == list[list.len() - 1]);
                }
            }
            assert(!rest.contains(list.last()));
        }
        if !list.contains(item) {
            assert(!front.contains(item)) by {
                if front.contains(item) {
                    let k = choose|k: int| 0 <= k < front.len() && front[k] == item;
                    assert(list[k] == item);
                }
            }
            assert(list[list.len() - 1] != item);
        }
    }
}

/// Remembering a workspace puts it first, keeps the list free of duplicates
/// and within its cap, and loses no other entry unless the list was full.
/// Remembering it again changes nothing.
pub proof fn remembering_keeps_the_list_recent(recent: Seq<Text>, workspace: Text)
    requires
        is_recent_list(recent),
    ensures
        is_recent_list(remembered(recent, workspace)),
        remembered(recent, workspace)[0] == workspace,
        forall|other: Text| #[trigger]
            remembered(recent, workspace).contains(other) ==> other == workspace
                || recent.contains(other),
        recent.len() < DesktopSettings::MAX_RECENT_WORKSPACES || recent.contains(workspace) ==> (
        forall|other: Text|
            recent.contains(other) ==> #[trigger] remembered(recent, workspace).contains(other)),
        remembered(remembered(recent, workspace), workspace) == remembered(recent, workspace),
{
    without_facts(recent, workspace);
    let rest = without(recent, workspace);
    let full = seq![workspace] + rest;
    let list = remembered(recent, workspace);
    assert forall|i: int, j: int| 0 <= i < full.len() && 0 <= j < full.len() && i != j implies full[i]
        != full[j] by {
        if i == 0 {
            assert(rest.contains(full[j])) by {
                assert(rest[j - 1] == full[j]);
            }
        } else if j == 0 {
            assert(rest.contains(full[i])) by {
                assert(rest[i - 1] == full[i]);
            }
        } else {
            assert(full[i] == rest[i - 1] && full[j] == rest[j - 1]);
        }
    }
    assert forall|other: Text| #[trigger] list.contains(other) implies other == workspace
        || recent.contains(other) by {
        let k = choose|k: int| 0 <= k < list.len() && list[k] == other;
        if k > 0 {
            assert(rest[k - 1] == other);
            assert(rest.contains(other));
        }
    }
    if recent.contains(workspace) {
        let k = choose|k: int| 0 <= k < recent.len() && recent[k] == workspace;
        shorter_without(recent, workspace, k);
    }
    if recent.len() < DesktopSettings::MAX_RECENT_WORKSPACES || recent.contains(workspace) {
        assert(list == full);
        assert forall|other: Text| recent.contains(other) implies #[trigger] list.contains(
            other,
        ) by {
            if other == workspace {
                assert(list[0] == workspace);
            } else {
                assert(rest.contains(other));
                let k = choose|k: int| 0 <= k < rest.len() && rest[k] == other;
                assert(list[k + 1] == other);
            }
        }
    }
    let tail = list.drop_first();
    assert(list =~= seq![workspace] + tail);
    assert(!tail.contains(workspace)) by {
        if tail.contains(workspace) {
            let k = choose|k: int| 0 <= k < tail.len() && tail[k] == workspace;
            assert(list[k + 1] == list[0]);
        }
    }
    without_front(tail, workspace);
    without_facts(tail, workspace);
    assert(without(list, workspace) == tail);
}

/// The recent workspaces after a row of uses, the first of them first.
pub open spec fn remembered_all(uses: Seq<Text>) -> Seq<Text>
    decreases uses.len(),
{
    if uses.len() == 0 {
        seq![]
    } else {
        remembered(remembered_all(uses.drop_last()), uses.last())
    }
}

/// When a workspace was used last: its last position, or -1.
pub open spec fn last_use(uses: Seq<Text>, workspace: Text) -> int
    decreases uses.len(),
{
    if uses.len() == 0 {
        -1
    } else if uses.last() == workspace {
        uses.len() - 1
    } else {
        last_use(uses.drop_last(), workspace)
    }
}

/// Whether a list goes from the latest use to earlier ones.
pub open spec fn latest_first(list: Seq<Text>, uses: Seq<Text>) -> bool {
    forall|i: int, j: int|
        0 <= i < j < list.len() ==> last_use(uses, #[trigger] list[i]) > last_use(
            uses,
            #[trigger] list[j],
        )
}

proof fn last_use_facts(uses: Seq<Text>, workspace: Text)
    ensures
        -1 <= last_use(uses, workspace) < uses.len(),
        last_use(uses, workspace) >= 0 <==> uses.contains(workspace),
        last_use(uses, workspace) >= 0 ==> uses[last_use(uses, workspace)] == workspace,
        forall|i: int|
            last_use(uses, workspace) < i < uses.len() ==> #[trigger] uses[i] != workspace,
    decreases uses.len(),
{
    if uses.len() > 0 {
        let front = uses.drop_last();
        last_use_facts(front, workspace);
        if uses.last() == workspace {
            assert(uses[uses.len() - 1] == workspace);
        } else if uses.contains(workspace) {
            let k = choose|k: int| 0 <= k < uses.len() && uses[k] == workspace;
            assert(front[k] == workspace);
        }
        assert forall|i: int| last_use(uses, workspace) < i < uses.len() implies #[trigger] uses[i]
            != workspace by {
            if i < front.len() {
                assert(front[i] == uses[i]);
            }
        }
    }
}

proof fn without_keeps_the_order(list: Seq<Text>, item: Text, uses: Seq<Text>)
    requires
        latest_first(list, uses),
    ensures
        latest_first(without(list, item), uses),
    decreases list.len(),
{
    if list.len() > 0 {
        let front = list.drop_last();
        without_keeps_the_order(front, item, uses);
        without_facts(front, item);
        let rest = without(front, item);
        let all = without(list, item);
        assert forall|i: int, j: int| 0 <= i < j < all.len() implies last_use(
            uses,
            #[trigger] all[i],
        ) > last_use(uses, #[trigger] all[j]) by {
            assert(all[i] == rest[i]);
            if j < rest.len() {
                assert(all[j] == rest[j]);
            } else {
                assert(rest.contains(rest[i]));
                let k = choose|k: int| 0 <= k < front.len() && front[k] == rest[i];
                assert(list[k] == rest[i]);
                assert(list[list.len() - 1] == all[j]);
            }
        }
    }
}

proof fn without_drops_one(list: Seq<Text>, item: Text)
    requires
        list.no_duplicates(),
    ensures
        without(list, item).len() == if list.contains(item) {
            list.len() - 1
        } else {
            list.len() as int
        },
    decreases list.len(),
{
    without_facts(list, item);
    if list.contains(item) {
        let front = list.drop_last();
        without_drops_one(front, item);
        without_facts(front, item);
        let k = choose|k: int| 0 <= k < list.len() && list[k] == item;
        if k < front.len() {
            assert(front[k] == item);
            assert(list[list.len() - 1] != item);
        } else if front.contains(item) {
            let m = choose|m: int| 0 <= m < front.len() && front[m] == item;
            assert(list[m] == list[k]);
        }
    }
}

/// The recent workspaces after any row of uses: none occurs twice, there are at
/// most [`DesktopSettings::MAX_RECENT_WORKSPACES`], and of two of them the one
/// used last stands first. Only workspaces that were used are there, and one
/// that is missing was used before all that are there, which are as many as the
/// list holds. Using the same workspace again at once changes nothing.
pub proof fn recent_workspaces_go_by_use(uses: Seq<Text>)
    ensures
        is_recent_list(remembered_all(uses)),
        latest_first(remembered_all(uses), uses),
        forall|x: Text| #[trigger] remembered_all(uses).contains(x) ==> uses.contains(x),
        forall|x: Text|
            uses.contains(x) && !#[trigger] remembered_all(uses).contains(x) ==> {
                &&& remembered_all(uses).len() == DesktopSettings::MAX_RECENT_WORKSPACES
                &&& forall|i: int|
                    0 <= i < remembered_all(uses).len() ==> last_use(
                        uses,
                        #[trigger] remembered_all(uses)[i],
                    ) > last_use(uses, x)
            },
        uses.len() > 0 ==> remembered_all(uses.push(uses.last())) == remembered_all(uses),
    decreases uses.len(),
{
    if uses.len() > 0 {
        let front = uses.drop_last();
        let workspace = uses.last();
        let before = remembered_all(front);
        let list = remembered_all(uses);
        recent_workspaces_go_by_use(front);
        remembering_keeps_the_list_recent(before, workspace);
        assert(uses.push(workspace).drop_last() =~= uses);
        let rest = without(before, workspace);
        let full = seq![workspace] + rest;
        without_facts(before, workspace);
        without_drops_one(before, workspace);
        without_keeps_the_order(before, workspace, front);
        assert(uses =~= front.push(workspace));
        assert forall|i: int, j: int| 0 <= i < j < full.len() implies last_use(
            uses,
            #[trigger] full[i],
        ) > last_use(uses, #[trigger] full[j]) by {
            assert(full[j] == rest[j - 1]);
            assert(rest.contains(rest[j - 1]));
            last_use_facts(front, full[j]);
            if i > 0 {
                assert(full[i] == rest[i - 1]);
                assert(rest.contains(rest[i - 1]));
            }
        }
        assert(latest_first(full, uses));
        assert forall|x: Text| #[trigger] list.contains(x) implies uses.contains(x) by {
            if x == workspace {
                assert(uses[uses.len() - 1] == x);
            } else {
                assert(before.contains(x));
                let k = choose|k: int| 0 <= k < front.len() && front[k] == x;
                assert(uses[k] == x);
            }
        }
        assert forall|x: Text| uses.contains(x) && !#[trigger] list.contains(x) implies {
            &&& list.len() == DesktopSettings::MAX_RECENT_WORKSPACES
            &&& forall|i: int|
                0 <= i < list.len() ==> last_use(uses, #[trigger] list[i]) > last_use(uses, x)
        } by {
            assert(list[0] == workspace);
            assert(x != workspace);
            let k = choose|k: int| 0 <= k < uses.len() && uses[k] == x;
            assert(front[k] == x);
            assert(front.contains(x));
            if before.contains(x) {
                assert(rest.contains(x));
                let m = choose|m: int| 0 <= m < rest.len() && rest[m] == x;
                assert(full[m + 1] == x);
                if m + 1 < list.len() {
                    assert(list[m + 1] == x);
                }
            } else {
                assert forall|i: int| 0 <= i < list.len() implies last_use(uses, #[trigger] list[i])
                    > last_use(uses, x) by {
                    last_use_facts(front, x);
                    if i > 0 {
                        assert(list[i] == rest[i - 1]);
                        assert(rest.contains(rest[i - 1]));
                        let p = choose|p: int| 0 <= p < before.len() && before[p] == list[i];
                        assert(last_use(front, before[p]) > last_use(front, x));
                    }
                }
            }
        }
    }
}

proof fn shorter_without(list: Seq<Text>, item: Text, k: int)
    requires
        0 <= k < list.len(),
        list[k] == item,
    ensures
        without(list, item).len() < list.len(),
    decreases list.len(),
{
    without_facts(list.drop_last(), item);
    if k < list.len() - 1 {
        shorter_without(list.drop_last(), item, k);
    }
}

proof fn without_front(tail: Seq<Text>, item: Text)
    ensures
        without(seq![item] + tail, item) == without(tail, item),
    decreases tail.len(),
{
    let list = seq![item] + tail;
    if tail.len() == 0 {
        assert(list.drop_last() =~= seq![]);
        reveal_with_fuel(without, 2);
    } else {
        assert(list.drop_last() =~= seq![item] + tail.drop_last());
        without_front(tail.drop_last(), item);
    }
}

/// The content of a [`SettingsFile`].
#[verifier::ext_equal]
pub struct SettingsFileView {
    pub models: ModelsSettingsView,
    pub desktop: DesktopSettingsView,
}

/// Client defaults, separate from the provider registry.
#[derive(Debug, Eq, PartialEq)]
pub struct SettingsFile {
    pub models: ModelsSettings,
    pub desktop: DesktopSettings,
}

impl View for SettingsFile {
    type V = SettingsFileView;

    open spec fn view(&self) -> SettingsFileView {
        SettingsFileView { models: self.models@, desktop: self.desktop@ }
    }
}

impl Clone for SettingsFile {
    fn clone(&self) -> (r: Self)
        ensures
            r@ == self@,
    {
        SettingsFile { models: self.models.clone(), desktop: self.desktop.clone() }
    }
}

impl Default for SettingsFile {
    fn default() -> (r: Self)
        ensures
            r@.models.default is None,
            r@.models.default_reasoning_effort is None,
            r@.desktop.active_workspace is None,
            r@.desktop.default_preset is None,
            r@.desktop.recent_workspaces.len() == 0,
    {
        SettingsFile { models: ModelsSettings::default(), desktop: DesktopSettings::default() }
    }
}

/// How many random bytes a server token is made of.
pub const SERVER_TOKEN_BYTES: usize = 32;

/// Random bytes from the operating system (`getrandom::fill`): as many as were
/// asked for, or the text of the error. Nothing is promised of their values.
#[verifier::external_body]
pub(crate) fn random_bytes(count: usize) -> (r: Result<Vec<u8>, String>)
    ensures
        r matches Ok(bytes) ==> bytes@.len() == count,
{
    let mut bytes = vec![0u8; count];
    match getrandom::fill(&mut bytes) {
        Ok(()) => Ok(bytes),
        Err(error) => Err(error.to_string()),
    }
}

/// Whether a text is a server token: the hexadecimal form of
/// [`SERVER_TOKEN_BYTES`] bytes.
pub open spec fn is_server_token(token: Text) -> bool {
    exists|bytes: Seq<u8>| bytes.len() == SERVER_TOKEN_BYTES && token == #[trigger] hex(bytes)
}

/// The token made of some bytes.
pub fn server_token(bytes: &[u8]) -> (r: String)
    ensures
        r@ == hex(bytes@),
{
    let size: usize = bytes.len();
    assert(bytes@.take(size as int) =~= bytes@);
    hex_text(bytes, size)
}

/// A fresh server token: the hexadecimal form of
/// [`SERVER_TOKEN_BYTES`] random bytes.
pub fn fresh_server_token() -> (r: Result<String, String>)
    ensures
        r matches Ok(token) ==> is_server_token(token@),
{
    drawn_token(random_bytes(SERVER_TOKEN_BYTES))
}

/// The token made of the bytes that were drawn, or the fault where none could
/// be drawn.
pub fn drawn_token(drawn: Result<Vec<u8>, String>) -> (r: Result<String, String>)
    ensures
        drawn matches Ok(bytes) ==> (r matches Ok(token) && token@ == hex(bytes@)),
        drawn matches Err(fault) ==> (r matches Err(error) && error@ == fault@),
{
    match drawn {
        Ok(bytes) => Ok(server_token(&bytes)),
        Err(fault) => Err(fault),
    }
}

/// The token kept in a token file: its content without white space around it.
pub fn read_server_token(contents: &str) -> (r: Result<String, String>)
    ensures
        r is Ok <==> trim(contents@).len() > 0,
        r matches Ok(token) ==> token@ == trim(contents@),
        r matches Err(error) ==> error@ == "server token file is empty"@,
{
    let token = trim_text(contents);
    if token.as_str().is_empty() {
        Err("server token file is empty".to_owned())
    } else {
        Ok(token)
    }
}

/// A key is sent in one header, in the style of the provider, and read back from it; without a
/// key there is no header.
pub proof fn keys_are_sent_whole(key: Text, auth: AuthStyle)
    ensures
        auth_header_spec(None, auth) is None,
        auth_header_spec(Some(key), AuthStyle::XApiKey) == Some(("x-api-key"@, key)),
        auth_header_spec(Some(key), AuthStyle::Bearer) matches Some((name, value)) && name
            == "authorization"@ && starts_with(value, "Bearer "@) && value.skip(7) == key,
        auth.other() != auth,
{
    reveal_strlit("Bearer ");
    assert(("Bearer "@ + key).skip(7) =~= key);
    assert(("Bearer "@ + key).take(7) =~= "Bearer "@);
}

/// A provider may stand in the registry exactly if its id, its name, its address and the ids of
/// its models say something, and there is a model.
pub proof fn complete_providers_are_accepted(id: Text, provider: ProviderConfigView)
    ensures
        provider_fault(id, provider) is None <==> {
            &&& trim(id).len() > 0
            &&& trim(provider.name).len() > 0
            &&& trim(provider.base_url).len() > 0
            &&& provider.models.len() > 0
            &&& forall|i: int|
                0 <= i < provider.models.len() ==> trim(
                    (#[trigger] provider.models[i]).id(),
                ).len() > 0
        },
{
}

/// The key of a provider is the one that stands under its id, as it was written; a blank one
/// counts as none, and one of another provider is never taken.
pub proof fn stored_keys_are_found(
    credentials: Seq<(Text, ProviderCredential)>,
    at: int,
    provider: Text,
)
    requires
        sorted(credentials),
        0 <= at < credentials.len(),
    ensures
        trim(credentials[at].1.api_key@).len() > 0 ==> stored_key(credentials, credentials[at].0)
            == Some(credentials[at].1.api_key@),
        trim(credentials[at].1.api_key@).len() == 0 ==> stored_key(credentials, credentials[at].0)
            is None,
        (forall|k: int| 0 <= k < credentials.len() ==> (#[trigger] credentials[k]).0 != provider)
            ==> stored_key(credentials, provider) is None,
{
    entries_are_unique(credentials, at);
}

/// A model entry has its own id and the efforts it declares, whichever way it is written.
pub proof fn entries_declare_their_model(id: Text, efforts: Option<Seq<ReasoningEffort>>)
    ensures
        ModelEntryView::Plain(id).id() == id,
        ModelEntryView::Plain(id).efforts() is None,
        (ModelEntryView::Detailed { id, reasoning_efforts: efforts }).id() == id,
        (ModelEntryView::Detailed { id, reasoning_efforts: efforts }).efforts() == efforts,
{
}

/// The token that is kept in a file is what was written there, without the line break behind it.
pub proof fn tokens_are_read_back(contents: &str, r: Result<String, String>)
    requires
        call_ensures(read_server_token, (contents,), r),
    ensures
        r is Ok <==> trim(contents@).len() > 0,
        r matches Ok(token) ==> token@ == trim(contents@),
{
}

/// The default model is read from both sides of the first slash, without the white space around
/// either side; a text without a slash names none.
pub proof fn default_models_are_read(provider: Text, model: Text)
    requires
        !provider.contains('/'),
    ensures
        read_default_model(provider.push('/') + model) == Some(
            DefaultModelView { provider: trim(provider), model: trim(model) },
        ),
        read_default_model(provider) is None,
{
    let text = provider.push('/') + model;
    index_of_bounds(text, '/');
    index_of_bounds(provider, '/');
    let at = index_of(text, '/');
    assert(text[provider.len() as int] == '/');
    if at < provider.len() {
        assert(provider[at] == text[at]);
        assert(provider.contains(provider[at]));
    }
    assert(text.take(at) =~= provider);
    assert(text.skip(at + 1) =~= model);
}

} // verus!
