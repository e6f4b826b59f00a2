//! Configuration that the daemon process owns: its identity and keys, its remote clients, its vault,
//! its model and its prompt. None of it is taken from a client.
use crate::admission::Capability;
use crate::catalog::CapabilityCatalog;
use crate::crypto::{
    ed25519_is_public_key, ed25519_public_key, is_public_key, public_key_of,
};
use crate::error::DaemonError;
use crate::ids::{
    big_endian_byte, uuid_bytes, uuid_text, uuid_to_text, PrincipalId, ProviderResourceKind,
    WorkspaceId,
};
use crate::index::same_bytes;
use crate::settings::SettingsError;
use crate::text::{
    any_control, blank, byte_len, has_control, is_blank, join2, same_text, utf8_len,
};
use crate::vault::{
    config_error, patterns, VaultExclusion, VaultProviderConfig, VaultProviderMode, VaultScope,
};
use vstd::prelude::*;

verus! {

/// The most remote clients that a daemon serves.
pub const MAX_REMOTE_CLIENTS: usize = 16;

/// The longest subject of a remote client, in bytes.
pub const MAX_SUBJECT_BYTES: usize = 256;

/// The longest name of an endpoint in an enrollment, in bytes.
pub const MAX_ENDPOINT_BYTES: usize = 253;

/// The most that a model may answer, in bytes.
pub const MODEL_RESPONSE_BYTES: usize = 65536;

/// The most that is embedded at once, in bytes.
pub const MODEL_EMBEDDING_INPUT_BYTES: usize = 32768;

/// The most dimensions of an embedding.
pub const MODEL_EMBEDDING_DIMENSIONS: usize = 4096;

/// How long a model that the environment configures may take.
pub const MODEL_TIMEOUT_MILLIS: u64 = 5000;

/// The extension of the discovery record, beside the database.
pub fn discovery_extension() -> (extension: &'static str)
    ensures
        extension@ == "cortexd-discovery.json"@,
{
    "cortexd-discovery.json"
}

/// The extension of the owner's pairing key, beside the discovery record.
pub fn pairing_key_extension() -> (extension: &'static str)
    ensures
        extension@ == "cortexd-pairing"@,
{
    "cortexd-pairing"
}

/// The extension of the manifest of remote clients, beside the database.
pub fn remote_manifest_extension() -> (extension: &'static str)
    ensures
        extension@ == "cortexd-clients.json"@,
{
    "cortexd-clients.json"
}

/// An inference credential, held only by the daemon process.
pub struct InferenceBearer {
    value: String,
}

impl InferenceBearer {
    /// The credential itself.
    pub closed spec fn credential(self) -> Seq<char> {
        self.value@
    }

    pub fn new(value: String) -> (bearer: Self)
        ensures
            bearer.credential() == value@,
    {
        InferenceBearer { value }
    }

    pub fn expose(&self) -> (value: &str)
        ensures
            value@ == self.credential(),
    {
        self.value.as_str()
    }

    /// How the credential shows in logs and diagnostics: not at all.
    pub fn redacted(&self) -> (text: &'static str)
        ensures
            text@ == "InferenceBearer([redacted])"@,
    {
        "InferenceBearer([redacted])"
    }
}

/// The bounds that a model provider keeps.
#[derive(Clone, Copy, Debug, PartialEq, Eq, Structural)]
pub struct ProviderLimits {
    pub response_bytes: usize,
    pub embedding_input_bytes: usize,
    pub embedding_dimensions: usize,
}

/// The bounds that every configured model gets.
pub open spec fn model_limits() -> ProviderLimits {
    ProviderLimits {
        response_bytes: MODEL_RESPONSE_BYTES,
        embedding_input_bytes: MODEL_EMBEDDING_INPUT_BYTES,
        embedding_dimensions: MODEL_EMBEDDING_DIMENSIONS,
    }
}

impl ProviderLimits {
    /// The bounds that every configured model gets.
    pub fn for_models() -> (limits: Self)
        ensures
            limits == model_limits(),
    {
        ProviderLimits {
            response_bytes: MODEL_RESPONSE_BYTES,
            embedding_input_bytes: MODEL_EMBEDDING_INPUT_BYTES,
            embedding_dimensions: MODEL_EMBEDDING_DIMENSIONS,
        }
    }
}

/// A model provider to call: where it listens, which model is asked, the locator of its credential.
#[derive(Debug, PartialEq, Eq)]
pub struct ModelConfig {
    pub base_url: String,
    pub model: String,
    pub secret_reference: Option<String>,
    pub timeout_millis: u64,
    pub limits: ProviderLimits,
    pub omit_tool_choice: bool,
}

/// The prompt layers that an operator configures. The global instructions are inline or in a file.
#[derive(Debug, PartialEq, Eq)]
pub struct PromptConfig {
    pub global_inline: Option<String>,
    pub global_file: Option<String>,
    /// Instructions by profile; no profile is listed twice.
    pub profiles: Vec<(String, String)>,
}

/// The prompt layers of one process lifetime.
#[derive(Debug, PartialEq, Eq)]
pub struct ResolvedPromptConfig {
    pub global: Option<String>,
    pub profiles: Vec<(String, String)>,
}

/// The instructions of a profile, in the first entry that names it.
pub open spec fn instructions(profiles: Seq<(String, String)>, id: Seq<char>) -> Option<Seq<char>>
    decreases profiles.len(),
{
    if profiles.len() == 0 {
        None
    } else if profiles[0].0@ == id {
        Some(profiles[0].1@)
    } else {
        instructions(profiles.drop_first(), id)
    }
}

/// The layers that a configuration resolves to: inline instructions or those of the file, never
/// both.
pub open spec fn resolved_prompt(config: PromptConfig, file: Option<String>) -> Result<
    ResolvedPromptConfig,
    DaemonError,
> {
    match (config.global_inline, config.global_file) {
        (Some(_), Some(_)) => Err(DaemonError::InvalidConfiguration),
        (None, Some(_)) => match file {
            Some(read) => Ok(
                ResolvedPromptConfig { global: Some(read), profiles: config.profiles },
            ),
            None => Err(DaemonError::InvalidConfiguration),
        },
        (inline, None) => Ok(
            ResolvedPromptConfig { global: inline, profiles: config.profiles },
        ),
    }
}

impl Default for PromptConfig {
    fn default() -> (config: Self)
        ensures
            config.global_inline is None,
            config.global_file is None,
            config.profiles@.len() == 0,
    {
        PromptConfig { global_inline: None, global_file: None, profiles: Vec::new() }
    }
}

impl PromptConfig {
    /// Resolves the configured layers. `file` is what reading the declared file gave; it is
    /// consulted only where a file, and nothing but a file, declares the global instructions.
    pub fn resolve(self, file: Option<String>) -> (resolved: Result<ResolvedPromptConfig, DaemonError>)
        ensures
            resolved == resolved_prompt(self, file),
    {
        let global = match (self.global_inline, self.global_file) {
            (Some(inline), None) => Some(inline),
            (None, Some(_)) => match file {
                Some(read) => Some(read),
                None => {
                    return Err(DaemonError::InvalidConfiguration);
                },
            },
            (None, None) => None,
            (Some(_), Some(_)) => {
                return Err(DaemonError::InvalidConfiguration);
            },
        };
        Ok(ResolvedPromptConfig { global, profiles: self.profiles })
    }
}

impl ResolvedPromptConfig {
    /// The instructions of a profile.
    pub fn profile(&self, id: &str) -> (found: Option<&String>)
        ensures
            match found {
                Some(found) => instructions(self.profiles@, id@) == Some(found@),
                None => instructions(self.profiles@, id@) is None,
            },
    {
        let mut i: usize = 0;
        assert(self.profiles@.subrange(0, self.profiles@.len() as int) =~= self.profiles@);
        while i < self.profiles.len()
            invariant
                i <= self.profiles@.len(),
                instructions(self.profiles@, id@) == instructions(
                    self.profiles@.subrange(i as int, self.profiles@.len() as int),
                    id@,
                ),
            decreases self.profiles@.len() - i,
        {
            let ghost rest = self.profiles@.subrange(i as int, self.profiles@.len() as int);
            assert(rest[0] == self.profiles@[i as int]);
            assert(rest.drop_first() =~= self.profiles@.subrange(
                i + 1,
                self.profiles@.len() as int,
            ));
            if same_text(self.profiles[i].0.as_str(), id) {
                return Some(&self.profiles[i].1);
            }
            i += 1;
        }
        None
    }
}

/// A remote client that the daemon knows.
#[derive(Debug, PartialEq, Eq)]
pub struct RemoteClientConfig {
    pub principal_id: PrincipalId,
    pub pairing_verifier: [u8; 32],
    pub bootstrap_grants: Vec<Capability>,
    pub subject: String,
}

/// What is known of a remote client.
pub struct RemoteClientModel {
    pub principal_id: PrincipalId,
    pub pairing_verifier: Seq<u8>,
    pub bootstrap_grants: Seq<Capability>,
    pub subject: Seq<char>,
}

impl View for RemoteClientConfig {
    type V = RemoteClientModel;

    open spec fn view(&self) -> RemoteClientModel {
        RemoteClientModel {
            principal_id: self.principal_id,
            pairing_verifier: self.pairing_verifier@,
            bootstrap_grants: self.bootstrap_grants@,
            subject: self.subject@,
        }
    }
}

/// What is known of each client, in order.
pub open spec fn client_views(clients: Seq<RemoteClientConfig>) -> Seq<RemoteClientModel> {
    clients.map_values(|client: RemoteClientConfig| client@)
}

/// No principal is listed twice.
pub open spec fn principals_distinct(clients: Seq<RemoteClientModel>) -> bool {
    forall|i: int, j: int|
        0 <= i < j < clients.len() ==> (#[trigger] clients[i]).principal_id != (
        #[trigger] clients[j]).principal_id
}

/// A list of remote clients is bounded and lists no principal twice.
pub open spec fn clients_wf(clients: Seq<RemoteClientModel>) -> bool {
    clients.len() <= MAX_REMOTE_CLIENTS && principals_distinct(clients)
}

/// What the discovery record holds: where the daemon listens, whom it belongs to, and the public
/// half of the owner's pairing key.
#[derive(Debug, PartialEq, Eq)]
pub struct Discovery {
    pub endpoint_name: String,
    pub workspace_id: u128,
    pub principal_id: u128,
    pub pairing_verifier: [u8; 32],
}

/// What the identity port says of the identifiers of a discovery record.
#[derive(Clone, Copy, Debug, PartialEq, Eq, Structural)]
pub struct DiscoveryAnswers {
    pub workspace_id: bool,
    pub principal_id: bool,
}

/// The key bytes are a seed whose public half is the verifier, and the verifier is a public key.
pub open spec fn pairs(key: Option<Seq<u8>>, verifier: Seq<u8>) -> bool {
    &&& key matches Some(seed)
    &&& seed.len() == 32
    &&& ed25519_is_public_key(verifier)
    &&& ed25519_public_key(seed) == verifier
}

/// The content of a key file.
pub open spec fn key_view(key: Option<Vec<u8>>) -> Option<Seq<u8>> {
    match key {
        Some(key) => Some(key@),
        None => None,
    }
}

/// Reads a seed: 32 bytes, no more and no less.
pub fn seed_from(bytes: &Vec<u8>) -> (seed: Option<[u8; 32]>)
    ensures
        match seed {
            Some(seed) => seed@ == bytes@,
            None => bytes@.len() != 32,
        },
{
    if bytes.len() != 32 {
        return None;
    }
    let mut seed = [0u8; 32];
    let mut i: usize = 0;
    while i < 32
        invariant
            i <= 32,
            bytes@.len() == 32,
            forall|j: int| 0 <= j < i ==> seed@[j] == bytes@[j],
        decreases 32 - i,
    {
        seed[i] = bytes[i];
        i += 1;
    }
    assert(seed@ =~= bytes@);
    Some(seed)
}

/// Loads the owner's pairing key and holds it against the public half in the discovery record.
pub fn paired_signer(key: &Option<Vec<u8>>, verifier: &[u8; 32]) -> (seed: Result<[u8; 32], DaemonError>)
    ensures
        match seed {
            Ok(seed) => pairs(key_view(*key), verifier@) && key_view(*key) == Some(seed@),
            Err(error) => !pairs(key_view(*key), verifier@) && error
                == DaemonError::InvalidConfiguration,
        },
{
    let bytes = match key {
        Some(bytes) => bytes,
        None => {
            return Err(DaemonError::InvalidConfiguration);
        },
    };
    let seed = match seed_from(bytes) {
        Some(seed) => seed,
        None => {
            return Err(DaemonError::InvalidConfiguration);
        },
    };
    if !is_public_key(verifier) {
        return Err(DaemonError::InvalidConfiguration);
    }
    let public = public_key_of(&seed);
    if !same_bytes(&public, verifier) {
        return Err(DaemonError::InvalidConfiguration);
    }
    Ok(seed)
}

/// The subject names a remote client: it is not blank, is at most 256 bytes long and holds no
/// control character.
pub open spec fn subject_valid(subject: Seq<char>) -> bool {
    !blank(subject) && utf8_len(subject) <= MAX_SUBJECT_BYTES && !has_control(subject)
}

/// Validates the subject of a remote client.
pub fn validate_subject(subject: &str) -> (valid: Result<(), DaemonError>)
    ensures
        valid == (if subject_valid(subject@) {
            Ok::<(), DaemonError>(())
        } else {
            Err::<(), DaemonError>(DaemonError::InvalidConfiguration)
        }),
{
    if is_blank(subject) || byte_len(subject) > MAX_SUBJECT_BYTES || any_control(subject) {
        return Err(DaemonError::InvalidConfiguration);
    }
    Ok(())
}

/// The grants are some capabilities of a catalog of the given size, in the catalog's order and none
/// twice.
pub open spec fn grants_valid(grants: Seq<Capability>, catalog: nat) -> bool {
    &&& 0 < grants.len() <= catalog
    &&& forall|i: int, j: int|
        0 <= i < j < grants.len() ==> (#[trigger] grants[i]).rank < (#[trigger] grants[j]).rank
}

/// Validates the grants of a remote client.
pub fn validate_remote_grants(grants: &Vec<Capability>, catalog: &CapabilityCatalog) -> (valid: Result<
    (),
    DaemonError,
>)
    ensures
        valid == (if grants_valid(grants@, catalog.entries@.len()) {
            Ok::<(), DaemonError>(())
        } else {
            Err::<(), DaemonError>(DaemonError::InvalidConfiguration)
        }),
{
    if grants.len() == 0 || grants.len() > catalog.entries.len() {
        return Err(DaemonError::InvalidConfiguration);
    }
    let mut k: usize = 1;
    while k < grants.len()
        invariant
            1 <= k <= grants@.len(),
            forall|i: int, j: int|
                0 <= i < j < k ==> (#[trigger] grants@[i]).rank < (#[trigger] grants@[j]).rank,
        decreases grants@.len() - k,
    {
        if grants[k - 1].rank >= grants[k].rank {
            assert(grants@[k - 1].rank >= grants@[k as int].rank);
            return Err(DaemonError::InvalidConfiguration);
        }
        assert forall|i: int, j: int| 0 <= i < j < k + 1 implies (#[trigger] grants@[i]).rank < (
        #[trigger] grants@[j]).rank by {
            if j == k && i < k - 1 {
                assert(grants@[i].rank < grants@[k - 1].rank);
            }
        }
        k += 1;
    }
    Ok(())
}

/// An environment variable as the process finds it.
#[derive(Debug, PartialEq, Eq)]
pub enum EnvironmentValue {
    Absent,
    NotUnicode,
    Text(String),
}

/// The environment variable is absent, or holds text that is not blank.
pub open spec fn environment_valid(value: EnvironmentValue) -> bool {
    match value {
        EnvironmentValue::Absent => true,
        EnvironmentValue::NotUnicode => false,
        EnvironmentValue::Text(text) => !blank(text@),
    }
}

/// Reads an environment variable.
pub fn environment_value(value: EnvironmentValue) -> (read: Result<Option<String>, DaemonError>)
    ensures
        match value {
            EnvironmentValue::Absent => read == Ok::<Option<String>, DaemonError>(None),
            EnvironmentValue::Text(text) => if blank(text@) {
                read == Err::<Option<String>, DaemonError>(DaemonError::InvalidConfiguration)
            } else {
                read == Ok::<Option<String>, DaemonError>(Some(text))
            },
            EnvironmentValue::NotUnicode => read == Err::<Option<String>, DaemonError>(
                DaemonError::InvalidConfiguration,
            ),
        },
{
    match value {
        EnvironmentValue::Absent => Ok(None),
        EnvironmentValue::NotUnicode => Err(DaemonError::InvalidConfiguration),
        EnvironmentValue::Text(text) => if is_blank(text.as_str()) {
            Err(DaemonError::InvalidConfiguration)
        } else {
            Ok(Some(text))
        },
    }
}

/// What the model port says of a configuration from the environment: whether the locator of the
/// credential, where there is one, and the provider's settings are ones it accepts.
#[derive(Clone, Copy, Debug, PartialEq, Eq, Structural)]
pub struct EnvironmentAnswers {
    pub secret: bool,
    pub provider: bool,
}

/// The model settings of the environment, or nothing where none is set. The endpoint and the model
/// are both set or both absent; a credential locator is accepted only beside them.
pub fn model_from_environment(
    endpoint: EnvironmentValue,
    model: EnvironmentValue,
    secret: EnvironmentValue,
    answers: EnvironmentAnswers,
) -> (config: Result<Option<ModelConfig>, DaemonError>)
    ensures
        match config {
            Err(error) => ({
                &&& error == DaemonError::InvalidConfiguration
                &&& {
                    ||| !environment_valid(endpoint)
                    ||| !environment_valid(model)
                    ||| !environment_valid(secret)
                    ||| secret is Text && !answers.secret
                    ||| endpoint is Text != model is Text
                    ||| endpoint is Absent && secret is Text
                    ||| endpoint is Text && !answers.provider
                }
            }),
            Ok(None) => endpoint is Absent && model is Absent && secret is Absent,
            Ok(Some(config)) => ({
                &&& environment_valid(endpoint) && environment_valid(model) && environment_valid(
                    secret,
                )
                &&& secret is Text ==> answers.secret
                &&& answers.provider
                &&& endpoint == EnvironmentValue::Text(config.base_url)
                &&& model == EnvironmentValue::Text(config.model)
                &&& secret == (match config.secret_reference {
                    Some(reference) => EnvironmentValue::Text(reference),
                    None => EnvironmentValue::Absent,
                })
                &&& config.timeout_millis == MODEL_TIMEOUT_MILLIS
                &&& config.limits == model_limits()
                &&& !config.omit_tool_choice
            }),
        },
{
    let endpoint = match environment_value(endpoint) {
        Ok(value) => value,
        Err(error) => {
            return Err(error);
        },
    };
    let model = match environment_value(model) {
        Ok(value) => value,
        Err(error) => {
            return Err(error);
        },
    };
    let secret = match environment_value(secret) {
        Ok(value) => value,
        Err(error) => {
            return Err(error);
        },
    };
    if secret.is_some() && !answers.secret {
        return Err(DaemonError::InvalidConfiguration);
    }
    match (endpoint, model, secret) {
        (None, None, None) => Ok(None),
        (Some(base_url), Some(model), secret_reference) => {
            if !answers.provider {
                return Err(DaemonError::InvalidConfiguration);
            }
            Ok(
                Some(
                    ModelConfig {
                        base_url,
                        model,
                        secret_reference,
                        timeout_millis: MODEL_TIMEOUT_MILLIS,
                        limits: ProviderLimits::for_models(),
                        omit_tool_choice: false,
                    },
                ),
            )
        },
        _ => Err(DaemonError::InvalidConfiguration),
    }
}

/// The identity of the vault provider where no settings declare one.
pub const DEFAULT_PROVIDER_ID: &'static str = "markdown-vault";

/// The vault that is mounted where no settings configure one: read and write, both scopes, nothing
/// excluded, at the given root. `provider_accepted` is what the identity port answers for the default
/// provider's identity.
pub fn default_vault_config(root: String, provider_accepted: bool) -> (vault: Option<
    VaultProviderConfig,
>)
    ensures
        match vault {
            Some(vault) => ({
                &&& config_error("markdown-vault"@, provider_accepted, root@, 2, 0) is None
                &&& vault.wf()
                &&& vault.provider() == "markdown-vault"@
                &&& vault.root_text() == root@
                &&& vault.posture() == VaultProviderMode::ReadWrite
                &&& vault.in_scope(ProviderResourceKind::Knowledge)
                &&& vault.in_scope(ProviderResourceKind::Task)
                &&& vault.scope_list().len() == 2
                &&& vault.exclusion_list().len() == 0
            }),
            None => config_error("markdown-vault"@, provider_accepted, root@, 2, 0) is Some,
        },
{
    let mut scopes: Vec<VaultScope> = Vec::new();
    scopes.push(VaultScope::for_kind(ProviderResourceKind::Knowledge));
    scopes.push(VaultScope::for_kind(ProviderResourceKind::Task));
    let exclusions: Vec<VaultExclusion> = Vec::new();
    assert(scopes@[0].of() != scopes@[1].of());
    assert(patterns(exclusions@) =~= Seq::<Seq<char>>::empty());
    match VaultProviderConfig::new(
        DEFAULT_PROVIDER_ID,
        provider_accepted,
        root,
        VaultProviderMode::ReadWrite,
        scopes,
        exclusions,
    ) {
        Ok(config) => {
            assert(config.scope_list()[0].of() == ProviderResourceKind::Knowledge);
            assert(config.scope_list()[1].of() == ProviderResourceKind::Task);
            Some(config)
        },
        Err(_) => None,
    }
}

/// Configuration that the daemon process owns. The files that hold it are the process's own concern.
pub struct DaemonConfig {
    pub endpoint_name: String,
    pub workspace_id: WorkspaceId,
    pub principal_id: PrincipalId,
    pub inference_secret: Option<String>,
    pub inference_bearer: Option<InferenceBearer>,
    pub model_config: Option<ModelConfig>,
    pub pairing_verifier: [u8; 32],
    pub pairing_seed: [u8; 32],
    pub bootstrap_grants: Vec<Capability>,
    pub remote_clients: Vec<RemoteClientConfig>,
    pub vault: Option<VaultProviderConfig>,
    pub prompt: PromptConfig,
}

impl DaemonConfig {
    /// The public half of the pairing key belongs to its seed, and the remote clients are bounded
    /// and distinct.
    pub open spec fn wf(self) -> bool {
        &&& self.pairing_verifier@ == ed25519_public_key(self.pairing_seed@)
        &&& ed25519_is_public_key(self.pairing_verifier@)
        &&& clients_wf(client_views(self.remote_clients@))
    }

    /// The record holds the identity of this configuration.
    pub open spec fn recorded_by(self, record: Discovery) -> bool {
        &&& record.endpoint_name == self.endpoint_name
        &&& record.workspace_id == self.workspace_id.value
        &&& record.principal_id == self.principal_id.value
        &&& record.pairing_verifier@ == self.pairing_verifier@
    }

    /// A configuration with a new identity. The seed and the identifiers are fresh; the owner starts
    /// out with every capability of the catalog.
    pub fn with_fresh_pairing(
        endpoint_name: String,
        workspace_id: WorkspaceId,
        principal_id: PrincipalId,
        seed: [u8; 32],
        catalog: &CapabilityCatalog,
    ) -> (config: Self)
        ensures
            config.wf(),
            config.endpoint_name == endpoint_name,
            config.workspace_id == workspace_id,
            config.principal_id == principal_id,
            config.pairing_seed@ == seed@,
            config.bootstrap_grants@ == whole_catalog(*catalog),
            config.remote_clients@.len() == 0,
            config.inference_secret is None,
            config.inference_bearer is None,
            config.model_config is None,
            config.vault is None,
            config.prompt.global_inline is None,
            config.prompt.global_file is None,
            config.prompt.profiles@.len() == 0,
    {
        DaemonConfig {
            endpoint_name,
            workspace_id,
            principal_id,
            inference_secret: None,
            inference_bearer: None,
            model_config: None,
            pairing_verifier: public_key_of(&seed),
            pairing_seed: seed,
            bootstrap_grants: all_capabilities(catalog),
            remote_clients: Vec::new(),
            vault: None,
            prompt: PromptConfig::default(),
        }
    }

    /// The configuration of a daemon that ran before: its identity comes from the discovery record,
    /// its key from the protected key file, its clients from the manifest. The three have to agree.
    pub fn from_discovery(
        discovery: Option<Discovery>,
        answers: DiscoveryAnswers,
        key: &Option<Vec<u8>>,
        remote_clients: Result<Vec<RemoteClientConfig>, DaemonError>,
        catalog: &CapabilityCatalog,
        vault: Option<VaultProviderConfig>,
        prompt: PromptConfig,
    ) -> (config: Result<Self, DaemonError>)
        requires
            remote_clients matches Ok(clients) ==> clients_wf(client_views(clients@)),
        ensures
            match config {
                Ok(config) => ({
                    &&& discovery matches Some(discovery)
                    &&& pairs(key_view(*key), discovery.pairing_verifier@)
                    &&& answers.workspace_id && answers.principal_id
                    &&& remote_clients == Ok::<Vec<RemoteClientConfig>, DaemonError>(
                        config.remote_clients,
                    )
                    &&& config.wf()
                    &&& config.recorded_by(discovery)
                    &&& Some(config.pairing_seed@) == key_view(*key)
                    &&& config.bootstrap_grants@ == whole_catalog(*catalog)
                    &&& config.vault == vault
                    &&& config.prompt == prompt
                    &&& config.inference_secret is None
                    &&& config.inference_bearer is None
                    &&& config.model_config is None
                }),
                Err(error) => ({
                    &&& error == DaemonError::InvalidConfiguration
                    &&& {
                        ||| discovery is None
                        ||| !pairs(key_view(*key), discovery->0.pairing_verifier@)
                        ||| !answers.workspace_id
                        ||| !answers.principal_id
                        ||| remote_clients is Err
                    }
                }),
            },
    {
        let discovery = match discovery {
            Some(discovery) => discovery,
            None => {
                return Err(DaemonError::InvalidConfiguration);
            },
        };
        let seed = match paired_signer(key, &discovery.pairing_verifier) {
            Ok(seed) => seed,
            Err(error) => {
                return Err(error);
            },
        };
        let remote_clients = match remote_clients {
            Ok(clients) => clients,
            Err(_) => {
                return Err(DaemonError::InvalidConfiguration);
            },
        };
        if !answers.workspace_id || !answers.principal_id {
            return Err(DaemonError::InvalidConfiguration);
        }
        Ok(
            DaemonConfig {
                endpoint_name: discovery.endpoint_name,
                workspace_id: WorkspaceId { value: discovery.workspace_id },
                principal_id: PrincipalId { value: discovery.principal_id },
                inference_secret: None,
                inference_bearer: None,
                model_config: None,
                pairing_verifier: discovery.pairing_verifier,
                pairing_seed: seed,
                bootstrap_grants: all_capabilities(catalog),
                remote_clients,
                vault,
                prompt,
            },
        )
    }

    /// The discovery record of this configuration. It holds no private key.
    pub fn discovery(&self) -> (discovery: Discovery)
        ensures
            self.recorded_by(discovery),
    {
        Discovery {
            endpoint_name: self.endpoint_name.clone(),
            workspace_id: self.workspace_id.value,
            principal_id: self.principal_id.value,
            pairing_verifier: self.pairing_verifier,
        }
    }

    /// Holds the protected key file, where there is one, against this configuration: it has to hold
    /// the seed of the configured public half. Whether the file has still to be written.
    pub fn ensure_pairing_key(&self, exists: bool, key: &Option<Vec<u8>>) -> (write: Result<
        bool,
        DaemonError,
    >)
        ensures
            write == (if !exists {
                Ok::<bool, DaemonError>(true)
            } else if key_view(*key) matches Some(seed) && seed.len() == 32 && ed25519_public_key(seed)
                == self.pairing_verifier@ {
                Ok::<bool, DaemonError>(false)
            } else {
                Err::<bool, DaemonError>(DaemonError::InvalidConfiguration)
            }),
    {
        if !exists {
            return Ok(true);
        }
        let bytes = match key {
            Some(bytes) => bytes,
            None => {
                return Err(DaemonError::InvalidConfiguration);
            },
        };
        match seed_from(bytes) {
            Some(seed) => {
                let public = public_key_of(&seed);
                if same_bytes(&public, &self.pairing_verifier) {
                    Ok(false)
                } else {
                    Err(DaemonError::InvalidConfiguration)
                }
            },
            None => Err(DaemonError::InvalidConfiguration),
        }
    }

    /// Adds a credential locator that the composition root has to resolve.
    pub fn with_inference_secret(self, reference: String) -> (config: Self)
        ensures
            config == (DaemonConfig { inference_secret: Some(reference), ..self }),
    {
        let mut config = self;
        config.inference_secret = Some(reference);
        config
    }

    /// Configures the model that search and the agent use.
    pub fn with_model_config(self, model: ModelConfig) -> (config: Self)
        ensures
            config == (DaemonConfig { model_config: Some(model), ..self }),
    {
        let mut config = self;
        config.model_config = Some(model);
        config
    }

    /// Attaches the resolved credential.
    pub fn with_inference_bearer(self, bearer: Option<InferenceBearer>) -> (config: Self)
        ensures
            config == (DaemonConfig { inference_bearer: bearer, ..self }),
    {
        let mut config = self;
        config.inference_bearer = bearer;
        config
    }

    /// Narrows what the owner starts out with.
    pub fn with_bootstrap_grants(self, grants: Vec<Capability>) -> (config: Self)
        ensures
            config == (DaemonConfig { bootstrap_grants: grants, ..self }),
    {
        let mut config = self;
        config.bootstrap_grants = grants;
        config
    }

    /// Attaches a vault, whose root has to be a directory.
    pub fn with_vault_provider(self, vault: VaultProviderConfig, root_is_directory: bool) -> (config:
        Result<Self, DaemonError>)
        ensures
            config == (if root_is_directory {
                Ok::<DaemonConfig, DaemonError>(DaemonConfig { vault: Some(vault), ..self })
            } else {
                Err::<DaemonConfig, DaemonError>(DaemonError::InvalidConfiguration)
            }),
    {
        match vault.validate_root_access(root_is_directory) {
            Ok(_) => {
                let mut config = self;
                config.vault = Some(vault);
                Ok(config)
            },
            Err(_) => Err(DaemonError::InvalidConfiguration),
        }
    }

    /// Attaches the operator's prompt layers.
    pub fn with_prompt_config(self, prompt: PromptConfig) -> (config: Self)
        ensures
            config == (DaemonConfig { prompt, ..self }),
    {
        let mut config = self;
        config.prompt = prompt;
        config
    }

    pub fn vault_provider(&self) -> (vault: Option<&VaultProviderConfig>)
        ensures
            match vault {
                Some(vault) => self.vault == Some(*vault),
                None => self.vault is None,
            },
    {
        self.vault.as_ref()
    }

    pub fn endpoint_name(&self) -> (name: &str)
        ensures
            name@ == self.endpoint_name@,
    {
        self.endpoint_name.as_str()
    }

    pub fn owner_principal_id(&self) -> (id: u128)
        ensures
            id == self.principal_id.value,
    {
        self.principal_id.value
    }

    pub fn workspace_id(&self) -> (id: WorkspaceId)
        ensures
            id == self.workspace_id,
    {
        self.workspace_id
    }
}

/// Every capability of the catalog, in its order.
pub open spec fn whole_catalog(catalog: CapabilityCatalog) -> Seq<Capability> {
    catalog.entries@.map_values(|entry: crate::catalog::CatalogEntry| entry.capability)
}

/// Every capability of the catalog, in its order.
pub fn all_capabilities(catalog: &CapabilityCatalog) -> (all: Vec<Capability>)
    ensures
        all@ == whole_catalog(*catalog),
{
    let mut all: Vec<Capability> = Vec::new();
    let mut i: usize = 0;
    while i < catalog.entries.len()
        invariant
            i <= catalog.entries@.len(),
            all@ == whole_catalog(*catalog).subrange(0, i as int),
        decreases catalog.entries@.len() - i,
    {
        all.push(catalog.entries[i].capability);
        assert(all@ =~= whole_catalog(*catalog).subrange(0, i + 1));
        i += 1;
    }
    assert(all@ =~= whole_catalog(*catalog));
    all
}

/// The name that an endpoint gets where none is configured.
pub open spec fn generated_endpoint(id: u128) -> Seq<char> {
    "cortexd-"@ + uuid_text(id)
}

/// A seed made of two fresh identifiers.
pub fn fresh_signing_key(first: u128, second: u128) -> (seed: [u8; 32])
    ensures
        forall|i: int| 0 <= i < 16 ==> #[trigger] seed@[i] == big_endian_byte(first, i),
        forall|i: int| 16 <= i < 32 ==> #[trigger] seed@[i] == big_endian_byte(second, i - 16),
{
    let head = uuid_bytes(first);
    let tail = uuid_bytes(second);
    let mut seed = [0u8; 32];
    let mut i: usize = 0;
    while i < 16
        invariant
            i <= 16,
            forall|j: int| 0 <= j < 16 ==> #[trigger] head@[j] == big_endian_byte(first, j),
            forall|j: int| 0 <= j < 16 ==> #[trigger] tail@[j] == big_endian_byte(second, j),
            forall|j: int| 0 <= j < i ==> #[trigger] seed@[j] == head@[j],
            forall|j: int| 16 <= j < 16 + i ==> #[trigger] seed@[j] == tail@[j - 16],
        decreases 16 - i,
    {
        seed[i] = head[i];
        seed[i + 16] = tail[i];
        i += 1;
    }
    seed
}

/// The security descriptor that admits nobody but the user with the given identifier.
pub fn owner_only_descriptor(sid: &str) -> (sddl: String)
    ensures
        sddl@ == "D:P(A;;GA;;;"@ + sid@ + ")"@,
{
    let head = join2("D:P(A;;GA;;;", sid);
    join2(head.as_str(), ")")
}

/// A new identity, for a daemon that has none yet.
#[derive(Clone, Copy, Debug, PartialEq, Eq)]
pub struct FreshIdentity {
    pub endpoint_id: u128,
    pub workspace_id: WorkspaceId,
    pub principal_id: PrincipalId,
    pub seed: [u8; 32],
}

/// What the file system holds of a daemon that ran before.
pub struct DurableState {
    /// The discovery record, where it can be read.
    pub discovery: Option<Discovery>,
    pub answers: DiscoveryAnswers,
    /// The pairing key, where it can be read.
    pub key: Option<Vec<u8>>,
    /// The manifest of remote clients: none, unreadable, or its entries.
    pub manifest: Option<Result<Vec<crate::enrollment::RemoteClientEntry>, ()>>,
}

/// What the world answered while the configuration was loaded.
pub struct ConfigurationFacts {
    /// The database path is not empty.
    pub path_given: bool,
    /// The directory of the database is there or could be made.
    pub directory_ready: bool,
    /// What a daemon that ran before left, where there is a discovery record.
    pub durable: Option<DurableState>,
    /// The vault section of the settings.
    pub declared_vault: Option<Result<Option<VaultProviderConfig>, SettingsError>>,
    /// The root of the declared vault is a directory.
    pub vault_root_is_directory: bool,
    /// The default vault root, where it could be made.
    pub default_vault_root: Option<String>,
    /// The identity port takes the default provider's identity.
    pub default_provider_accepted: bool,
    /// The key file and the discovery record of a new daemon could be written.
    pub key_stored: bool,
    pub discovery_stored: bool,
}

/// The declared vault can be mounted, or none is declared.
pub open spec fn vault_sound(facts: ConfigurationFacts) -> bool {
    match facts.declared_vault {
        None => true,
        Some(Err(_)) => false,
        Some(Ok(None)) => true,
        Some(Ok(Some(_))) => facts.vault_root_is_directory,
    }
}

/// The record, the key and the manifest of a daemon that ran before agree.
pub open spec fn durable_sound(state: DurableState, catalog: CapabilityCatalog) -> bool {
    &&& state.discovery matches Some(record)
    &&& pairs(key_view(state.key), record.pairing_verifier@)
    &&& state.answers.workspace_id && state.answers.principal_id
    &&& match state.manifest {
        None => true,
        Some(Err(_)) => false,
        Some(Ok(entries)) => crate::enrollment::manifest_valid(entries@, catalog),
    }
}

/// The configuration can be loaded.
pub open spec fn configurable(facts: ConfigurationFacts, catalog: CapabilityCatalog) -> bool {
    &&& vault_sound(facts)
    &&& facts.path_given
    &&& facts.directory_ready
    &&& match facts.durable {
        Some(state) => durable_sound(state, catalog),
        None => facts.key_stored && facts.discovery_stored,
    }
}

/// The vault is the declared one or, where none is declared, the default one.
pub open spec fn chosen_vault(facts: ConfigurationFacts, vault: Option<VaultProviderConfig>) -> bool {
    match facts.declared_vault {
        Some(Ok(Some(declared))) => vault == Some(declared),
        _ => match facts.default_vault_root {
            None => vault is None,
            Some(root) => match vault {
                None => config_error(
                    "markdown-vault"@,
                    facts.default_provider_accepted,
                    root@,
                    2,
                    0,
                ) is Some,
                Some(vault) => {
                    &&& config_error(
                        "markdown-vault"@,
                        facts.default_provider_accepted,
                        root@,
                        2,
                        0,
                    ) is None
                    &&& vault.provider() == "markdown-vault"@
                    &&& vault.root_text() == root@
                    &&& vault.posture() == VaultProviderMode::ReadWrite
                    &&& vault.in_scope(ProviderResourceKind::Knowledge)
                    &&& vault.in_scope(ProviderResourceKind::Task)
                    &&& vault.exclusion_list().len() == 0
                },
            },
        },
    }
}

impl DaemonConfig {
    /// Loads the configuration. A daemon that ran before keeps its identity, its endpoint among it;
    /// one that did not gets the fresh one, and the endpoint that the settings name.
    pub fn from_local_settings(
        facts: ConfigurationFacts,
        endpoint_override: Option<&str>,
        prompt: PromptConfig,
        fresh: FreshIdentity,
        catalog: &CapabilityCatalog,
    ) -> (config: Result<Self, DaemonError>)
        ensures
            match config {
                Err(error) => error == DaemonError::InvalidConfiguration && !configurable(
                    facts,
                    *catalog,
                ),
                Ok(config) => ({
                    &&& configurable(facts, *catalog)
                    &&& config.wf()
                    &&& chosen_vault(facts, config.vault)
                    &&& config.prompt == prompt
                    &&& config.bootstrap_grants@ == whole_catalog(*catalog)
                    &&& config.inference_secret is None
                    &&& config.inference_bearer is None
                    &&& config.model_config is None
                    &&& match facts.durable {
                        Some(state) => {
                            &&& config.recorded_by(state.discovery->0)
                            &&& Some(config.pairing_seed@) == key_view(state.key)
                            &&& client_views(config.remote_clients@) == (match state.manifest {
                                Some(Ok(entries)) => crate::enrollment::listed_clients(
                                    entries@,
                                    *catalog,
                                ),
                                _ => Seq::empty(),
                            })
                        },
                        None => {
                            &&& config.endpoint_name@ == (match endpoint_override {
                                Some(name) => name@,
                                None => generated_endpoint(fresh.endpoint_id),
                            })
                            &&& config.workspace_id == fresh.workspace_id
                            &&& config.principal_id == fresh.principal_id
                            &&& config.pairing_seed@ == fresh.seed@
                            &&& config.remote_clients@.len() == 0
                        },
                    }
                }),
            },
    {
        let declared = match vault_from_settings(
            facts.declared_vault,
            facts.vault_root_is_directory,
        ) {
            Ok(declared) => declared,
            Err(error) => {
                return Err(error);
            },
        };
        if !facts.path_given || !facts.directory_ready {
            return Err(DaemonError::InvalidConfiguration);
        }
        let vault = match declared {
            Some(declared) => Some(declared),
            None => match facts.default_vault_root {
                Some(root) => default_vault_config(root, facts.default_provider_accepted),
                None => None,
            },
        };
        match facts.durable {
            Some(state) => {
                let ghost listed = state.manifest matches Some(Ok(_));
                let clients = crate::enrollment::load_remote_clients(state.manifest, catalog);
                proof {
                    if clients is Ok && !listed {
                        assert(client_views(clients->Ok_0@) =~= Seq::<RemoteClientModel>::empty());
                    }
                }
                Self::from_discovery(
                    state.discovery,
                    state.answers,
                    &state.key,
                    clients,
                    catalog,
                    vault,
                    prompt,
                )
            },
            None => {
                if !facts.key_stored || !facts.discovery_stored {
                    return Err(DaemonError::InvalidConfiguration);
                }
                let endpoint = match endpoint_override {
                    Some(name) => name.to_owned(),
                    None => join2("cortexd-", uuid_to_text(fresh.endpoint_id).as_str()),
                };
                let mut config = Self::with_fresh_pairing(
                    endpoint,
                    fresh.workspace_id,
                    fresh.principal_id,
                    fresh.seed,
                    catalog,
                );
                config.vault = vault;
                config.prompt = prompt;
                Ok(config)
            },
        }
    }
}

/// What the settings and the file system say of the vault: the vault to mount, or the failure of a
/// declaration that is invalid or whose root is no directory. Nothing declared, nothing mounted.
pub fn vault_from_settings(
    declared: Option<Result<Option<VaultProviderConfig>, SettingsError>>,
    root_is_directory: bool,
) -> (vault: Result<Option<VaultProviderConfig>, DaemonError>)
    ensures
        vault == (match declared {
            None => Ok::<Option<VaultProviderConfig>, DaemonError>(None),
            Some(Err(_)) => Err::<Option<VaultProviderConfig>, DaemonError>(
                DaemonError::InvalidConfiguration,
            ),
            Some(Ok(None)) => Ok::<Option<VaultProviderConfig>, DaemonError>(None),
            Some(Ok(Some(vault))) => if root_is_directory {
                Ok::<Option<VaultProviderConfig>, DaemonError>(Some(vault))
            } else {
                Err::<Option<VaultProviderConfig>, DaemonError>(DaemonError::InvalidConfiguration)
            },
        }),
{
    match declared {
        None => Ok(None),
        Some(Err(_)) => Err(DaemonError::InvalidConfiguration),
        Some(Ok(None)) => Ok(None),
        Some(Ok(Some(vault))) => match vault.validate_root_access(root_is_directory) {
            Ok(_) => Ok(Some(vault)),
            Err(_) => Err(DaemonError::InvalidConfiguration),
        },
    }
}

/// A daemon comes back as itself: the key file and the discovery record of a configuration pair, and
/// a configuration read from that record carries the same endpoint, workspace, owner and public key.
pub proof fn law_restart_keeps_the_identity(before: DaemonConfig, after: DaemonConfig, record: Discovery)
    requires
        before.wf(),
        before.recorded_by(record),
        after.recorded_by(record),
    ensures
        pairs(Some(before.pairing_seed@), record.pairing_verifier@),
        after.endpoint_name == before.endpoint_name,
        after.workspace_id == before.workspace_id,
        after.principal_id == before.principal_id,
        after.pairing_verifier@ == before.pairing_verifier@,
{
}

/// The general instructions come from one place: inline, or from the file where it could be read;
/// both at once, or a file that could not be read, are refused. The profiles' own are kept.
pub proof fn law_instructions_come_from_one_place(config: PromptConfig, file: Option<String>)
    ensures
        resolved_prompt(config, file) is Ok <==> !(config.global_inline is Some
            && config.global_file is Some) && (config.global_file is Some ==> file is Some),
        resolved_prompt(config, file) is Err ==> resolved_prompt(config, file)->Err_0
            == DaemonError::InvalidConfiguration,
        resolved_prompt(config, file) matches Ok(prompt) ==> {
            &&& prompt.profiles == config.profiles
            &&& config.global_inline is Some ==> prompt.global == config.global_inline
            &&& config.global_file is Some ==> prompt.global == file
            &&& config.global_inline is None && config.global_file is None ==> prompt.global is None
        },
{
}

/// A profile's instructions are found under its identifier, the first of them, and none are made up.
pub proof fn law_instructions_belong_to_their_profile(profiles: Seq<(String, String)>, id: Seq<char>)
    ensures
        instructions(profiles, id) is None <==> forall|i: int|
            0 <= i < profiles.len() ==> (#[trigger] profiles[i]).0@ != id,
        instructions(profiles, id) matches Some(found) ==> exists|i: int|
            0 <= i < profiles.len() && (#[trigger] profiles[i]).0@ == id && profiles[i].1@ == found
                && forall|j: int| 0 <= j < i ==> (#[trigger] profiles[j]).0@ != id,
    decreases profiles.len(),
{
    if profiles.len() > 0 && profiles[0].0@ != id {
        let rest = profiles.drop_first();
        law_instructions_belong_to_their_profile(rest, id);
        if let Some(found) = instructions(rest, id) {
            let i = choose|i: int|
                0 <= i < rest.len() && (#[trigger] rest[i]).0@ == id && rest[i].1@ == found && forall|
                    j: int,
                |
                    0 <= j < i ==> (#[trigger] rest[j]).0@ != id;
            assert(profiles[i + 1] == rest[i]);
            assert forall|j: int| 0 <= j < i + 1 implies (#[trigger] profiles[j]).0@ != id by {
                if j > 0 {
                    assert(rest[j - 1] == profiles[j]);
                }
            }
        } else {
            assert forall|j: int| 0 <= j < profiles.len() implies (#[trigger] profiles[j]).0@
                != id by {
                if j > 0 {
                    assert(rest[j - 1] == profiles[j]);
                }
            }
        }
    }
}

/// A key pairs with its own public half and with nothing else; a key of another length, or none at
/// all, pairs with nothing.
pub proof fn law_a_key_pairs_with_its_own_half(key: Seq<u8>, verifier: Seq<u8>)
    requires
        ed25519_is_public_key(verifier),
    ensures
        pairs(Some(key), verifier) <==> key.len() == 32 && verifier == ed25519_public_key(key),
        !pairs(None, verifier),
{
}

/// A subject can be shown: something of it is visible, nothing of it is a control character, and it is
/// at most 256 bytes long. Every such text is a subject.
pub proof fn law_subjects_can_be_shown(subject: Seq<char>)
    ensures
        subject_valid(subject) <==> {
            &&& exists|i: int|
                0 <= i < subject.len() && !crate::text::white_space(#[trigger] subject[i])
            &&& forall|i: int|
                0 <= i < subject.len() ==> !crate::text::control(#[trigger] subject[i])
            &&& utf8_len(subject) <= 256
        },
{
    assert(!blank(subject) <==> exists|i: int|
        0 <= i < subject.len() && !crate::text::white_space(#[trigger] subject[i]));
}

/// Valid grants are some, and none is listed twice.
pub proof fn law_grants_are_listed_once(grants: Seq<Capability>, catalog: nat)
    requires
        grants_valid(grants, catalog),
    ensures
        0 < grants.len() <= catalog,
        grants.no_duplicates(),
{
    assert forall|i: int, j: int|
        0 <= i < grants.len() && 0 <= j < grants.len() && i != j implies grants[i] != grants[j] by {
        if i < j {
            assert(grants[i].rank < grants[j].rank);
        } else {
            assert(grants[j].rank < grants[i].rank);
        }
    }
}

/// The whole catalog is every capability of it and nothing else, each as often as it is listed.
pub proof fn law_owners_start_with_everything(catalog: CapabilityCatalog, capability: Capability)
    ensures
        whole_catalog(catalog).len() == catalog.entries@.len(),
        whole_catalog(catalog).contains(capability) <==> exists|i: int|
            0 <= i < catalog.entries@.len() && (#[trigger] catalog.entries@[i]).capability
                == capability,
{
    let all = whole_catalog(catalog);
    if all.contains(capability) {
        let i = choose|i: int| 0 <= i < all.len() && all[i] == capability;
        assert(catalog.entries@[i].capability == capability);
    }
    if exists|i: int|
        0 <= i < catalog.entries@.len() && (#[trigger] catalog.entries@[i]).capability
            == capability {
        let i = choose|i: int|
            0 <= i < catalog.entries@.len() && (#[trigger] catalog.entries@[i]).capability
                == capability;
        assert(all[i] == capability);
    }
}

/// Two daemons that make up their endpoints from different identifiers do not meet.
pub proof fn law_generated_endpoints_differ(a: u128, b: u128)
    ensures
        generated_endpoint(a) == generated_endpoint(b) <==> a == b,
        crate::text::begins_with(generated_endpoint(a), "cortexd-"@),
{
    let prefix = "cortexd-"@;
    crate::ids::law_identifiers_are_told_apart(a, b);
    let rest = |id: u128| generated_endpoint(id).subrange(
        prefix.len() as int,
        generated_endpoint(id).len() as int,
    );
    assert(rest(a) =~= uuid_text(a));
    assert(rest(b) =~= uuid_text(b));
    assert(generated_endpoint(a).subrange(0, prefix.len() as int) =~= prefix);
}

/// A daemon is configured exactly where each part is in place: a declared vault that is valid and lies
/// in a directory, a path, its directory, and, of a daemon that ran before, a record, the key that
/// pairs with it, identifiers that are accepted and a manifest that is valid or absent; a new one has
/// to have stored its key and its record.
pub proof fn law_a_configuration_needs_every_part(
    facts: ConfigurationFacts,
    catalog: CapabilityCatalog,
)
    ensures
        configurable(facts, catalog) ==> {
            &&& facts.path_given && facts.directory_ready
            &&& facts.declared_vault matches Some(declared) ==> declared is Ok
            &&& facts.declared_vault matches Some(Ok(Some(_))) ==> facts.vault_root_is_directory
            &&& facts.durable is None ==> facts.key_stored && facts.discovery_stored
            &&& facts.durable matches Some(state) ==> {
                &&& state.discovery is Some
                &&& state.key is Some
                &&& state.key->0@.len() == 32
                &&& ed25519_public_key(state.key->0@) == state.discovery->0.pairing_verifier@
                &&& state.answers.workspace_id && state.answers.principal_id
                &&& state.manifest is Some ==> state.manifest->0 is Ok
            }
        },
        facts.path_given && facts.directory_ready && facts.declared_vault is None
            && facts.durable is None && facts.key_stored && facts.discovery_stored ==> configurable(
            facts,
            catalog,
        ),
        facts.path_given && facts.directory_ready && facts.declared_vault is None
            && facts.durable is Some && facts.durable->0.discovery is Some
            && facts.durable->0.key is Some && facts.durable->0.key->0@.len() == 32
            && ed25519_is_public_key(ed25519_public_key(facts.durable->0.key->0@))
            && ed25519_public_key(facts.durable->0.key->0@)
            == facts.durable->0.discovery->0.pairing_verifier@
            && facts.durable->0.answers.workspace_id && facts.durable->0.answers.principal_id
            && facts.durable->0.manifest is None ==> configurable(facts, catalog),
{
}

/// A declared vault is the one that is mounted. Without one the default vault is: writable, with both
/// scopes and no exclusions, at the default root.
pub proof fn law_the_declared_vault_comes_first(
    facts: ConfigurationFacts,
    vault: Option<VaultProviderConfig>,
)
    requires
        chosen_vault(facts, vault),
    ensures
        facts.declared_vault matches Some(Ok(Some(declared))) ==> vault == Some(declared),
        !(facts.declared_vault matches Some(Ok(Some(_)))) && facts.default_vault_root is None
            ==> vault is None,
        !(facts.declared_vault matches Some(Ok(Some(_)))) && vault is Some ==> {
            &&& facts.default_vault_root matches Some(root)
            &&& vault->0.root_text() == root@
            &&& vault->0.provider() == "markdown-vault"@
            &&& vault->0.posture() == VaultProviderMode::ReadWrite
            &&& vault->0.in_scope(ProviderResourceKind::Knowledge)
            &&& vault->0.in_scope(ProviderResourceKind::Task)
            &&& vault->0.exclusion_list().len() == 0
            &&& facts.default_provider_accepted
        },
{
}

/// A client is shown as it is configured: its principal, its key, its grants and its subject.
pub proof fn law_clients_show_what_is_configured(clients: Seq<RemoteClientConfig>, i: int)
    requires
        0 <= i < clients.len(),
    ensures
        client_views(clients).len() == clients.len(),
        client_views(clients)[i].principal_id == clients[i].principal_id,
        client_views(clients)[i].pairing_verifier == clients[i].pairing_verifier@,
        client_views(clients)[i].bootstrap_grants == clients[i].bootstrap_grants@,
        client_views(clients)[i].subject == clients[i].subject@,
{
}

} // verus!
