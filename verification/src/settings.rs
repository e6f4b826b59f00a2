//! Local settings: the non-secret sections of `cortexd.toml`, and the profiles and the vault that
//! they declare. No section can hold a raw credential.
use crate::error::ApplicationError;
use crate::json::{member_of, occurrences, Json, JsonModel};
use crate::payloads::opt_view;
use crate::settings_schema::{
    daemon_keys, daemon_value, file_keys, file_value, models_keys, models_value, section_fields,
    DaemonSectionModel, ModelsSectionModel, SettingsFileModel,
};
use crate::text::same_text;
use crate::vault::{
    config_error, patterns, valid_exclusion, PathNotation, VaultConfigError, VaultExclusion,
    VaultProviderConfig, VaultProviderMode, VaultScope,
};
use crate::vault_provider::views;
use vstd::prelude::*;

verus! {

/// The commented template that documents every supported non-secret key.
pub const TEMPLATE: &'static str = r#"# cortexd.toml - non-secret local Cortex settings.
# Loaded by cortexd at startup from this data directory. Absent file means
# defaults. Credentials never belong here: import provider API keys with
# `brain secret import` and reference them with `secret_ref` locators.

[daemon]
# SQLite database file name, relative to this directory. Default: cortex.db
#database = "cortex.db"
# Local IPC endpoint name. Default: generated per workspace.
#endpoint = "cortexd-local"

[models]
# Provider profile used for agent/chat inference. Resolved at runtime through
# the capability-aware model router; a missing or ineligible profile leaves
# the daemon explicitly degraded (no silent fallback).
#default_profile = "nim"

# One table per provider profile, keyed by profile id. Optional typed keys:
# api_mode ("openai_completions"), auth_type ("none" | "secret_ref"), per-phase
# timeouts in milliseconds (connect_timeout_ms, request_timeout_ms,
# stale_stream_timeout_ms), a declared model allowlist ("models"), where the
# served models come from (model_source: "discovered" asks the provider,
# "configured" takes the allowlist), and typed "quirks" (omit_tool_choice).
# Unknown keys — including any raw credential field — are rejected at startup.
#[models.profiles.nim]
#base_url = "https://integrate.api.nvidia.com/v1"
#enabled = true
#secret_ref = "keyring:cortexd/nim"
#auth_type = "secret_ref"
#request_timeout_ms = 5000

#[vault]
# The authoritative local Markdown vault provider (v0.2). Declares exactly
# one local root, the allowed logical scopes, bounded vault-relative
# exclusions, and an explicit provider mode. No credentials or sync
# settings belong here. The root must exist and be a directory at startup.
#provider_id = "markdown-vault"
#root = "C:\\Users\\me\\Documents\\Vault"
#mode = "read_only"
#scopes = ["knowledge", "task"]
#exclusions = [".obsidian", "archive"]
"#;

/// How long each phase of a profile's requests may take where nothing is declared.
pub const DEFAULT_TIMEOUT_MILLIS: u64 = 5000;

/// Why local settings are refused. The error never holds a value, because those must never hold
/// credentials.
#[derive(Clone, Copy, Debug, PartialEq, Eq)]
pub enum SettingsError {
    Invalid {
        /// Coarse field name for diagnostics; never a value.
        field: &'static str,
    },
}

impl SettingsError {
    /// The error names `field`.
    pub open spec fn names(self, field: Seq<char>) -> bool {
        self matches SettingsError::Invalid { field: named } && named@ == field
    }

    /// The diagnostic text of the error.
    pub fn message(&self) -> (text: &'static str)
        ensures
            text@ == "invalid local settings"@,
    {
        "invalid local settings"
    }
}

/// The field that an application failure is blamed on.
pub open spec fn blamed(error: ApplicationError) -> &'static str {
    match error {
        ApplicationError::Validation { field } => field,
        _ => "secret_ref",
    }
}

impl vstd::std_specs::convert::FromSpecImpl<ApplicationError> for SettingsError {
    open spec fn obeys_from_spec() -> bool {
        true
    }

    open spec fn from_spec(error: ApplicationError) -> SettingsError {
        SettingsError::Invalid { field: blamed(error) }
    }
}

impl From<ApplicationError> for SettingsError {
    fn from(error: ApplicationError) -> SettingsError {
        match error {
            ApplicationError::Validation { field } => SettingsError::Invalid { field },
            _ => SettingsError::Invalid { field: "secret_ref" },
        }
    }
}

/// The settings failure that a vault failure is reported as.
pub fn settings_error_from_vault(error: VaultConfigError) -> (reported: SettingsError)
    ensures
        reported == (match error {
            VaultConfigError::Invalid { field } => SettingsError::Invalid { field },
            VaultConfigError::RootInaccessible => SettingsError::Invalid { field: "vault_root" },
        }),
{
    match error {
        VaultConfigError::Invalid { field } => SettingsError::Invalid { field },
        VaultConfigError::RootInaccessible => SettingsError::Invalid { field: "vault_root" },
    }
}

/// The `[daemon]` section.
#[derive(Debug, PartialEq, Eq)]
pub struct DaemonSection {
    pub database: Option<String>,
    pub endpoint: Option<String>,
}

/// The `[vault]` section.
#[derive(Debug, PartialEq, Eq)]
pub struct VaultSection {
    pub provider_id: String,
    pub root: String,
    pub mode: VaultProviderMode,
    pub scopes: Vec<String>,
    pub exclusions: Vec<String>,
}

/// The wire protocol that a profile speaks.
#[derive(Clone, Copy, Debug, PartialEq, Eq, Structural)]
pub enum ApiMode {
    OpenAiCompletions,
}

/// How a profile's requests are authenticated.
#[derive(Clone, Copy, Debug, PartialEq, Eq, Structural)]
pub enum AuthStrategy {
    /// No credential at all.
    Keyless,
    /// The credential that a locator leads to.
    SecretRef,
}

/// Where the models of a profile come from.
#[derive(Clone, Copy, Debug, PartialEq, Eq, Structural)]
pub enum ModelSource {
    /// The provider is asked.
    Discovered,
    /// The settings list them.
    Configured,
}

/// One provider profile as the settings declare it.
#[derive(Debug, PartialEq, Eq)]
pub struct ModelProfileEntry {
    pub base_url: String,
    pub enabled: bool,
    pub secret_ref: Option<String>,
    pub api_mode: ApiMode,
    pub auth_type: Option<AuthStrategy>,
    pub connect_timeout_ms: Option<u64>,
    pub request_timeout_ms: Option<u64>,
    pub stale_stream_timeout_ms: Option<u64>,
    pub models: Vec<String>,
    pub model_source: ModelSource,
    pub omit_tool_choice: bool,
}

/// Whether a profile that does not say so is enabled.
pub fn enabled_by_default() -> (enabled: bool)
    ensures
        enabled,
{
    true
}

/// The `[models]` section. Profiles are listed in the order of their identifiers.
#[derive(Debug, PartialEq, Eq)]
pub struct ModelsSection {
    pub default_profile: Option<String>,
    pub profiles: Option<Vec<(String, ModelProfileEntry)>>,
}

/// The sections of a settings file.
#[derive(Debug, PartialEq, Eq)]
pub struct SettingsFile {
    pub daemon: Option<DaemonSection>,
    pub models: Option<ModelsSection>,
    pub vault: Option<VaultSection>,
}

/// How long each phase of a profile's requests may take.
#[derive(Clone, Copy, Debug, PartialEq, Eq, Structural)]
pub struct ProfileTimeouts {
    pub connect_millis: u64,
    pub request_millis: u64,
    pub stale_stream_millis: u64,
}

/// What was declared, or the default.
pub open spec fn declared_or_default(declared: Option<u64>) -> u64 {
    match declared {
        Some(millis) => millis,
        None => DEFAULT_TIMEOUT_MILLIS,
    }
}

/// The timeouts of a profile, or nothing where one of them is zero.
pub open spec fn timeouts_of(entry: ModelProfileEntry) -> Option<ProfileTimeouts> {
    let timeouts = ProfileTimeouts {
        connect_millis: declared_or_default(entry.connect_timeout_ms),
        request_millis: declared_or_default(entry.request_timeout_ms),
        stale_stream_millis: declared_or_default(entry.stale_stream_timeout_ms),
    };
    if timeouts.connect_millis == 0 || timeouts.request_millis == 0 || timeouts.stale_stream_millis
        == 0 {
        None
    } else {
        Some(timeouts)
    }
}

fn or_default(declared: Option<u64>) -> (millis: u64)
    ensures
        millis == declared_or_default(declared),
{
    match declared {
        Some(millis) => millis,
        None => DEFAULT_TIMEOUT_MILLIS,
    }
}

/// The timeouts of a profile. A timeout of zero is refused.
pub fn profile_timeouts(entry: &ModelProfileEntry) -> (timeouts: Result<
    ProfileTimeouts,
    SettingsError,
>)
    ensures
        match timeouts {
            Ok(timeouts) => timeouts_of(*entry) == Some(timeouts),
            Err(error) => timeouts_of(*entry) is None && error.names("timeouts"@),
        },
{
    let timeouts = ProfileTimeouts {
        connect_millis: or_default(entry.connect_timeout_ms),
        request_millis: or_default(entry.request_timeout_ms),
        stale_stream_millis: or_default(entry.stale_stream_timeout_ms),
    };
    if timeouts.connect_millis == 0 || timeouts.request_millis == 0 || timeouts.stale_stream_millis
        == 0 {
        return Err(SettingsError::Invalid { field: "timeouts" });
    }
    Ok(timeouts)
}

/// A validated provider profile.
#[derive(Debug, PartialEq, Eq)]
pub struct ProviderProfile {
    pub id: String,
    pub enabled: bool,
    pub secret_reference: Option<String>,
    pub api_mode: ApiMode,
    pub auth_strategy: AuthStrategy,
    pub timeouts: ProfileTimeouts,
    pub declared_models: Vec<String>,
    pub model_source: ModelSource,
    pub omit_tool_choice: bool,
}

/// What a profile says.
pub struct ProfileModel {
    pub id: Seq<char>,
    pub enabled: bool,
    pub secret_reference: Option<Seq<char>>,
    pub api_mode: ApiMode,
    pub auth_strategy: AuthStrategy,
    pub timeouts: ProfileTimeouts,
    pub declared_models: Seq<Seq<char>>,
    pub model_source: ModelSource,
    pub omit_tool_choice: bool,
}

impl View for ProviderProfile {
    type V = ProfileModel;

    open spec fn view(&self) -> ProfileModel {
        ProfileModel {
            id: self.id@,
            enabled: self.enabled,
            secret_reference: opt_view(self.secret_reference),
            api_mode: self.api_mode,
            auth_strategy: self.auth_strategy,
            timeouts: self.timeouts,
            declared_models: views(self.declared_models@),
            model_source: self.model_source,
            omit_tool_choice: self.omit_tool_choice,
        }
    }
}

/// What the profiles say, in order.
pub open spec fn profile_views(profiles: Seq<ProviderProfile>) -> Seq<ProfileModel> {
    profiles.map_values(|profile: ProviderProfile| profile@)
}

/// What the inference port says of one declared profile: whether it accepts the identifier, the
/// credential locator where there is one, each declared model, and the profile as a whole.
#[derive(Debug, PartialEq, Eq)]
pub struct ProfileAnswers {
    pub id: Result<(), ApplicationError>,
    pub secret: Result<(), ApplicationError>,
    pub models: Vec<Result<(), ApplicationError>>,
    pub profile: Result<(), ApplicationError>,
}

/// The strategy that a profile declares or, where it declares none, that its locator implies; the
/// strategy and the presence of a locator have to agree.
pub open spec fn strategy_of(entry: ModelProfileEntry) -> Option<AuthStrategy> {
    match (entry.auth_type, entry.secret_ref) {
        (None, Some(_)) => Some(AuthStrategy::SecretRef),
        (None, None) => Some(AuthStrategy::Keyless),
        (Some(AuthStrategy::SecretRef), Some(_)) => Some(AuthStrategy::SecretRef),
        (Some(AuthStrategy::Keyless), None) => Some(AuthStrategy::Keyless),
        _ => None,
    }
}

/// The first refusal among the answers.
pub open spec fn first_refusal(answers: Seq<Result<(), ApplicationError>>) -> Option<ApplicationError>
    decreases answers.len(),
{
    if answers.len() == 0 {
        None
    } else {
        match answers[0] {
            Err(error) => Some(error),
            Ok(_) => first_refusal(answers.drop_first()),
        }
    }
}

/// The profile that an entry declares, or the field that it fails on.
pub open spec fn declared_profile(id: Seq<char>, entry: ModelProfileEntry, answers: ProfileAnswers) -> Result<
    ProfileModel,
    Seq<char>,
> {
    if answers.id is Err {
        Err(blamed(answers.id->Err_0)@)
    } else if entry.secret_ref is Some && answers.secret is Err {
        Err(blamed(answers.secret->Err_0)@)
    } else if strategy_of(entry) is None {
        Err("auth_type"@)
    } else if timeouts_of(entry) is None {
        Err("timeouts"@)
    } else if first_refusal(answers.models@) is Some {
        Err(blamed(first_refusal(answers.models@)->0)@)
    } else if entry.model_source == ModelSource::Configured && entry.models@.len() == 0 {
        Err("configured_models"@)
    } else if answers.profile is Err {
        Err(blamed(answers.profile->Err_0)@)
    } else {
        Ok(
            ProfileModel {
                id,
                enabled: entry.enabled,
                secret_reference: opt_view(entry.secret_ref),
                api_mode: entry.api_mode,
                auth_strategy: strategy_of(entry)->0,
                timeouts: timeouts_of(entry)->0,
                declared_models: views(entry.models@),
                model_source: entry.model_source,
                omit_tool_choice: entry.omit_tool_choice,
            },
        )
    }
}

/// The profiles that the first entries declare, or the field that the first invalid one fails on.
pub open spec fn declared_profiles(
    entries: Seq<(String, ModelProfileEntry)>,
    answers: Seq<ProfileAnswers>,
    n: nat,
) -> Result<Seq<ProfileModel>, Seq<char>>
    decreases n,
{
    if n == 0 {
        Ok(Seq::empty())
    } else {
        match declared_profiles(entries, answers, (n - 1) as nat) {
            Err(field) => Err(field),
            Ok(earlier) => match declared_profile(
                entries[n - 1].0@,
                entries[n - 1].1,
                answers[n - 1],
            ) {
                Err(field) => Err(field),
                Ok(profile) => Ok(earlier.push(profile)),
            },
        }
    }
}

proof fn lemma_declared_profiles_stop(
    entries: Seq<(String, ModelProfileEntry)>,
    answers: Seq<ProfileAnswers>,
    n: nat,
    m: nat,
)
    requires
        n <= m,
        declared_profiles(entries, answers, n) is Err,
    ensures
        declared_profiles(entries, answers, m) == declared_profiles(entries, answers, n),
    decreases m - n,
{
    if n < m {
        lemma_declared_profiles_stop(entries, answers, n, (m - 1) as nat);
    }
}

fn refusal(answers: &Vec<Result<(), ApplicationError>>) -> (found: Option<ApplicationError>)
    ensures
        found == first_refusal(answers@),
{
    let mut i: usize = 0;
    assert(answers@.subrange(0, answers@.len() as int) =~= answers@);
    while i < answers.len()
        invariant
            i <= answers@.len(),
            first_refusal(answers@) == first_refusal(
                answers@.subrange(i as int, answers@.len() as int),
            ),
        decreases answers@.len() - i,
    {
        let ghost rest = answers@.subrange(i as int, answers@.len() as int);
        assert(rest[0] == answers@[i as int]);
        assert(rest.drop_first() =~= answers@.subrange(i + 1, answers@.len() as int));
        match &answers[i] {
            Err(error) => {
                return Some(*error);
            },
            Ok(_) => {},
        }
        i += 1;
    }
    None
}

fn copy_texts(texts: &Vec<String>) -> (copies: Vec<String>)
    ensures
        views(copies@) == views(texts@),
{
    let mut copies: Vec<String> = Vec::new();
    let mut i: usize = 0;
    while i < texts.len()
        invariant
            i <= texts@.len(),
            copies@ == texts@.subrange(0, i as int),
        decreases texts@.len() - i,
    {
        copies.push(texts[i].clone());
        assert(copies@ =~= texts@.subrange(0, i + 1));
        i += 1;
    }
    assert(copies@ =~= texts@);
    copies
}

/// Copies an optional text.
pub fn copy_optional(text: &Option<String>) -> (copy: Option<String>)
    ensures
        copy == *text,
{
    match text {
        Some(text) => Some(text.clone()),
        None => None,
    }
}

/// Builds one profile. The strategy that is declared and the presence of a locator have to agree.
pub fn provider_profile(id: &str, entry: &ModelProfileEntry, answers: &ProfileAnswers) -> (profile: Result<
    ProviderProfile,
    SettingsError,
>)
    ensures
        match profile {
            Ok(profile) => declared_profile(id@, *entry, *answers) == Ok::<ProfileModel, Seq<char>>(
                profile@,
            ),
            Err(error) => declared_profile(id@, *entry, *answers) matches Err(field) && error.names(
                field,
            ),
        },
{
    match &answers.id {
        Err(error) => {
            return Err(SettingsError::from(*error));
        },
        Ok(_) => {},
    }
    if entry.secret_ref.is_some() {
        match &answers.secret {
            Err(error) => {
                return Err(SettingsError::from(*error));
            },
            Ok(_) => {},
        }
    }
    let wants_secret = match entry.auth_type {
        None => entry.secret_ref.is_some(),
        Some(AuthStrategy::SecretRef) => true,
        Some(AuthStrategy::Keyless) => false,
    };
    let auth_strategy = match (wants_secret, entry.secret_ref.is_some()) {
        (true, true) => AuthStrategy::SecretRef,
        (false, false) => AuthStrategy::Keyless,
        _ => {
            return Err(SettingsError::Invalid { field: "auth_type" });
        },
    };
    let timeouts = match profile_timeouts(entry) {
        Ok(timeouts) => timeouts,
        Err(error) => {
            return Err(error);
        },
    };
    match refusal(&answers.models) {
        Some(error) => {
            return Err(SettingsError::from(error));
        },
        None => {},
    }
    if entry.model_source == ModelSource::Configured && entry.models.len() == 0 {
        return Err(SettingsError::Invalid { field: "configured_models" });
    }
    match &answers.profile {
        Err(error) => {
            return Err(SettingsError::from(*error));
        },
        Ok(_) => {},
    }
    Ok(
        ProviderProfile {
            id: id.to_owned(),
            enabled: entry.enabled,
            secret_reference: copy_optional(&entry.secret_ref),
            api_mode: entry.api_mode,
            auth_strategy,
            timeouts,
            declared_models: copy_texts(&entry.models),
            model_source: entry.model_source,
            omit_tool_choice: entry.omit_tool_choice,
        },
    )
}

/// No text twice.
pub open spec fn distinct(texts: Seq<Seq<char>>) -> bool {
    texts.no_duplicates()
}

/// Every text is a scope.
pub open spec fn all_scopes(texts: Seq<Seq<char>>) -> bool {
    forall|i: int|
        0 <= i < texts.len() ==> (#[trigger] texts[i] == "knowledge"@ || texts[i] == "task"@)
}

/// Every text is a valid exclusion.
pub open spec fn all_exclusions(notation: PathNotation, texts: Seq<Seq<char>>) -> bool {
    forall|i: int| 0 <= i < texts.len() ==> valid_exclusion(notation, #[trigger] texts[i])
}

/// The field on which a vault declaration fails, if it fails. `provider_accepted` says whether the
/// identity port takes the declared provider.
pub open spec fn vault_field(
    section: VaultSection,
    notation: PathNotation,
    provider_accepted: bool,
) -> Option<Seq<char>> {
    let scopes = views(section.scopes@);
    let exclusions = views(section.exclusions@);
    if !all_scopes(scopes) || !distinct(scopes) {
        Some("scopes"@)
    } else if !all_exclusions(notation, exclusions) || !distinct(exclusions) {
        Some("exclusions"@)
    } else {
        config_error(
            section.provider_id@,
            provider_accepted,
            section.root@,
            scopes.len(),
            exclusions.len(),
        )
    }
}

/// The configuration is what the section declares.
pub open spec fn mounts(config: VaultProviderConfig, section: VaultSection) -> bool {
    &&& config.wf()
    &&& config.provider() == section.provider_id@
    &&& config.root_text() == section.root@
    &&& config.posture() == section.mode
    &&& config.scope_list().len() == section.scopes@.len()
    &&& forall|i: int|
        0 <= i < section.scopes@.len() ==> (#[trigger] config.scope_list()[i]).of() == (
        if section.scopes@[i]@ == "knowledge"@ {
            crate::ids::ProviderResourceKind::Knowledge
        } else {
            crate::ids::ProviderResourceKind::Task
        })
    &&& patterns(config.exclusion_list()) == views(section.exclusions@)
}

/// Reads the scopes of a vault declaration.
fn declared_scopes(texts: &Vec<String>) -> (scopes: Result<Vec<VaultScope>, SettingsError>)
    ensures
        match scopes {
            Ok(scopes) => ({
                &&& all_scopes(views(texts@)) && distinct(views(texts@))
                &&& scopes@.no_duplicates()
                &&& scopes@.len() == texts@.len()
                &&& forall|i: int|
                    0 <= i < texts@.len() ==> (#[trigger] scopes@[i]).of() == (
                    if texts@[i]@ == "knowledge"@ {
                        crate::ids::ProviderResourceKind::Knowledge
                    } else {
                        crate::ids::ProviderResourceKind::Task
                    })
            }),
            Err(error) => (!all_scopes(views(texts@)) || !distinct(views(texts@))) && error.names(
                "scopes"@,
            ),
        },
{
    let ghost all = views(texts@);
    let mut scopes: Vec<VaultScope> = Vec::new();
    let mut i: usize = 0;
    while i < texts.len()
        invariant
            i <= texts@.len(),
            all == views(texts@),
            scopes@.len() == i,
            scopes@.no_duplicates(),
            forall|j: int|
                0 <= j < i ==> (#[trigger] all[j] == "knowledge"@ || all[j] == "task"@),
            forall|j: int, k: int| 0 <= j < k < i ==> #[trigger] all[j] != #[trigger] all[k],
            forall|j: int|
                0 <= j < i ==> (#[trigger] scopes@[j]).of() == (if all[j] == "knowledge"@ {
                    crate::ids::ProviderResourceKind::Knowledge
                } else {
                    crate::ids::ProviderResourceKind::Task
                }),
        decreases texts@.len() - i,
    {
        assert(all[i as int] == texts@[i as int]@);
        let scope = match VaultScope::new(texts[i].as_str()) {
            Ok(scope) => scope,
            Err(error) => {
                return Err(settings_error_from_vault(error));
            },
        };
        let mut k: usize = 0;
        while k < scopes.len()
            invariant
                k <= scopes@.len(),
                scopes@.len() == i,
                i < texts@.len(),
                all == views(texts@),
                scope.of() == (if all[i as int] == "knowledge"@ {
                    crate::ids::ProviderResourceKind::Knowledge
                } else {
                    crate::ids::ProviderResourceKind::Task
                }),
                all[i as int] == "knowledge"@ || all[i as int] == "task"@,
                forall|j: int|
                    0 <= j < i ==> (#[trigger] all[j] == "knowledge"@ || all[j] == "task"@),
                forall|j: int|
                    0 <= j < i ==> (#[trigger] scopes@[j]).of() == (if all[j] == "knowledge"@ {
                        crate::ids::ProviderResourceKind::Knowledge
                    } else {
                        crate::ids::ProviderResourceKind::Task
                    }),
                forall|j: int| 0 <= j < k ==> (#[trigger] scopes@[j]).of() != scope.of(),
            decreases scopes@.len() - k,
        {
            if scopes[k].resource_kind() == scope.resource_kind() {
                proof {
                    assert(scopes@[k as int].of() == scope.of());
                    assert(all[k as int] == all[i as int]);
                    assert(!distinct(all));
                }
                return Err(SettingsError::Invalid { field: "scopes" });
            }
            k += 1;
        }
        assert forall|j: int| 0 <= j < i implies all[j] != all[i as int] by {
            assert(scopes@[j].of() != scope.of());
        }
        scopes.push(scope);
        i += 1;
    }
    Ok(scopes)
}

/// Reads the exclusions of a vault declaration.
fn declared_exclusions(texts: &Vec<String>, notation: PathNotation) -> (exclusions: Result<
    Vec<VaultExclusion>,
    SettingsError,
>)
    ensures
        match exclusions {
            Ok(exclusions) => ({
                &&& all_exclusions(notation, views(texts@)) && distinct(views(texts@))
                &&& patterns(exclusions@) == views(texts@)
            }),
            Err(error) => (!all_exclusions(notation, views(texts@)) || !distinct(views(texts@)))
                && error.names("exclusions"@),
        },
{
    let ghost all = views(texts@);
    let mut exclusions: Vec<VaultExclusion> = Vec::new();
    let mut i: usize = 0;
    while i < texts.len()
        invariant
            i <= texts@.len(),
            all == views(texts@),
            exclusions@.len() == i,
            forall|j: int| 0 <= j < i ==> (#[trigger] exclusions@[j])@ == all[j],
            forall|j: int| 0 <= j < i ==> valid_exclusion(notation, #[trigger] all[j]),
            forall|j: int, k: int| 0 <= j < k < i ==> #[trigger] all[j] != #[trigger] all[k],
        decreases texts@.len() - i,
    {
        assert(all[i as int] == texts@[i as int]@);
        let exclusion = match VaultExclusion::new(texts[i].as_str(), notation) {
            Ok(exclusion) => exclusion,
            Err(error) => {
                return Err(settings_error_from_vault(error));
            },
        };
        let mut k: usize = 0;
        while k < exclusions.len()
            invariant
                k <= exclusions@.len(),
                exclusions@.len() == i,
                i < texts@.len(),
                all == views(texts@),
                exclusion@ == all[i as int],
                forall|j: int| 0 <= j < i ==> (#[trigger] exclusions@[j])@ == all[j],
                forall|j: int| 0 <= j < k ==> #[trigger] all[j] != all[i as int],
            decreases exclusions@.len() - k,
        {
            if same_text(exclusions[k].as_str(), exclusion.as_str()) {
                proof {
                    assert(exclusions@[k as int]@ == all[k as int]);
                    assert(all[k as int] == all[i as int]);
                    assert(!distinct(all));
                }
                return Err(SettingsError::Invalid { field: "exclusions" });
            }
            assert(exclusions@[k as int]@ == all[k as int]);
            k += 1;
        }
        exclusions.push(exclusion);
        i += 1;
    }
    assert(patterns(exclusions@) =~= all);
    Ok(exclusions)
}

/// The entry of a profile, in the first entry with the identifier.
pub open spec fn entry_of(entries: Seq<(String, ModelProfileEntry)>, id: Seq<char>) -> Option<
    ModelProfileEntry,
>
    decreases entries.len(),
{
    if entries.len() == 0 {
        None
    } else if entries[0].0@ == id {
        Some(entries[0].1)
    } else {
        entry_of(entries.drop_first(), id)
    }
}

/// Local settings. What the file leaves out stands at its default.
pub struct LocalSettings {
    daemon: DaemonSection,
    models: ModelsSection,
    vault: Option<VaultSection>,
}

impl LocalSettings {
    /// The `[daemon]` section.
    pub closed spec fn daemon_section(self) -> DaemonSection {
        self.daemon
    }

    /// The `[models]` section.
    pub closed spec fn models_section(self) -> ModelsSection {
        self.models
    }

    /// The `[vault]` section.
    pub closed spec fn vault_section(self) -> Option<VaultSection> {
        self.vault
    }

    /// The declared profiles.
    pub open spec fn entries(self) -> Seq<(String, ModelProfileEntry)> {
        match self.models_section().profiles {
            Some(profiles) => profiles@,
            None => Seq::empty(),
        }
    }

    /// The answers are for the declared profiles, one for each model that a profile declares.
    pub open spec fn answered(self, answers: Seq<ProfileAnswers>) -> bool {
        &&& answers.len() == self.entries().len()
        &&& forall|i: int|
            0 <= i < answers.len() ==> (#[trigger] answers[i]).models@.len()
                == self.entries()[i].1.models@.len()
    }

    /// The profiles that the settings declare, or the field that fails.
    pub open spec fn profiles(self, answers: Seq<ProfileAnswers>) -> Result<
        Seq<ProfileModel>,
        Seq<char>,
    > {
        declared_profiles(self.entries(), answers, self.entries().len())
    }

    /// The settings that a file stands for.
    pub open spec fn stand_for(self, file: SettingsFileModel) -> bool {
        &&& self.daemon_section()@ == match file.daemon {
            Some(daemon) => daemon,
            None => DaemonSectionModel { database: None, endpoint: None },
        }
        &&& self.models_section()@ == match file.models {
            Some(models) => models,
            None => ModelsSectionModel { default_profile: None, profiles: None },
        }
        &&& match (self.vault_section(), file.vault) {
            (Some(mine), Some(declared)) => mine@ == declared,
            (None, None) => true,
            _ => false,
        }
    }

    /// The settings of a file. Sections that are absent are empty.
    pub fn from_file(file: SettingsFile) -> (settings: Self)
        ensures
            match file.daemon {
                Some(daemon) => settings.daemon_section() == daemon,
                None => settings.daemon_section().database is None
                    && settings.daemon_section().endpoint is None,
            },
            match file.models {
                Some(models) => settings.models_section() == models,
                None => settings.models_section().default_profile is None
                    && settings.models_section().profiles is None,
            },
            settings.vault_section() == file.vault,
            settings.stand_for(file@),
    {
        let daemon = match file.daemon {
            Some(daemon) => daemon,
            None => DaemonSection { database: None, endpoint: None },
        };
        let models = match file.models {
            Some(models) => models,
            None => ModelsSection { default_profile: None, profiles: None },
        };
        LocalSettings { daemon, models, vault: file.vault }
    }

    /// Loads the settings from what stands at their path: nothing, something that cannot be read
    /// as a document, or a document. Without a file there are no settings; a document with a key
    /// that the schema does not know, or a value of another shape, is refused.
    pub fn load(document: Option<Result<Json, ()>>) -> (settings: Result<
        Option<Self>,
        SettingsError,
    >)
        ensures
            match (document, settings) {
                (None, Ok(None)) => true,
                (Some(Err(_)), Err(error)) => error.names("file"@),
                (Some(Ok(document)), Err(error)) => {
                    file_value(document@) is None && error.names("file"@)
                },
                (Some(Ok(document)), Ok(Some(settings))) => {
                    file_value(document@) matches Some(file) && settings.stand_for(file)
                },
                _ => false,
            },
    {
        match document {
            None => Ok(None),
            Some(Err(_)) => Err(SettingsError::Invalid { field: "file" }),
            Some(Ok(document)) => match SettingsFile::decode(&document) {
                Some(file) => Ok(Some(Self::from_file(file))),
                None => Err(SettingsError::Invalid { field: "file" }),
            },
        }
    }

    /// Commented template documenting every supported non-secret key.
    pub fn template() -> (text: &'static str)
        ensures
            text == TEMPLATE,
    {
        TEMPLATE
    }

    /// Daemon endpoint name from `[daemon] endpoint`.
    pub fn endpoint_override(&self) -> (name: Option<&str>)
        ensures
            match name {
                Some(name) => opt_view(self.daemon_section().endpoint) == Some(name@),
                None => self.daemon_section().endpoint is None,
            },
    {
        match &self.daemon.endpoint {
            Some(name) => Some(name.as_str()),
            None => None,
        }
    }

    /// Database file name from `[daemon] database`, relative to the data directory.
    pub fn database_override(&self) -> (name: Option<&str>)
        ensures
            match name {
                Some(name) => opt_view(self.daemon_section().database) == Some(name@),
                None => self.daemon_section().database is None,
            },
    {
        match &self.daemon.database {
            Some(name) => Some(name.as_str()),
            None => None,
        }
    }

    /// The declared profiles with their identifiers, where any are declared.
    pub fn profile_entries(&self) -> (entries: Option<&Vec<(String, ModelProfileEntry)>>)
        ensures
            match entries {
                Some(entries) => self.models_section().profiles == Some(*entries) && entries@
                    == self.entries(),
                None => self.models_section().profiles is None,
            },
    {
        match &self.models.profiles {
            Some(entries) => Some(entries),
            None => None,
        }
    }

    /// Default provider profile from `[models] default_profile`.
    pub fn default_profile_id(&self) -> (id: Option<&str>)
        ensures
            match id {
                Some(id) => opt_view(self.models_section().default_profile) == Some(id@),
                None => self.models_section().default_profile is None,
            },
    {
        match &self.models.default_profile {
            Some(id) => Some(id.as_str()),
            None => None,
        }
    }

    /// Builds the declared profiles, in the order of their identifiers. The first entry that is
    /// invalid decides the failure.
    pub fn provider_profiles(&self, answers: &Vec<ProfileAnswers>) -> (profiles: Result<
        Vec<ProviderProfile>,
        SettingsError,
    >)
        requires
            self.answered(answers@),
        ensures
            match profiles {
                Ok(profiles) => self.profiles(answers@) == Ok::<Seq<ProfileModel>, Seq<char>>(
                    profile_views(profiles@),
                ),
                Err(error) => self.profiles(answers@) matches Err(field) && error.names(field),
            },
    {
        let mut profiles: Vec<ProviderProfile> = Vec::new();
        assert(profile_views(profiles@) =~= Seq::<ProfileModel>::empty());
        match &self.models.profiles {
            None => Ok(profiles),
            Some(entries) => {
                let mut i: usize = 0;
                while i < entries.len()
                    invariant
                        i <= entries@.len(),
                        self.entries() == entries@,
                        self.answered(answers@),
                        declared_profiles(entries@, answers@, i as nat) == Ok::<
                            Seq<ProfileModel>,
                            Seq<char>,
                        >(profile_views(profiles@)),
                    decreases entries@.len() - i,
                {
                    match provider_profile(entries[i].0.as_str(), &entries[i].1, &answers[i]) {
                        Ok(profile) => {
                            let ghost before = profiles@;
                            profiles.push(profile);
                            assert(profile_views(profiles@) =~= profile_views(before).push(
                                profile@,
                            ));
                        },
                        Err(error) => {
                            proof {
                                lemma_declared_profiles_stop(
                                    entries@,
                                    answers@,
                                    (i + 1) as nat,
                                    entries@.len(),
                                );
                            }
                            return Err(error);
                        },
                    }
                    i += 1;
                }
                Ok(profiles)
            },
        }
    }

    /// Builds the vault configuration from the `[vault]` section, or nothing where there is none.
    /// `provider_accepted` is what the identity port answers for the declared provider.
    pub fn vault_config(&self, notation: PathNotation, provider_accepted: bool) -> (config: Result<
        Option<VaultProviderConfig>,
        SettingsError,
    >)
        ensures
            match (self.vault_section(), config) {
                (None, Ok(None)) => true,
                (Some(section), Ok(Some(config))) => vault_field(
                    section,
                    notation,
                    provider_accepted,
                ) is None && mounts(config, section),
                (Some(section), Err(error)) => vault_field(section, notation, provider_accepted)
                    matches Some(field) && error.names(field),
                _ => false,
            },
    {
        let section = match &self.vault {
            None => {
                return Ok(None);
            },
            Some(section) => section,
        };
        let scopes = match declared_scopes(&section.scopes) {
            Ok(scopes) => scopes,
            Err(error) => {
                return Err(error);
            },
        };
        let exclusions = match declared_exclusions(&section.exclusions, notation) {
            Ok(exclusions) => exclusions,
            Err(error) => {
                return Err(error);
            },
        };
        assert(patterns(exclusions@).len() == exclusions@.len());
        match VaultProviderConfig::new(
            section.provider_id.as_str(),
            provider_accepted,
            section.root.clone(),
            section.mode,
            scopes,
            exclusions,
        ) {
            Ok(config) => Ok(Some(config)),
            Err(error) => Err(settings_error_from_vault(error)),
        }
    }

    /// The provider that the `[vault]` section declares.
    pub fn vault_provider_id(&self) -> (id: Option<&str>)
        ensures
            match id {
                Some(id) => self.vault_section() matches Some(section) && section.provider_id@ == id@,
                None => self.vault_section() is None,
            },
    {
        match &self.vault {
            Some(section) => Some(section.provider_id.as_str()),
            None => None,
        }
    }

    /// Base endpoint of a profile.
    pub fn endpoint_for(&self, profile_id: &str) -> (endpoint: Option<&str>)
        ensures
            match endpoint {
                Some(endpoint) => entry_of(self.entries(), profile_id@) matches Some(entry)
                    && entry.base_url@ == endpoint@,
                None => entry_of(self.entries(), profile_id@) is None,
            },
    {
        let entries = match &self.models.profiles {
            None => {
                return None;
            },
            Some(entries) => entries,
        };
        let mut i: usize = 0;
        assert(entries@.subrange(0, entries@.len() as int) =~= entries@);
        while i < entries.len()
            invariant
                i <= entries@.len(),
                self.entries() == entries@,
                entry_of(entries@, profile_id@) == entry_of(
                    entries@.subrange(i as int, entries@.len() as int),
                    profile_id@,
                ),
            decreases entries@.len() - i,
        {
            let ghost rest = entries@.subrange(i as int, entries@.len() as int);
            assert(rest[0] == entries@[i as int]);
            assert(rest.drop_first() =~= entries@.subrange(i + 1, entries@.len() as int));
            if same_text(entries[i].0.as_str(), profile_id) {
                return Some(entries[i].1.base_url.as_str());
            }
            i += 1;
        }
        None
    }
}

/// The strategy of every profile agrees with the presence of its credential locator, and no timeout
/// is zero, whatever was declared.
pub proof fn law_profiles_are_coherent(
    entries: Seq<(String, ModelProfileEntry)>,
    answers: Seq<ProfileAnswers>,
    n: nat,
)
    requires
        n <= entries.len(),
        declared_profiles(entries, answers, n) is Ok,
    ensures
        ({
            let profiles = declared_profiles(entries, answers, n)->Ok_0;
            &&& profiles.len() == n
            &&& forall|i: int|
                0 <= i < n ==> {
                    let profile = #[trigger] profiles[i];
                    &&& profile.id == entries[i].0@
                    &&& (profile.auth_strategy == AuthStrategy::SecretRef)
                        == profile.secret_reference is Some
                    &&& profile.timeouts.connect_millis > 0
                    &&& profile.timeouts.request_millis > 0
                    &&& profile.timeouts.stale_stream_millis > 0
                    &&& profile.model_source == ModelSource::Configured
                        ==> profile.declared_models.len() > 0
                }
        }),
    decreases n,
{
    if n > 0 {
        law_profiles_are_coherent(entries, answers, (n - 1) as nat);
    }
}

/// A document that opens the `[daemon]` and `[models]` sections, or one of them, or none, and sets
/// no key: the shape of a settings file in which everything else is commented out.
pub open spec fn sets_nothing(document: JsonModel) -> bool {
    &&& document matches JsonModel::Object(members)
    &&& forall|i: int|
        0 <= i < members.len() ==> ((#[trigger] members[i]).0 == "daemon"@ || members[i].0
            == "models"@) && members[i].1 == JsonModel::Object(Seq::empty())
    &&& occurrences(members, "daemon"@) <= 1
    &&& occurrences(members, "models"@) <= 1
}

proof fn lemma_members_that_set_nothing(members: Seq<(Seq<char>, JsonModel)>, name: Seq<char>)
    requires
        forall|i: int|
            0 <= i < members.len() ==> (#[trigger] members[i]).1 == JsonModel::Object(Seq::empty()),
    ensures
        member_of(members, name) matches Some(json) ==> json == JsonModel::Object(Seq::empty()),
        (forall|i: int| 0 <= i < members.len() ==> (#[trigger] members[i]).0 != name)
            ==> member_of(members, name) is None && occurrences(members, name) == 0,
    decreases members.len(),
{
    if members.len() > 0 {
        let front = members.drop_last();
        assert forall|i: int| 0 <= i < front.len() implies (#[trigger] front[i]).1
            == JsonModel::Object(Seq::empty()) by {
            assert(members[i].1 == JsonModel::Object(Seq::empty()));
        }
        lemma_members_that_set_nothing(front, name);
        assert(members[members.len() - 1] == members.last());
        if forall|i: int| 0 <= i < members.len() ==> (#[trigger] members[i]).0 != name {
            assert forall|i: int| 0 <= i < front.len() implies (#[trigger] front[i]).0 != name by {
                assert(members[i].0 != name);
            }
        }
    }
}

/// A settings file that sets no key loads, and leaves everything at its default: no endpoint, no
/// database, no default profile, no profiles, no vault.
pub proof fn law_a_file_that_sets_nothing_loads_as_defaults(
    document: JsonModel,
    settings: LocalSettings,
)
    requires
        sets_nothing(document),
    ensures
        file_value(document) matches Some(file) && (settings.stand_for(file) ==> {
            &&& settings.daemon_section().endpoint is None
            &&& settings.daemon_section().database is None
            &&& settings.models_section().default_profile is None
            &&& settings.entries() == Seq::<(String, ModelProfileEntry)>::empty()
            &&& settings.profiles(Seq::empty()) == Ok::<Seq<ProfileModel>, Seq<char>>(Seq::empty())
            &&& settings.vault_section() is None
        }),
{
    let members = document->Object_0;
    let empty = JsonModel::Object(Seq::empty());
    reveal_strlit("daemon");
    reveal_strlit("models");
    reveal_strlit("vault");
    assert("daemon"@ == file_keys()[0] && "models"@ == file_keys()[1] && "vault"@ == file_keys()[2]);
    assert("vault"@.len() == 5 && "daemon"@.len() == 6 && "models"@.len() == 6);
    lemma_members_that_set_nothing(members, "daemon"@);
    lemma_members_that_set_nothing(members, "models"@);
    lemma_members_that_set_nothing(members, "vault"@);
    assert forall|i: int| 0 <= i < members.len() implies file_keys().contains(
        (#[trigger] members[i]).0,
    ) by {
        assert(file_keys().contains(file_keys()[0]) && file_keys().contains(file_keys()[1]));
    }
    let fields = section_fields(document, file_keys(), 3);
    assert(fields is Some);
    let nothing = Seq::<(Seq<char>, JsonModel)>::empty();
    assert forall|name: Seq<char>| occurrences(nothing, name) == 0 by {}
    assert(section_fields(empty, daemon_keys(), 2) is Some);
    assert(section_fields(empty, models_keys(), 2) is Some);
    assert(daemon_value(empty) == Some(DaemonSectionModel { database: None, endpoint: None }));
    assert(models_value(empty) == Some(
        ModelsSectionModel { default_profile: None, profiles: None },
    ));
}

/// A profile is what its entry declares, member by member, and nothing that the ports refuse: a
/// timeout that the entry leaves out stands at five seconds, and the strategy is the declared one.
pub proof fn law_profiles_say_what_was_declared(
    entries: Seq<(String, ModelProfileEntry)>,
    answers: Seq<ProfileAnswers>,
    n: nat,
    i: int,
)
    requires
        0 <= i < n <= entries.len(),
        declared_profiles(entries, answers, n) is Ok,
    ensures
        ({
            let profile = declared_profiles(entries, answers, n)->Ok_0[i];
            let entry = entries[i].1;
            &&& declared_profiles(entries, answers, n)->Ok_0.len() == n
            &&& profile.id == entries[i].0@
            &&& profile.enabled == entry.enabled
            &&& entry.secret_ref matches Some(locator) ==> profile.secret_reference == Some(locator@)
            &&& entry.secret_ref is None ==> profile.secret_reference is None
            &&& profile.api_mode == entry.api_mode
            &&& entry.auth_type matches Some(declared) ==> profile.auth_strategy == declared
            &&& entry.connect_timeout_ms matches Some(millis) ==> profile.timeouts.connect_millis
                == millis
            &&& entry.connect_timeout_ms is None ==> profile.timeouts.connect_millis == 5000
            &&& entry.request_timeout_ms matches Some(millis) ==> profile.timeouts.request_millis
                == millis
            &&& entry.request_timeout_ms is None ==> profile.timeouts.request_millis == 5000
            &&& entry.stale_stream_timeout_ms matches Some(millis)
                ==> profile.timeouts.stale_stream_millis == millis
            &&& entry.stale_stream_timeout_ms is None ==> profile.timeouts.stale_stream_millis
                == 5000
            &&& profile.declared_models.len() == entry.models@.len()
            &&& forall|k: int|
                0 <= k < entry.models@.len() ==> #[trigger] profile.declared_models[k]
                    == entry.models@[k]@
            &&& profile.model_source == entry.model_source
            &&& profile.omit_tool_choice == entry.omit_tool_choice
            &&& answers[i].id is Ok
            &&& entry.secret_ref is Some ==> answers[i].secret is Ok
            &&& answers[i].profile is Ok
            &&& forall|k: int| 0 <= k < answers[i].models@.len() ==> (
            #[trigger] answers[i].models@[k]) is Ok
        }),
    decreases n,
{
    law_profiles_are_coherent(entries, answers, n);
    if i < n - 1 {
        law_profiles_say_what_was_declared(entries, answers, (n - 1) as nat, i);
    } else {
        lemma_first_refusal(answers[i].models@);
    }
}

proof fn lemma_first_refusal(answers: Seq<Result<(), ApplicationError>>)
    ensures
        first_refusal(answers) is None <==> forall|k: int|
            0 <= k < answers.len() ==> (#[trigger] answers[k]) is Ok,
        first_refusal(answers) matches Some(error) ==> exists|k: int|
            0 <= k < answers.len() && #[trigger] answers[k] == Err::<(), ApplicationError>(error)
                && forall|j: int| 0 <= j < k ==> (#[trigger] answers[j]) is Ok,
    decreases answers.len(),
{
    if answers.len() > 0 {
        let rest = answers.drop_first();
        lemma_first_refusal(rest);
        assert forall|k: int| 0 < k < answers.len() implies #[trigger] answers[k] == rest[k - 1] by {}
        if let Ok(_) = answers[0] {
            if let Some(error) = first_refusal(rest) {
                let k = choose|k: int|
                    0 <= k < rest.len() && #[trigger] rest[k] == Err::<(), ApplicationError>(error)
                        && forall|j: int| 0 <= j < k ==> (#[trigger] rest[j]) is Ok;
                assert(answers[k + 1] == rest[k]);
                assert forall|j: int| 0 <= j < k + 1 implies (#[trigger] answers[j]) is Ok by {
                    if j > 0 {
                        assert(rest[j - 1] == answers[j]);
                    }
                }
            } else {
                assert forall|k: int| 0 <= k < answers.len() implies (#[trigger] answers[k]) is Ok by {
                    if k > 0 {
                        assert(rest[k - 1] == answers[k]);
                    }
                }
            }
            if forall|k: int| 0 <= k < answers.len() ==> (#[trigger] answers[k]) is Ok {
                assert forall|k: int| 0 <= k < rest.len() implies (#[trigger] rest[k]) is Ok by {
                    assert(answers[k + 1] == rest[k]);
                }
            }
        }
    }
}

/// An entry with a strategy that agrees with its locator, timeouts above zero, and models where it
/// says that they are configured, is taken as soon as the ports take it; only such an entry is.
pub proof fn law_a_sound_profile_is_taken(
    id: Seq<char>,
    entry: ModelProfileEntry,
    answers: ProfileAnswers,
)
    ensures
        declared_profile(id, entry, answers) is Ok <==> {
            &&& answers.id is Ok
            &&& entry.secret_ref is Some ==> answers.secret is Ok
            &&& entry.auth_type == Some(AuthStrategy::SecretRef) ==> entry.secret_ref is Some
            &&& entry.auth_type == Some(AuthStrategy::Keyless) ==> entry.secret_ref is None
            &&& entry.connect_timeout_ms != Some(0u64)
            &&& entry.request_timeout_ms != Some(0u64)
            &&& entry.stale_stream_timeout_ms != Some(0u64)
            &&& forall|k: int| 0 <= k < answers.models@.len() ==> (
            #[trigger] answers.models@[k]) is Ok
            &&& entry.model_source == ModelSource::Configured ==> entry.models@.len() > 0
            &&& answers.profile is Ok
        },
{
    lemma_first_refusal(answers.models@);
}

/// One entry that is not sound refuses all the profiles, and nothing else does.
pub proof fn law_all_profiles_are_sound_or_none_is_taken(
    entries: Seq<(String, ModelProfileEntry)>,
    answers: Seq<ProfileAnswers>,
    n: nat,
)
    requires
        n <= entries.len(),
    ensures
        declared_profiles(entries, answers, n) is Ok <==> forall|i: int|
            0 <= i < n ==> declared_profile(
                (#[trigger] entries[i]).0@,
                entries[i].1,
                answers[i],
            ) is Ok,
    decreases n,
{
    if n > 0 {
        law_all_profiles_are_sound_or_none_is_taken(entries, answers, (n - 1) as nat);
    }
}

/// An endpoint is looked up by its identifier: the first entry under it is found, and none only
/// where no entry is under it.
pub proof fn law_entries_are_found_by_identifier(
    entries: Seq<(String, ModelProfileEntry)>,
    id: Seq<char>,
)
    ensures
        entry_of(entries, id) is None <==> forall|i: int|
            0 <= i < entries.len() ==> (#[trigger] entries[i]).0@ != id,
        entry_of(entries, id) matches Some(found) ==> exists|i: int|
            0 <= i < entries.len() && (#[trigger] entries[i]).0@ == id && entries[i].1 == found
                && forall|j: int| 0 <= j < i ==> (#[trigger] entries[j]).0@ != id,
    decreases entries.len(),
{
    if entries.len() > 0 && entries[0].0@ != id {
        let rest = entries.drop_first();
        law_entries_are_found_by_identifier(rest, id);
        if let Some(found) = entry_of(rest, id) {
            let i = choose|i: int|
                0 <= i < rest.len() && (#[trigger] rest[i]).0@ == id && rest[i].1 == found
                    && forall|j: int| 0 <= j < i ==> (#[trigger] rest[j]).0@ != id;
            assert(entries[i + 1] == rest[i]);
            assert forall|j: int| 0 <= j < i + 1 implies (#[trigger] entries[j]).0@ != id by {
                if j > 0 {
                    assert(rest[j - 1] == entries[j]);
                }
            }
        } else {
            assert forall|j: int| 0 <= j < entries.len() implies (#[trigger] entries[j]).0@
                != id by {
                if j > 0 {
                    assert(rest[j - 1] == entries[j]);
                }
            }
        }
    }
}

/// A mounted vault serves the scopes that were declared, and no other; it is read-only exactly where
/// that was declared, and excludes what was declared.
pub proof fn law_vaults_are_mounted_as_declared(
    config: VaultProviderConfig,
    section: VaultSection,
    notation: PathNotation,
    provider_accepted: bool,
)
    requires
        mounts(config, section),
        vault_field(section, notation, provider_accepted) is None,
    ensures
        provider_accepted,
        config.provider() == section.provider_id@,
        config.root_text() == section.root@,
        config.posture() == section.mode,
        config.in_scope(crate::ids::ProviderResourceKind::Knowledge) <==> exists|i: int|
            0 <= i < section.scopes@.len() && (#[trigger] section.scopes@[i])@ == "knowledge"@,
        config.in_scope(crate::ids::ProviderResourceKind::Task) <==> exists|i: int|
            0 <= i < section.scopes@.len() && (#[trigger] section.scopes@[i])@ == "task"@,
        config.exclusion_list().len() == section.exclusions@.len(),
        forall|i: int|
            0 <= i < section.exclusions@.len() ==> valid_exclusion(
                notation,
                (#[trigger] section.exclusions@[i])@,
            ),
        forall|i: int, j: int|
            0 <= i < j < section.scopes@.len() ==> (#[trigger] section.scopes@[i])@ != (
            #[trigger] section.scopes@[j])@,
        forall|i: int, j: int|
            0 <= i < j < section.exclusions@.len() ==> (#[trigger] section.exclusions@[i])@ != (
            #[trigger] section.exclusions@[j])@,
{
    reveal_strlit("knowledge");
    reveal_strlit("task");
    assert("knowledge"@.len() != "task"@.len());
    let scopes = views(section.scopes@);
    let exclusions = views(section.exclusions@);
    assert forall|i: int| 0 <= i < section.scopes@.len() implies (#[trigger] section.scopes@[i])@
        == scopes[i] && (scopes[i] == "knowledge"@ || scopes[i] == "task"@) by {}
    assert forall|i: int| 0 <= i < section.exclusions@.len() implies (
    #[trigger] section.exclusions@[i])@ == exclusions[i] by {}
    assert(patterns(config.exclusion_list()).len() == exclusions.len());
    assert forall|i: int| 0 <= i < section.scopes@.len() implies (
    #[trigger] section.scopes@[i])@ == "knowledge"@ <==> config.scope_list()[i].of()
        == crate::ids::ProviderResourceKind::Knowledge by {}
    assert forall|i: int| 0 <= i < config.scope_list().len() implies (
    #[trigger] config.scope_list()[i]).of() == crate::ids::ProviderResourceKind::Knowledge <==> section.scopes@[i]@ == "knowledge"@ by {}
}

/// Settings say what their file says, section by section; a section that the file leaves out is empty.
pub proof fn law_settings_say_what_the_file_says(settings: LocalSettings, file: SettingsFileModel)
    requires
        settings.stand_for(file),
    ensures
        file.daemon matches Some(daemon) ==> opt_view(settings.daemon_section().database)
            == daemon.database && opt_view(settings.daemon_section().endpoint) == daemon.endpoint,
        file.daemon is None ==> settings.daemon_section().database is None
            && settings.daemon_section().endpoint is None,
        file.models matches Some(models) ==> opt_view(settings.models_section().default_profile)
            == models.default_profile && settings.models_section()@.profiles == models.profiles,
        file.models is None ==> settings.models_section().default_profile is None
            && settings.entries().len() == 0,
        settings.vault_section() is Some <==> file.vault is Some,
        file.vault matches Some(vault) ==> {
            let section = settings.vault_section()->0;
            &&& section.provider_id@ == vault.provider_id
            &&& section.root@ == vault.root
            &&& section.mode == vault.mode
            &&& views(section.scopes@) == vault.scopes
            &&& views(section.exclusions@) == vault.exclusions
        },
{
}

/// Profiles and their entries are shown as they are, field by field.
pub proof fn law_profiles_show_what_they_hold(entry: ModelProfileEntry, profile: ProviderProfile)
    ensures
        entry@.base_url == entry.base_url@,
        entry@.enabled == entry.enabled,
        entry@.secret_ref == opt_view(entry.secret_ref),
        entry@.auth_type == entry.auth_type,
        entry@.connect_timeout_ms == entry.connect_timeout_ms,
        entry@.request_timeout_ms == entry.request_timeout_ms,
        entry@.stale_stream_timeout_ms == entry.stale_stream_timeout_ms,
        entry@.models == views(entry.models@),
        entry@.model_source == entry.model_source,
        entry@.omit_tool_choice == entry.omit_tool_choice,
        profile@.id == profile.id@,
        profile@.enabled == profile.enabled,
        profile@.secret_reference == opt_view(profile.secret_reference),
        profile@.auth_strategy == profile.auth_strategy,
        profile@.timeouts == profile.timeouts,
        profile@.declared_models == views(profile.declared_models@),
        profile@.model_source == profile.model_source,
        profile@.omit_tool_choice == profile.omit_tool_choice,
{
}

} // verus!
