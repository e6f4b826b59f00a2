//! Vault and daemon configuration, settings and model resolution.

use cortexd::admission::Capability;
use cortexd::automation_bridge::{normalized_trigger, VaultChangeKind};
use cortexd::catalog::{CapabilityCatalog, CatalogEntry};
use cortexd::config::{
    default_vault_config, discovery_extension, fresh_signing_key, model_from_environment,
    owner_only_descriptor, pairing_key_extension, remote_manifest_extension, validate_remote_grants,
    validate_subject, vault_from_settings, ConfigurationFacts, DaemonConfig, DiscoveryAnswers,
    DurableState, EnvironmentAnswers, EnvironmentValue, FreshIdentity, InferenceBearer,
    PromptConfig, ResolvedPromptConfig,
};
use cortexd::error::{ApplicationError, DaemonError};
use cortexd::ids::{OperationId, PrincipalId, WorkspaceId};
use cortexd::json::Json;
use cortexd::models::{
    default_profile_secret, discovery_request, next_request, resolve_default_model, DiscoveryStep,
    ModelResolution, ProbeAnswer, ResolutionAnswers, RoutedModel,
};
use cortexd::settings::{
    settings_error_from_vault, ApiMode, LocalSettings, ModelProfileEntry, ModelSource,
    ModelsSection, ProfileAnswers, ProviderProfile, SettingsError, SettingsFile, VaultSection,
};
use cortexd::vault::{
    PathNotation, VaultConfigError, VaultExclusion, VaultProviderConfig, VaultProviderMode,
    VaultScope,
};
use cortexd::vault_watcher::VaultEvent;

fn valid_config(root: &str) -> VaultProviderConfig {
    VaultProviderConfig::new(
        "markdown-vault",
        true,
        root.to_owned(),
        VaultProviderMode::ReadOnly,
        vec![
            VaultScope::new("knowledge").expect("knowledge scope"),
            VaultScope::new("task").expect("task scope"),
        ],
        vec![VaultExclusion::new(".obsidian", PathNotation::Unix).expect("valid exclusion")],
    )
    .expect("valid configuration")
}

fn one_scope() -> Vec<VaultScope> {
    vec![VaultScope::new("knowledge").expect("knowledge scope")]
}

fn entry(base_url: &str) -> ModelProfileEntry {
    ModelProfileEntry {
        base_url: base_url.to_owned(),
        enabled: true,
        secret_ref: None,
        api_mode: ApiMode::OpenAiCompletions,
        auth_type: None,
        connect_timeout_ms: None,
        request_timeout_ms: None,
        stale_stream_timeout_ms: None,
        models: Vec::new(),
        model_source: ModelSource::Discovered,
        omit_tool_choice: false,
    }
}

fn accepted(models: usize) -> ProfileAnswers {
    ProfileAnswers {
        id: Ok(()),
        secret: Ok(()),
        models: (0..models).map(|_| Ok(())).collect(),
        profile: Ok(()),
    }
}

fn settings(default_profile: Option<&str>, profiles: Vec<(&str, ModelProfileEntry)>) -> LocalSettings {
    LocalSettings::from_file(SettingsFile {
        daemon: None,
        models: Some(ModelsSection {
            default_profile: default_profile.map(str::to_owned),
            profiles: Some(
                profiles
                    .into_iter()
                    .map(|(id, entry)| (id.to_owned(), entry))
                    .collect(),
            ),
        }),
        vault: None,
    })
}

fn vault_settings(section: VaultSection) -> LocalSettings {
    LocalSettings::from_file(SettingsFile {
        daemon: None,
        models: None,
        vault: Some(section),
    })
}

fn find<'a>(profiles: &'a [ProviderProfile], id: &str) -> &'a ProviderProfile {
    profiles.iter().find(|profile| profile.id == id).expect("profile")
}

fn catalog() -> CapabilityCatalog {
    CapabilityCatalog {
        entries: ["cortex_knowledge_search", "cortex_knowledge_create", "cortex_task_list"]
            .into_iter()
            .zip(1u32..)
            .map(|(name, rank)| CatalogEntry {
                capability: Capability { rank },
                mcp_name: name.to_owned(),
            })
            .collect(),
    }
}

fn facts() -> ConfigurationFacts {
    ConfigurationFacts {
        path_given: true,
        directory_ready: true,
        durable: None,
        declared_vault: None,
        vault_root_is_directory: false,
        default_vault_root: Some("/data/vault".to_owned()),
        default_provider_accepted: true,
        key_stored: true,
        discovery_stored: true,
    }
}

fn fresh() -> FreshIdentity {
    FreshIdentity {
        endpoint_id: 0x0192_6c8f_88f9_7d33_9a1b_2c7d_33bd_0a12,
        workspace_id: WorkspaceId { value: 11 },
        principal_id: PrincipalId { value: 12 },
        seed: [3; 32],
    }
}

#[test]
fn vault_config_validates_bounds_and_scopes() {
    let root = "unused-root".to_owned();
    assert!(matches!(
        VaultProviderConfig::new(
            "markdown-vault",
        true,
            root.clone(),
            VaultProviderMode::ReadWrite,
            Vec::new(),
            Vec::new()
        ),
        Err(VaultConfigError::Invalid { field: "scopes" })
    ));
    assert!(matches!(
        VaultProviderConfig::new(
            " ",
        true,
            root.clone(),
            VaultProviderMode::ReadWrite,
            one_scope(),
            Vec::new()
        ),
        Err(VaultConfigError::Invalid { field: "provider_id" })
    ));
    assert!(matches!(
        VaultProviderConfig::new(
            "markdown-vault",
        true,
            String::new(),
            VaultProviderMode::ReadWrite,
            one_scope(),
            Vec::new()
        ),
        Err(VaultConfigError::Invalid { field: "root" })
    ));
    assert!(matches!(
        VaultScope::new("calendar"),
        Err(VaultConfigError::Invalid { field: "scopes" })
    ));
}

#[test]
fn vault_exclusions_reject_escape_and_absolute_patterns() {
    assert!(matches!(
        VaultExclusion::new("../outside", PathNotation::Unix),
        Err(VaultConfigError::Invalid { field: "exclusions" })
    ));
    assert!(matches!(
        VaultExclusion::new("C:\\\\vault", PathNotation::Unix),
        Err(VaultConfigError::Invalid { field: "exclusions" })
    ));
    assert!(matches!(
        VaultExclusion::new("  ", PathNotation::Unix),
        Err(VaultConfigError::Invalid { field: "exclusions" })
    ));
    let exclusion =
        VaultExclusion::new("archive/old", PathNotation::Unix).expect("relative exclusion");
    assert_eq!(exclusion.as_str(), "archive/old");
}

#[test]
fn exclusions_are_read_in_the_notation_of_the_platform() {
    let accepted =
        |pattern: &str, notation: PathNotation| VaultExclusion::new(pattern, notation).is_ok();
    let both = |pattern: &str| {
        (accepted(pattern, PathNotation::Unix), accepted(pattern, PathNotation::Windows))
    };
    assert_eq!(both("archive/old"), (true, true));
    assert_eq!(both("archive\\old"), (true, true));
    assert_eq!(both("archive\\..\\old"), (true, false));
    assert_eq!(both("archive/../old"), (false, false));
    assert_eq!(both("\\archive"), (true, false));
    assert_eq!(both("/archive"), (false, false));
    assert_eq!(both("a:b"), (true, true));
    assert_eq!(both("a:.."), (true, false));
    assert_eq!(both("a:/b"), (false, false));
    assert_eq!(both("..archive"), (true, true));
    assert_eq!(both("bell\u{7}"), (false, false));
    assert_eq!(both(&"x".repeat(256)), (true, true));
    assert_eq!(both(&"x".repeat(257)), (false, false));
}

#[test]
fn a_provider_that_the_identity_port_refuses_is_at_fault_first() {
    let refused = VaultProviderConfig::new(
        "Not An Identifier",
        false,
        String::new(),
        VaultProviderMode::ReadWrite,
        Vec::new(),
        Vec::new(),
    );
    assert!(matches!(refused, Err(VaultConfigError::Invalid { field: "provider_id" })));
    let declared = vault_settings(VaultSection {
        provider_id: "Not An Identifier".to_owned(),
        root: "unused".to_owned(),
        mode: VaultProviderMode::ReadWrite,
        scopes: vec!["task".to_owned()],
        exclusions: Vec::new(),
    });
    assert_eq!(declared.vault_provider_id(), Some("Not An Identifier"));
    assert_eq!(
        declared.vault_config(PathNotation::Unix, false).err(),
        Some(SettingsError::Invalid { field: "provider_id" })
    );
    assert!(matches!(declared.vault_config(PathNotation::Unix, true), Ok(Some(_))));
    let mut unnamed = facts();
    unnamed.default_provider_accepted = false;
    let config = DaemonConfig::from_local_settings(
        unnamed,
        None,
        PromptConfig::default(),
        fresh(),
        &catalog(),
    )
    .expect("no vault is no failure");
    assert!(config.vault_provider().is_none());
}

#[test]
fn vault_config_debug_never_exposes_the_local_root() {
    let config = valid_config("C:\\Users\\secret-person\\PrivateVault");
    let rendered = config.redacted();
    assert!(!rendered.contains("secret-person"));
    assert!(!rendered.contains("PrivateVault"));
    assert_eq!(
        rendered,
        "VaultProviderConfig { provider_id: \"[redacted]\", root: \"[redacted]\", mode: ReadOnly, \
         scopes: {VaultScope(Knowledge), VaultScope(Task)}, exclusion_count: 1 }"
    );
    assert_eq!(config.exclusions()[0].redacted(), "VaultExclusion([redacted])");
}

#[test]
fn vault_root_accessibility_is_a_typed_diagnostic() {
    let missing = valid_config("Z:\\definitely\\not\\here");
    assert!(matches!(
        missing.validate_root_access(false),
        Err(VaultConfigError::RootInaccessible)
    ));
    let present = valid_config("/tmp");
    assert!(present.validate_root_access(true).is_ok());
    assert_eq!(
        settings_error_from_vault(VaultConfigError::RootInaccessible),
        SettingsError::Invalid { field: "vault_root" }
    );
    assert_eq!(
        VaultConfigError::RootInaccessible.message(),
        "vault root is inaccessible"
    );
}

#[test]
fn vault_declarations_fail_on_the_field_that_is_wrong() {
    let section = |scopes: Vec<&str>, exclusions: Vec<&str>, root: &str| {
        vault_settings(VaultSection {
            provider_id: "markdown-vault".to_owned(),
            root: root.to_owned(),
            mode: VaultProviderMode::ReadWrite,
            scopes: scopes.into_iter().map(str::to_owned).collect(),
            exclusions: exclusions.into_iter().map(str::to_owned).collect(),
        })
        .vault_config(PathNotation::Unix, true)
        .err()
    };
    let invalid = |field: &'static str| Some(SettingsError::Invalid { field });
    assert_eq!(section(vec!["calendar"], vec![], "unused"), invalid("scopes"));
    assert_eq!(section(vec!["task", "task"], vec![], "unused"), invalid("scopes"));
    assert_eq!(section(vec![], vec![], "unused"), invalid("scopes"));
    assert_eq!(section(vec!["task"], vec!["/etc"], "unused"), invalid("exclusions"));
    assert_eq!(section(vec!["task"], vec!["a", "a"], "unused"), invalid("exclusions"));
    assert_eq!(section(vec!["task"], vec!["a"], " "), invalid("root"));
    assert_eq!(section(vec!["task"], vec!["a"], "unused"), None);
    assert_eq!(SettingsError::Invalid { field: "x" }.message(), "invalid local settings");
}

#[test]
fn refusals_of_the_inference_port_name_their_field() {
    let built = |answers: ProfileAnswers| {
        let mut one = entry("http://127.0.0.1:8000/v1");
        one.secret_ref = Some("keyring:cortexd/local".to_owned());
        one.models = vec!["m".to_owned()];
        settings(None, vec![("a", one)]).provider_profiles(&vec![answers]).err()
    };
    let mut answers = accepted(1);
    answers.id = Err(ApplicationError::Validation { field: "profile_id" });
    assert_eq!(built(answers), Some(SettingsError::Invalid { field: "profile_id" }));
    let mut answers = accepted(1);
    answers.secret = Err(ApplicationError::Internal);
    assert_eq!(built(answers), Some(SettingsError::Invalid { field: "secret_ref" }));
    let mut answers = accepted(1);
    answers.models = vec![Err(ApplicationError::Validation { field: "model_id" })];
    assert_eq!(built(answers), Some(SettingsError::Invalid { field: "model_id" }));
    let mut answers = accepted(1);
    answers.profile = Err(ApplicationError::Validation { field: "profile" });
    assert_eq!(built(answers), Some(SettingsError::Invalid { field: "profile" }));
}

fn resolution(
    settings: &LocalSettings,
    profiles: usize,
    probes: Vec<ProbeAnswer>,
    route: Option<(&str, &str)>,
) -> ModelResolution {
    resolve_default_model(
        Some(settings),
        &(0..profiles).map(|_| accepted(0)).collect(),
        &probes,
        ResolutionAnswers {
            policy: true,
            route: route.map(|(profile_id, model_id)| RoutedModel {
                profile_id: profile_id.to_owned(),
                model_id: model_id.to_owned(),
            }),
            limits: true,
            model: true,
        },
    )
}

fn listed(models: &[&str]) -> ProbeAnswer {
    ProbeAnswer {
        settings_accepted: true,
        models: Some(models.iter().map(|model| (*model).to_owned()).collect()),
    }
}

fn silent() -> ProbeAnswer {
    ProbeAnswer { settings_accepted: true, models: None }
}

fn local_profile() -> ModelProfileEntry {
    let mut local = entry("http://127.0.0.1:8000/v1/");
    local.secret_ref = Some("keyring:cortexd/local".to_owned());
    local
}

#[test]
fn default_profile_resolves_through_the_runtime_router() {
    let settings = settings(Some("local"), vec![("local", local_profile())]);
    match resolution(
        &settings,
        1,
        vec![listed(&["model-b", "model-a"])],
        Some(("local", "model-a")),
    ) {
        ModelResolution::Configured { config, route, models } => {
            assert_eq!(route.profile_id, "local");
            assert_eq!(route.model_id, "model-a");
            assert_eq!(config.model, "model-a");
            assert_eq!(config.secret_reference.as_deref(), Some("keyring:cortexd/local"));
            assert_eq!(models, vec!["model-b".to_owned(), "model-a".to_owned()]);
        }
        other => panic!("expected a configured route, got {other:?}"),
    }
}

#[test]
fn resolved_bearer_authenticates_discovery() {
    let settings = settings(
        Some("local"),
        vec![("keyless", entry("http://127.0.0.1:1/v1")), ("local", local_profile())],
    );
    let profiles = settings
        .provider_profiles(&vec![accepted(0), accepted(0)])
        .expect("valid profiles");
    let bearer = Some("nvapi-test-key".to_owned());
    let request = discovery_request(&settings, find(&profiles, "local"), &bearer).expect("endpoint");
    assert_eq!(request.bearer.as_deref(), Some("nvapi-test-key"));
    assert_eq!(request.base_url, "http://127.0.0.1:8000/v1/");
    let request =
        discovery_request(&settings, find(&profiles, "keyless"), &bearer).expect("endpoint");
    assert_eq!(request.bearer, None, "a keyless profile never sees the credential");
    assert_eq!(
        default_profile_secret(Some(&settings), &vec![accepted(0), accepted(0)]).as_deref(),
        Some("keyring:cortexd/local")
    );
}

#[test]
fn unavailable_provider_is_an_explicit_degraded_state() {
    let settings = settings(Some("local"), vec![("local", local_profile())]);
    let outcome = resolution(&settings, 1, vec![silent()], None);
    assert_eq!(
        outcome,
        ModelResolution::Degraded {
            reason: "provider_unavailable",
            secret: Some("keyring:cortexd/local".to_owned()),
        },
        "provider failure must surface as an explicit degraded state"
    );
}

#[test]
fn unknown_default_profile_is_explicitly_degraded() {
    let settings = settings(
        Some("missing"),
        vec![("local", entry("http://127.0.0.1:8000/v1/"))],
    );
    assert!(matches!(
        resolution(&settings, 1, vec![silent()], None),
        ModelResolution::Degraded { reason: "default_profile_missing_or_disabled", secret: None }
    ));
    assert_eq!(asked(&settings, Vec::new()), Vec::<String>::new(), "nobody is asked");
}

/// The endpoints that are asked in turn, each answered as given; further ones are not answered.
fn asked(settings: &LocalSettings, mut replies: Vec<ProbeAnswer>) -> Vec<String> {
    let declared = settings.profile_entries().map_or(0, Vec::len);
    let answers = (0..declared).map(|_| accepted(0)).collect();
    replies.reverse();
    let mut endpoints = Vec::new();
    let mut probes = Vec::new();
    loop {
        match next_request(Some(settings), &answers, &probes, &Some("key".to_owned())) {
            DiscoveryStep::Ask(request) => {
                endpoints.push(request.base_url);
                probes.push(replies.pop().unwrap_or_else(silent));
            }
            DiscoveryStep::PassOver => probes.push(silent()),
            DiscoveryStep::End => return endpoints,
        }
    }
}

#[test]
fn enabled_profiles_are_asked_in_turn_until_the_default_fails() {
    let endpoint = |n: u8| format!("http://127.0.0.1:800{n}/v1");
    let mut disabled = entry(&endpoint(2));
    disabled.enabled = false;
    disabled.secret_ref = Some("keyring:cortexd/disabled".to_owned());
    let declared = settings(
        Some("default"),
        vec![
            ("first", entry(&endpoint(1))),
            ("disabled", disabled),
            ("default", entry(&endpoint(3))),
            ("last", entry(&endpoint(4))),
        ],
    );
    // One that is not the default may fail; a disabled one is passed over.
    assert_eq!(
        asked(&declared, vec![silent(), listed(&["m"]), listed(&["m"])]),
        vec![endpoint(1), endpoint(3), endpoint(4)]
    );
    // The failure of the default ends it.
    assert_eq!(
        asked(&declared, vec![listed(&["m"]), silent(), listed(&["m"])]),
        vec![endpoint(1), endpoint(3)]
    );
    let profiles = declared
        .provider_profiles(&(0..4).map(|_| accepted(0)).collect())
        .expect("valid profiles");
    assert_eq!(
        discovery_request(&declared, find(&profiles, "disabled"), &Some("key".to_owned())),
        None,
        "a disabled profile never sees the credential"
    );
}

#[test]
fn a_disabled_default_profile_asks_nobody() {
    let mut off = local_profile();
    off.enabled = false;
    let declared =
        settings(Some("local"), vec![("other", entry("http://127.0.0.1:1/v1")), ("local", off)]);
    assert_eq!(asked(&declared, Vec::new()), Vec::<String>::new());
    assert_eq!(
        resolution(&declared, 2, vec![listed(&["m"]), listed(&["m"])], Some(("other", "m"))),
        ModelResolution::Degraded {
            reason: "default_profile_missing_or_disabled",
            secret: Some("keyring:cortexd/local".to_owned()),
        }
    );
    assert_eq!(
        next_request(None, &Vec::new(), &Vec::new(), &None),
        DiscoveryStep::End,
        "without settings nobody is asked"
    );
}

#[test]
fn no_default_profile_leaves_inference_disabled() {
    let unset = settings(None, Vec::new());
    assert!(matches!(
        resolution(&unset, 0, Vec::new(), None),
        ModelResolution::Disabled
    ));
    let unnamed = settings(None, vec![("local", local_profile())]);
    assert_eq!(asked(&unnamed, Vec::new()), Vec::<String>::new(), "nobody is asked");
    let answers = ResolutionAnswers { policy: true, route: None, limits: true, model: true };
    assert!(matches!(
        resolve_default_model(None, &Vec::new(), &Vec::new(), answers),
        ModelResolution::Disabled
    ));
}

#[test]
fn two_profiles_route_deterministically_to_the_eligible_endpoint() {
    let mut alpha = entry("http://127.0.0.1:8001/v1");
    alpha.request_timeout_ms = Some(3000);
    let mut beta = entry("http://127.0.0.1:8002/v1");
    beta.secret_ref = Some("keyring:cortexd/beta".to_owned());
    beta.request_timeout_ms = Some(7000);
    let settings = settings(Some("alpha"), vec![("alpha", alpha), ("beta", beta)]);
    match resolution(
        &settings,
        2,
        vec![listed(&["model-a"]), listed(&["model-a"])],
        Some(("beta", "model-a")),
    ) {
        ModelResolution::Configured { config, route, models } => {
            assert_eq!(route.profile_id, "beta");
            assert_eq!(route.model_id, "model-a");
            assert!(config.base_url.contains("8002"));
            assert_eq!(config.timeout_millis, 7_000);
            assert_eq!(models.len(), 2);
        }
        other => panic!("two-profile routing must resolve deterministically, got {other:?}"),
    }
}

#[test]
fn default_profile_uses_its_declared_timeout_and_quirks() {
    let mut local = entry("http://127.0.0.1:8000/v1/");
    local.request_timeout_ms = Some(9000);
    local.omit_tool_choice = true;
    let settings = settings(Some("local"), vec![("local", local)]);
    match resolution(&settings, 1, vec![listed(&["m"])], Some(("local", "m"))) {
        ModelResolution::Configured { config, .. } => {
            assert_eq!(config.timeout_millis, 9_000);
            assert!(config.omit_tool_choice);
        }
        other => panic!("profile settings must resolve, got {other:?}"),
    }
}

#[test]
fn every_degraded_reason_is_reported() {
    let settings = settings(Some("local"), vec![("local", local_profile())]);
    let outcome = |answers: ResolutionAnswers| {
        match resolve_default_model(
            Some(&settings),
            &vec![accepted(0)],
            &vec![listed(&["m"])],
            answers,
        ) {
            ModelResolution::Degraded { reason, secret } => (reason, secret.is_some()),
            other => panic!("expected a degraded state, got {other:?}"),
        }
    };
    let route = |profile: &str| {
        Some(RoutedModel { profile_id: profile.to_owned(), model_id: "m".to_owned() })
    };
    assert_eq!(
        outcome(ResolutionAnswers { policy: false, route: None, limits: true, model: true }),
        ("invalid_routing_policy", true)
    );
    assert_eq!(
        outcome(ResolutionAnswers { policy: true, route: None, limits: true, model: true }),
        ("no_eligible_model", true)
    );
    assert_eq!(
        outcome(ResolutionAnswers { policy: true, route: route("other"), limits: true, model: true }),
        ("routed_profile_missing", true)
    );
    assert_eq!(
        outcome(ResolutionAnswers { policy: true, route: route("local"), limits: false, model: true }),
        ("invalid_provider_limits", true)
    );
    assert_eq!(
        outcome(ResolutionAnswers { policy: true, route: route("local"), limits: true, model: false }),
        ("invalid_model_config", true)
    );
    let mut refused = accepted(0);
    refused.id = Err(ApplicationError::Internal);
    let answers = ResolutionAnswers { policy: true, route: None, limits: true, model: true };
    assert!(matches!(
        resolve_default_model(Some(&settings), &vec![refused], &vec![silent()], answers),
        ModelResolution::Degraded { reason: "invalid_profiles", secret: None }
    ));
}

#[test]
fn daemon_settings_apply_endpoint_override_on_first_initialization() {
    let table: toml::Table =
        toml::from_str("[daemon]\nendpoint = \"cortexd-lab\"\n").expect("a TOML document");
    let sections = table.into_iter().map(|(name, section)| match section {
        toml::Value::Table(keys) => (
            name,
            Json::Object(
                keys.into_iter()
                    .map(|(key, value)| {
                        (key, Json::Text(value.as_str().expect("a text").to_owned()))
                    })
                    .collect(),
            ),
        ),
        other => panic!("expected a section, got {other:?}"),
    });
    let settings = LocalSettings::load(Some(Ok(Json::Object(sections.collect()))))
        .expect("valid settings")
        .expect("file present");
    let config = DaemonConfig::from_local_settings(
        facts(),
        settings.endpoint_override(),
        PromptConfig::default(),
        fresh(),
        &catalog(),
    )
    .expect("valid daemon config");
    assert_eq!(config.endpoint_name(), "cortexd-lab");
}

#[test]
fn daemon_defaults_apply_without_a_settings_file() {
    let config = DaemonConfig::from_local_settings(
        facts(),
        None,
        PromptConfig::default(),
        fresh(),
        &catalog(),
    )
    .expect("valid daemon config");
    assert!(config.endpoint_name().starts_with("cortexd-"));
    assert_eq!(
        config.endpoint_name(),
        "cortexd-01926c8f-88f9-7d33-9a1b-2c7d33bd0a12"
    );
    let vault = config.vault_provider().expect("default vault");
    assert_eq!(vault.root(), "/data/vault");
    assert_eq!(vault.mode(), VaultProviderMode::ReadWrite);
    assert_eq!(config.bootstrap_grants.len(), 3);
}

#[test]
fn a_restarted_daemon_keeps_its_identity() {
    let first = DaemonConfig::from_local_settings(
        facts(),
        Some("cortexd-first"),
        PromptConfig::default(),
        fresh(),
        &catalog(),
    )
    .expect("first start");
    let mut later = facts();
    later.durable = Some(DurableState {
        discovery: Some(first.discovery()),
        answers: DiscoveryAnswers { workspace_id: true, principal_id: true },
        key: Some(first.pairing_seed.to_vec()),
        manifest: None,
    });
    let mut other = fresh();
    other.workspace_id = WorkspaceId { value: 77 };
    let second = DaemonConfig::from_local_settings(
        later,
        Some("cortexd-ignored"),
        PromptConfig::default(),
        other,
        &catalog(),
    )
    .expect("second start");
    assert_eq!(second.endpoint_name(), "cortexd-first");
    assert_eq!(second.workspace_id(), first.workspace_id());
    assert_eq!(second.owner_principal_id(), first.owner_principal_id());
    assert_eq!(second.pairing_verifier, first.pairing_verifier);

    let mut broken = facts();
    broken.durable = Some(DurableState {
        discovery: Some(first.discovery()),
        answers: DiscoveryAnswers { workspace_id: true, principal_id: true },
        key: Some(vec![9; 32]),
        manifest: None,
    });
    assert!(matches!(
        DaemonConfig::from_local_settings(
            broken,
            None,
            PromptConfig::default(),
            fresh(),
            &catalog()
        ),
        Err(DaemonError::InvalidConfiguration)
    ));
}

#[test]
fn a_pairing_key_file_has_to_hold_the_configured_key() {
    let config = DaemonConfig::with_fresh_pairing(
        "e".to_owned(),
        WorkspaceId { value: 1 },
        PrincipalId { value: 2 },
        [5; 32],
        &catalog(),
    );
    assert_eq!(config.ensure_pairing_key(false, &None), Ok(true));
    assert_eq!(config.ensure_pairing_key(true, &Some(vec![5; 32])), Ok(false));
    let refused = Err(DaemonError::InvalidConfiguration);
    assert_eq!(config.ensure_pairing_key(true, &Some(vec![6; 32])), refused);
    assert_eq!(config.ensure_pairing_key(true, &Some(vec![5; 31])), refused);
    assert_eq!(config.ensure_pairing_key(true, &None), refused);
}

#[test]
fn the_environment_configures_a_model_wholly_or_not_at_all() {
    let text = |value: &str| EnvironmentValue::Text(value.to_owned());
    let yes = EnvironmentAnswers { secret: true, provider: true };
    let absent = EnvironmentValue::Absent;
    assert_eq!(
        model_from_environment(absent, EnvironmentValue::Absent, EnvironmentValue::Absent, yes),
        Ok(None)
    );
    let config = model_from_environment(text("http://h"), text("m"), text("keyring:a/b"), yes)
        .expect("valid")
        .expect("configured");
    assert_eq!(config.base_url, "http://h");
    assert_eq!(config.model, "m");
    assert_eq!(config.secret_reference.as_deref(), Some("keyring:a/b"));
    assert_eq!(config.timeout_millis, 5_000);
    assert_eq!(config.limits.response_bytes, 64 * 1024);
    assert_eq!(config.limits.embedding_input_bytes, 32 * 1024);
    assert_eq!(config.limits.embedding_dimensions, 4096);
    let refused = Err(DaemonError::InvalidConfiguration);
    let model = model_from_environment(text("http://h"), EnvironmentValue::Absent, EnvironmentValue::Absent, yes);
    assert_eq!(model, refused);
    let model = model_from_environment(EnvironmentValue::Absent, EnvironmentValue::Absent, text("s"), yes);
    assert_eq!(model, refused);
    let model = model_from_environment(text("  "), text("m"), EnvironmentValue::Absent, yes);
    assert_eq!(model, refused);
    let model = model_from_environment(EnvironmentValue::NotUnicode, text("m"), EnvironmentValue::Absent, yes);
    assert_eq!(model, refused);
    let no = EnvironmentAnswers { secret: true, provider: false };
    let model = model_from_environment(text("http://h"), text("m"), EnvironmentValue::Absent, no);
    assert_eq!(model, refused);
}

#[test]
fn prompts_come_inline_or_from_a_file_but_not_both() {
    let layers = |inline: Option<&str>, file: Option<&str>| PromptConfig {
        global_inline: inline.map(str::to_owned),
        global_file: file.map(str::to_owned),
        profiles: vec![("nim".to_owned(), "be brief".to_owned())],
    };
    let resolved = |global: Option<&str>| ResolvedPromptConfig {
        global: global.map(str::to_owned),
        profiles: vec![("nim".to_owned(), "be brief".to_owned())],
    };
    assert_eq!(layers(Some("hi"), None).resolve(None), Ok(resolved(Some("hi"))));
    assert_eq!(
        layers(None, Some("p.md")).resolve(Some("from file".to_owned())),
        Ok(resolved(Some("from file")))
    );
    assert_eq!(layers(None, None).resolve(Some("unused".to_owned())), Ok(resolved(None)));
    let refused = Err(DaemonError::InvalidConfiguration);
    assert_eq!(layers(None, Some("p.md")).resolve(None), refused);
    assert_eq!(layers(Some("hi"), Some("p.md")).resolve(Some("x".to_owned())), refused);
    assert_eq!(resolved(None).profile("nim").map(String::as_str), Some("be brief"));
    assert_eq!(resolved(None).profile("other"), None);
}

#[test]
fn subjects_and_grants_of_remote_clients_are_bounded() {
    assert_eq!(validate_subject("mobile"), Ok(()));
    assert_eq!(validate_subject(&"s".repeat(256)), Ok(()));
    let refused = Err(DaemonError::InvalidConfiguration);
    assert_eq!(validate_subject(" \t"), refused);
    assert_eq!(validate_subject(&"s".repeat(257)), refused);
    assert_eq!(validate_subject("a\u{7}b"), refused);
    let grants = |ranks: &[u32]| ranks.iter().map(|rank| Capability { rank: *rank }).collect();
    assert_eq!(validate_remote_grants(&grants(&[1, 3]), &catalog()), Ok(()));
    assert_eq!(validate_remote_grants(&grants(&[]), &catalog()), refused);
    assert_eq!(validate_remote_grants(&grants(&[3, 1]), &catalog()), refused);
    assert_eq!(validate_remote_grants(&grants(&[1, 1]), &catalog()), refused);
    assert_eq!(validate_remote_grants(&grants(&[1, 2, 3, 4]), &catalog()), refused);
}

#[test]
fn declared_vaults_need_an_accessible_root() {
    assert!(matches!(vault_from_settings(None, false), Ok(None)));
    assert!(matches!(
        vault_from_settings(Some(Ok(Some(valid_config("/v")))), true),
        Ok(Some(_))
    ));
    assert!(matches!(
        vault_from_settings(Some(Ok(Some(valid_config("/v")))), false),
        Err(DaemonError::InvalidConfiguration)
    ));
    assert!(matches!(
        vault_from_settings(Some(Err(SettingsError::Invalid { field: "scopes" })), true),
        Err(DaemonError::InvalidConfiguration)
    ));
    assert!(default_vault_config(String::new(), true).is_none());
    assert!(default_vault_config("/data/vault".to_owned(), false).is_none());
    let default = default_vault_config("/data/vault".to_owned(), true).expect("default vault");
    assert_eq!(default.provider_id(), "markdown-vault");
}

#[test]
fn artifacts_have_fixed_names() {
    assert_eq!(discovery_extension(), "cortexd-discovery.json");
    assert_eq!(pairing_key_extension(), "cortexd-pairing");
    assert_eq!(remote_manifest_extension(), "cortexd-clients.json");
    assert_eq!(owner_only_descriptor("S-1-5-21"), "D:P(A;;GA;;;S-1-5-21)");
    let seed = fresh_signing_key(1, 2);
    assert_eq!((seed[15], seed[31], seed[0]), (1, 2, 0));
}

#[test]
fn credentials_do_not_show() {
    let bearer = InferenceBearer::new("nvapi-raw".to_owned());
    assert_eq!(bearer.expose(), "nvapi-raw");
    assert_eq!(bearer.redacted(), "InferenceBearer([redacted])");
}

#[test]
fn watcher_events_map_to_normalized_triggers() {
    let created = normalized_trigger(
        "markdown-vault",
        &VaultEvent::Created { relative: "notes/launch.md".to_owned() },
        OperationId { value: 1 },
        Ok(()),
    )
    .expect("created maps");
    assert_eq!(created.kind, VaultChangeKind::Created);
    assert_eq!(created.provider_id, "markdown-vault");
    assert_eq!(created.resource_id, "path:notes/launch.md");

    let renamed = normalized_trigger(
        "markdown-vault",
        &VaultEvent::Renamed { from: "tasks/old.md".to_owned(), to: "tasks/new.md".to_owned() },
        OperationId { value: 2 },
        Ok(()),
    )
    .expect("renamed maps");
    assert_eq!(renamed.kind, VaultChangeKind::Renamed);
    assert_eq!(renamed.resource_id, "path:tasks/new.md");
    assert!(matches!(
        normalized_trigger(
            "p",
            &VaultEvent::Deleted { relative: String::new() },
            OperationId { value: 3 },
            Err(ApplicationError::Validation { field: "resource_id" })
        ),
        Err(ApplicationError::Validation { .. })
    ));
}

#[test]
fn configurations_are_built_step_by_step() {
    let config = || {
        DaemonConfig::with_fresh_pairing(
            "cortexd-test".to_owned(),
            WorkspaceId { value: 1 },
            PrincipalId { value: 2 },
            [3; 32],
            &catalog(),
        )
    };
    let bearer = config().with_inference_bearer(Some(InferenceBearer::new("b".to_owned())));
    assert_eq!(bearer.inference_bearer.as_ref().map(InferenceBearer::expose), Some("b"));
    let granted = config().with_bootstrap_grants(vec![Capability { rank: 2 }]);
    assert_eq!(granted.bootstrap_grants, vec![Capability { rank: 2 }]);
    let model = model_from_environment(
        EnvironmentValue::Text("http://127.0.0.1:8000/v1".to_owned()),
        EnvironmentValue::Text("m".to_owned()),
        EnvironmentValue::Absent,
        EnvironmentAnswers { secret: false, provider: true },
    )
    .expect("valid environment")
    .expect("a model is named");
    assert_eq!(config().with_model_config(model).model_config.expect("kept").model, "m");
    let one = settings(None, vec![("a", entry("http://127.0.0.1:8000/v1"))]);
    assert_eq!(one.profile_entries().map(Vec::len), Some(1));
}
