//! The settings file, from its TOML text to the settings it stands for.

use cortexd::ids::ProviderResourceKind;
use cortexd::json::Json;
use cortexd::settings::{
    ApiMode, AuthStrategy, LocalSettings, ModelSource, ProfileAnswers, ProviderProfile,
    SettingsError, SettingsFile,
};
use cortexd::vault::{PathNotation, VaultProviderMode};

fn document(value: toml::Value) -> Json {
    match value {
        toml::Value::String(text) => Json::Text(text),
        toml::Value::Integer(number) => match u64::try_from(number) {
            Ok(number) => Json::Unsigned(number),
            Err(_) => Json::OtherNumber,
        },
        toml::Value::Float(_) | toml::Value::Datetime(_) => Json::OtherNumber,
        toml::Value::Boolean(value) => Json::Bool(value),
        toml::Value::Array(items) => Json::Array(items.into_iter().map(document).collect()),
        toml::Value::Table(members) => table(members),
    }
}

fn table(members: toml::Table) -> Json {
    Json::Object(members.into_iter().map(|(name, value)| (name, document(value))).collect())
}

fn load(text: &str) -> Result<Option<LocalSettings>, SettingsError> {
    LocalSettings::load(Some(toml::from_str(text).map(table).map_err(|_| ())))
}

fn accepted(models: usize) -> ProfileAnswers {
    ProfileAnswers {
        id: Ok(()),
        secret: Ok(()),
        models: (0..models).map(|_| Ok(())).collect(),
        profile: Ok(()),
    }
}

fn find<'a>(profiles: &'a [ProviderProfile], id: &str) -> &'a ProviderProfile {
    profiles.iter().find(|profile| profile.id == id).expect("profile")
}

#[test]
fn missing_settings_file_yields_documented_defaults() {
    let loaded = LocalSettings::load(None).expect("missing file is valid");
    assert!(loaded.is_none(), "absent config must load as documented defaults");
}

#[test]
fn settings_file_parses_non_secret_keys() {
    let settings = load(
        r#"
[daemon]
endpoint = "cortexd-lab"

[models]
default_profile = "nim"

[models.profiles.nim]
base_url = "https://integrate.api.nvidia.com/v1"
secret_ref = "keyring:cortexd/nim"

[models.profiles.local]
base_url = "http://127.0.0.1:8000/v1/"
enabled = false
"#,
    )
    .expect("valid settings")
    .expect("file present");
    assert_eq!(settings.endpoint_override(), Some("cortexd-lab"));
    assert_eq!(settings.database_override(), None);
    assert_eq!(settings.default_profile_id(), Some("nim"));
    assert_eq!(settings.endpoint_for("local"), Some("http://127.0.0.1:8000/v1/"));
    assert_eq!(settings.endpoint_for("absent"), None);
    let profiles = settings
        .provider_profiles(&vec![accepted(0), accepted(0)])
        .expect("valid profiles");
    assert_eq!(profiles.len(), 2);
    let nim = find(&profiles, "nim");
    assert!(nim.enabled);
    assert_eq!(nim.secret_reference.as_deref(), Some("keyring:cortexd/nim"));
    assert!(!find(&profiles, "local").enabled);
    // Profiles are listed by identifier, whatever order the file has.
    assert_eq!(profiles[0].id, "local");
}

#[test]
fn raw_secret_keys_are_rejected_in_the_config_file() {
    let result = load(
        r#"
[models]
default_profile = "nim"

[models.profiles.nim]
base_url = "https://integrate.api.nvidia.com/v1"
api_key = "nvapi-raw-secret"
"#,
    );
    assert!(
        matches!(result, Err(SettingsError::Invalid { .. })),
        "raw credentials must never be accepted in the config file"
    );
}

#[test]
fn invalid_toml_is_a_settings_error_not_a_crash() {
    assert!(matches!(load("[daemon\nendpoint ="), Err(SettingsError::Invalid { .. })));
    assert!(matches!(
        LocalSettings::load(Some(Err(()))),
        Err(SettingsError::Invalid { field: "file" })
    ));
}

#[test]
fn committed_template_documents_every_supported_key_and_parses() {
    let settings = load(LocalSettings::template())
        .expect("template must parse")
        .expect("template is present");
    for key in [
        "database",
        "endpoint",
        "default_profile",
        "base_url",
        "secret_ref",
        "enabled",
    ] {
        assert!(
            LocalSettings::template().contains(key),
            "template must document `{key}`"
        );
    }
    assert!(
        settings.provider_profiles(&Vec::new()).is_ok(),
        "template profiles must build"
    );
    // Everything in it is commented out, so it changes nothing.
    assert_eq!(settings.provider_profiles(&Vec::new()).map(|profiles| profiles.len()), Ok(0));
    assert_eq!(settings.default_profile_id(), None);
    assert_eq!(settings.endpoint_override(), None);
    assert_eq!(settings.database_override(), None);
    assert!(settings.profile_entries().is_none());
    assert!(settings.vault_provider_id().is_none());
    assert!(matches!(settings.vault_config(PathNotation::Unix, true), Ok(None)));
}

#[test]
fn the_template_names_every_key_of_the_schema() {
    for key in [
        "api_mode",
        "auth_type",
        "connect_timeout_ms",
        "request_timeout_ms",
        "stale_stream_timeout_ms",
        "models",
        "model_source",
        "quirks",
        "omit_tool_choice",
        "provider_id",
        "root",
        "mode",
        "scopes",
        "exclusions",
    ] {
        assert!(LocalSettings::template().contains(key), "template must document `{key}`");
    }
}

#[test]
fn fully_populated_profile_parses_all_typed_fields() {
    let settings = load(
        r#"
[models]
default_profile = "nim"

[models.profiles.nim]
base_url = "https://integrate.api.nvidia.com/v1"
secret_ref = "keyring:cortexd/nim"
api_mode = "openai_completions"
auth_type = "secret_ref"
connect_timeout_ms = 2000
request_timeout_ms = 9000
stale_stream_timeout_ms = 15000
models = ["meta/llama-3.1-70b-instruct"]

[models.profiles.nim.quirks]
omit_tool_choice = true
"#,
    )
    .expect("valid settings")
    .expect("file present");
    let profiles = settings.provider_profiles(&vec![accepted(1)]).expect("valid profiles");
    let nim = find(&profiles, "nim");
    assert_eq!(nim.api_mode, ApiMode::OpenAiCompletions);
    assert_eq!(nim.auth_strategy, AuthStrategy::SecretRef);
    assert_eq!(nim.timeouts.connect_millis, 2_000);
    assert_eq!(nim.timeouts.request_millis, 9_000);
    assert_eq!(nim.timeouts.stale_stream_millis, 15_000);
    assert_eq!(nim.declared_models.len(), 1);
    assert!(nim.omit_tool_choice);
}

#[test]
fn unsupported_api_mode_is_rejected_at_parse_time() {
    assert!(matches!(
        load(
            r#"
[models.profiles.nim]
base_url = "https://integrate.api.nvidia.com/v1"
api_mode = "anthropic_messages"
"#
        ),
        Err(SettingsError::Invalid { .. })
    ));
}

#[test]
fn auth_type_must_agree_with_the_secret_locator() {
    let secret_ref_without_auth = load(
        r#"
[models.profiles.a]
base_url = "https://integrate.api.nvidia.com/v1"
auth_type = "secret_ref"
"#,
    );
    assert!(
        matches!(
            secret_ref_without_auth
                .expect("parses")
                .expect("present")
                .provider_profiles(&vec![accepted(0)]),
            Err(SettingsError::Invalid { field: "auth_type" })
        ),
        "secret_ref auth without a locator must fail validation"
    );

    let keyless_with_locator = load(
        r#"
[models.profiles.a]
base_url = "http://127.0.0.1:8000/v1"
secret_ref = "keyring:cortexd/local"
auth_type = "none"
"#,
    );
    assert!(
        matches!(
            keyless_with_locator
                .expect("parses")
                .expect("present")
                .provider_profiles(&vec![accepted(0)]),
            Err(SettingsError::Invalid { field: "auth_type" })
        ),
        "keyless auth with a locator must fail validation"
    );
}

#[test]
fn zero_timeouts_are_rejected_at_startup() {
    let settings = load(
        r#"
[models.profiles.a]
base_url = "http://127.0.0.1:8000/v1"
request_timeout_ms = 0
"#,
    );
    assert!(matches!(
        settings
            .expect("parses")
            .expect("present")
            .provider_profiles(&vec![accepted(0)]),
        Err(SettingsError::Invalid { field: "timeouts" })
    ));
}

#[test]
fn legacy_profiles_keep_working_without_explicit_auth_type() {
    let settings = load(
        r#"
[models]
default_profile = "nim"

[models.profiles.nim]
base_url = "https://integrate.api.nvidia.com/v1"
secret_ref = "keyring:cortexd/nim"

[models.profiles.keyless]
base_url = "http://127.0.0.1:8000/v1"
"#,
    )
    .expect("valid settings")
    .expect("file present");
    let profiles = settings
        .provider_profiles(&vec![accepted(0), accepted(0)])
        .expect("valid profiles");
    assert_eq!(find(&profiles, "nim").auth_strategy, AuthStrategy::SecretRef);
    assert_eq!(find(&profiles, "keyless").auth_strategy, AuthStrategy::Keyless);
    // Historical default timeout is preserved for legacy configurations.
    assert_eq!(find(&profiles, "nim").timeouts.request_millis, 5_000);
}

#[test]
fn configured_model_source_requires_models_and_is_preserved() {
    let missing_models = load(
        r#"
[models.profiles.remote]
base_url = "https://provider.example/v1"
model_source = "configured"
"#,
    );
    assert!(matches!(
        missing_models
            .expect("parses")
            .expect("present")
            .provider_profiles(&vec![accepted(0)]),
        Err(SettingsError::Invalid { field: "configured_models" })
    ));

    let configured = load(
        r#"
[models.profiles.remote]
base_url = "https://provider.example/v1"
model_source = "configured"
models = ["remote-model"]
"#,
    );
    let profiles = configured
        .expect("parses")
        .expect("present")
        .provider_profiles(&vec![accepted(1)])
        .expect("valid profile");
    assert_eq!(profiles[0].model_source, ModelSource::Configured);
    assert_eq!(profiles[0].declared_models[0], "remote-model");
}

#[test]
fn settings_vault_section_parses_into_the_typed_config() {
    let settings = load(
        r#"
[vault]
provider_id = "markdown-vault"
root = "/data/vault-root"
mode = "read_only"
scopes = ["knowledge", "task"]
exclusions = [".obsidian", "archive"]
"#,
    )
    .expect("valid settings")
    .expect("file present");
    let config = settings
        .vault_config(PathNotation::Unix, true)
        .expect("valid vault configuration")
        .expect("vault section present");
    assert_eq!(config.provider_id(), "markdown-vault");
    assert_eq!(config.mode(), VaultProviderMode::ReadOnly);
    assert_eq!(config.scopes().len(), 2);
    assert_eq!(config.exclusions().len(), 2);
    assert!(config.allows_kind(ProviderResourceKind::Knowledge));
    assert!(config.allows_kind(ProviderResourceKind::Task));
}

#[test]
fn settings_vault_section_rejects_invalid_and_absent_values() {
    let unknown_scope = load(
        r#"
[vault]
provider_id = "markdown-vault"
root = "unused"
mode = "read_write"
scopes = ["calendar"]
"#,
    )
    .expect("file parses")
    .expect("file present");
    assert!(matches!(
        unknown_scope.vault_config(PathNotation::Unix, true),
        Err(SettingsError::Invalid { field: "scopes" })
    ));

    // Unknown keys (including any credential-shaped field) fail startup.
    let credential = load(
        r#"
[vault]
provider_id = "markdown-vault"
root = "unused"
mode = "read_write"
scopes = ["knowledge"]
password = "hunter2"
"#,
    );
    assert!(matches!(credential, Err(SettingsError::Invalid { field: "file" })));

    let absent = LocalSettings::load(None).expect("missing file defaults");
    assert!(absent.is_none());
}

#[test]
fn unknown_keys_are_refused_wherever_they_stand() {
    for text in [
        "secrets = 1\n",
        "[daemon]\npassword = \"x\"\n",
        "[models]\ntoken = \"x\"\n",
        "[models.profiles.a]\nbase_url = \"u\"\nkey = \"x\"\n",
        "[models.profiles.a]\nbase_url = \"u\"\n[models.profiles.a.quirks]\nother = true\n",
        "[vault]\nprovider_id = \"v\"\nroot = \"r\"\nmode = \"read_only\"\nkey = \"x\"\n",
    ] {
        assert!(
            matches!(load(text), Err(SettingsError::Invalid { field: "file" })),
            "{text:?} must be refused"
        );
    }
}

#[test]
fn values_of_another_shape_are_refused() {
    for text in [
        "daemon = \"x\"\n",
        "[daemon]\ndatabase = 1\n",
        "models = 3\n",
        "[models]\nprofiles = []\n",
        "[models.profiles.a]\nenabled = true\n",
        "[models.profiles.a]\nbase_url = \"u\"\nenabled = \"yes\"\n",
        "[models.profiles.a]\nbase_url = \"u\"\nconnect_timeout_ms = -1\n",
        "[models.profiles.a]\nbase_url = \"u\"\nmodels = [1]\n",
        "[models.profiles.a]\nbase_url = \"u\"\nauth_type = \"basic\"\n",
        "[models.profiles.a]\nbase_url = \"u\"\nmodel_source = \"elsewhere\"\n",
        "[models.profiles.a]\nbase_url = \"u\"\nquirks = 2\n",
        "[vault]\nroot = \"r\"\nmode = \"read_only\"\n",
        "[vault]\nprovider_id = \"v\"\nroot = \"r\"\n",
        "[vault]\nprovider_id = \"v\"\nroot = \"r\"\nmode = \"append\"\n",
        "[vault]\nprovider_id = \"v\"\nroot = \"r\"\nmode = 1979-05-27\n",
    ] {
        assert!(load(text).is_err(), "{text:?} must be refused");
    }
}

#[test]
fn sections_may_be_written_as_bare_values() {
    let positional = load("daemon = [\"a.db\", \"lab\", 3]\n").expect("valid").expect("present");
    assert_eq!(positional.database_override(), Some("a.db"));
    assert_eq!(positional.endpoint_override(), Some("lab"));
    assert!(load("daemon = [\"a.db\"]\n").is_err());
    let vault = load("vault = [\"v\", \"/r\", { read_write = {} }]\n")
        .expect("valid")
        .expect("present");
    assert!(vault.vault_config(PathNotation::Unix, true).is_err(), "no scope is declared");
    assert!(load("vault = [\"v\", \"/r\", { read_write = { x = 1 } }]\n").is_err());
}

#[test]
fn a_file_without_sections_declares_nothing() {
    let file = SettingsFile::decode(&Json::Object(Vec::new())).expect("empty file");
    assert_eq!(file, SettingsFile { daemon: None, models: None, vault: None });
    let settings = load("").expect("valid").expect("present");
    assert_eq!(settings.default_profile_id(), None);
    assert!(matches!(settings.vault_config(PathNotation::Unix, true), Ok(None)));
}
