//! The daemon as a whole: startup, health, enrollment and clients across restarts.

use cortexd::admission::{Admission, Capability};
use cortexd::catalog::{CapabilityCatalog, CatalogEntry};
use cortexd::config::{
    paired_signer, seed_from, DaemonConfig, Discovery, DiscoveryAnswers, ModelConfig, PromptConfig,
    ProviderLimits,
};
use cortexd::daemon::{
    check_committed, client_verifiers, LocalDaemon, StartupFacts, VaultHealth,
    PROTECTED_CORTEX_PROMPT,
};
use cortexd::dispatch::Route;
use cortexd::enrollment::{
    enrollment_outcome, enrollment_response, load_explicit_enrollment, load_ipc_enrollment,
    load_remote_clients, manifest_entry, plan_enrollment, remote_enrollment_extension,
    ArtifactObservation, PrivateEnrollment, RemoteClientEntry, RemoteEnrollmentRecord,
};
use cortexd::error::{ApplicationError, DaemonError};
use cortexd::ids::{PrincipalId, WorkspaceId};
use cortexd::json::{member, Json};
use cortexd::locations::{
    data_directory_for, database_path_for, default_data_base, default_data_segments,
    default_database_path_for, DataBase, DataDirectory, DatabasePath,
};
use cortexd::models::{ModelResolution, RoutedModel};
use cortexd::reconcile::{ReconciliationError, ScanSnapshot};
use cortexd::session::{open_session, AuthenticatedIpcClient};
use cortexd::vault::{PathNotation, VaultProviderConfig, VaultProviderMode, VaultScope};
use cortexd::wire::{DaemonRequest, DaemonResponse, WireResult, PROTOCOL_VERSION};

const ID: u128 = 0x0192_6c8f_88f9_7d33_9a1b_2c7d_33bd_0a12;
const SEED: [u8; 32] = [
    0x9d, 0x61, 0xb1, 0x9d, 0xef, 0xfd, 0x5a, 0x60, 0xba, 0x84, 0x4a, 0xf4, 0x92, 0xec, 0x2c, 0xc4,
    0x44, 0x49, 0xc5, 0x69, 0x7b, 0x32, 0x69, 0x19, 0x70, 0x3b, 0xac, 0x03, 0x1c, 0xae, 0x7f, 0x60,
];
const PUBLIC: [u8; 32] = [
    0xd7, 0x5a, 0x98, 0x01, 0x82, 0xb1, 0x0a, 0xb7, 0xd5, 0x4b, 0xfe, 0xd3, 0xc9, 0x64, 0x07, 0x3a,
    0x0e, 0xe1, 0x72, 0xf3, 0xda, 0xa6, 0x23, 0x25, 0xaf, 0x02, 0x1a, 0x68, 0xf7, 0x07, 0x51, 0x1a,
];

fn catalog() -> CapabilityCatalog {
    CapabilityCatalog {
        entries: ["cortex_knowledge_search", "cortex_task_list", "cortex_task_create"]
            .into_iter()
            .zip(1u32..)
            .map(|(name, rank)| CatalogEntry {
                capability: Capability { rank },
                mcp_name: name.to_owned(),
            })
            .collect(),
    }
}

fn config() -> DaemonConfig {
    DaemonConfig::with_fresh_pairing(
        "cortexd-test".to_owned(),
        WorkspaceId { value: 1 },
        PrincipalId { value: 7 },
        SEED,
        &catalog(),
    )
}

fn vault(mode: VaultProviderMode) -> VaultProviderConfig {
    VaultProviderConfig::new(
        "markdown-vault",
        true,
        "/vault".to_owned(),
        mode,
        vec![VaultScope::new("knowledge").expect("valid")],
        Vec::new(),
    )
    .expect("valid config")
}

fn facts(clients: usize) -> StartupFacts {
    StartupFacts {
        key_exists: true,
        key: Some(SEED.to_vec()),
        key_stored: false,
        migrated: true,
        bootstrapped: true,
        committed: Some(Vec::new()),
        persisted: Some((0..=clients).map(|_| vec![Capability { rank: 1 }]).collect()),
        prompt_file: None,
        canonical_root: Some(vec!["vault".to_owned()]),
        notation: PathNotation::Unix,
        scan: Ok(ScanSnapshot { candidates: Vec::new(), skipped: 0 }),
        seen: Vec::new(),
        root_is_directory: true,
        now: "2026-08-01T10:00:00+00:00".to_owned(),
    }
}

fn value(response: DaemonResponse) -> Json {
    match response.result {
        WireResult::Success { value } => value,
        WireResult::Error { code } => panic!("expected success, got error code {code}"),
    }
}

fn record(config: &DaemonConfig, principal: u128, grants: &[u32]) -> RemoteEnrollmentRecord {
    let principal_id = PrincipalId { value: principal };
    let seed = config.derived_remote_signing_key(principal_id);
    RemoteEnrollmentRecord {
        correlation_id: ID,
        subject: format!("subject-{principal}"),
        principal_id,
        grants: grants.iter().map(|rank| Capability { rank: *rank }).collect(),
        pairing_verifier: ed25519_dalek::SigningKey::from_bytes(&seed)
            .verifying_key()
            .to_bytes(),
    }
}

#[test]
fn pairing_verifiers_are_the_public_keys_of_their_seeds() {
    let config = config();
    assert_eq!(config.discovery().pairing_verifier, PUBLIC);
    assert_eq!(client_verifiers(&config)[0].pairing_verifier, PUBLIC);
    assert_eq!(seed_from(&SEED.to_vec()), Some(SEED));
    assert_eq!(seed_from(&vec![1; 31]), None);
    assert_eq!(paired_signer(&Some(SEED.to_vec()), &PUBLIC), Ok(SEED));
    assert!(paired_signer(&Some(vec![1; 32]), &PUBLIC).is_err());
    assert!(paired_signer(&None, &PUBLIC).is_err());
}

#[test]
fn daemon_migrates_before_it_serves_and_rejects_unpaired_clients() {
    let daemon = LocalDaemon::start(config(), facts(0)).ok().expect("daemon starts");
    assert!(daemon.migrations_applied());
    assert_eq!(daemon.unpaired_status().err(), Some(DaemonError::Unauthenticated));
    assert_eq!(daemon.ownership_identity(), (1, 7));
    assert_eq!(daemon.endpoint_name(), "cortexd-test");
    let mut unmigrated = facts(0);
    unmigrated.migrated = false;
    assert_eq!(
        LocalDaemon::start(config(), unmigrated).err(),
        Some(DaemonError::StartupFailed)
    );
    let mut foreign_key = facts(0);
    foreign_key.key = Some(vec![1; 32]);
    assert_eq!(
        LocalDaemon::start(config(), foreign_key).err(),
        Some(DaemonError::InvalidConfiguration)
    );
    let mut unscanned = facts(0);
    unscanned.scan = Err(ReconciliationError::ScanIncomplete);
    let mounted = config()
        .with_vault_provider(vault(VaultProviderMode::ReadOnly), true)
        .ok()
        .expect("mounts");
    assert_eq!(
        LocalDaemon::start(mounted, unscanned).err(),
        Some(DaemonError::StartupFailed)
    );
}

#[test]
fn secrets_are_resolved_only_where_they_are_configured() {
    let start = |config: DaemonConfig, inference: bool, model: bool| {
        LocalDaemon::start_with_secret_store(config, facts(0), inference, model).err()
    };
    assert_eq!(start(config(), false, false), None);
    let with_secret = || config().with_inference_secret("keyring:cortexd/nim".to_owned());
    assert_eq!(start(with_secret(), true, false), None);
    assert_eq!(start(with_secret(), false, true), Some(DaemonError::StartupFailed));
    assert_eq!(
        LocalDaemon::start(with_secret(), facts(0)).err(),
        Some(DaemonError::InvalidConfiguration)
    );
}

#[test]
fn doctor_and_status_report_vault_health() {
    let config = config()
        .with_vault_provider(vault(VaultProviderMode::ReadOnly), true)
        .ok()
        .expect("mounts");
    let mut daemon = LocalDaemon::start(config, facts(0)).ok().expect("daemon starts");
    let report = value(daemon.diagnostic_response(
        PrincipalId { value: 7 },
        ID,
        "cortex_daemon_doctor",
        true,
    ));
    assert_eq!(member(&report, "migrations_applied"), Some(&Json::Bool(true)));
    assert_eq!(
        member(&report, "correlation_id"),
        Some(&Json::Text("01926c8f-88f9-7d33-9a1b-2c7d33bd0a12".to_owned()))
    );
    let health = member(&report, "vault").expect("vault health");
    assert_eq!(member(health, "mode"), Some(&Json::Text("read_only".to_owned())));
    assert_eq!(member(health, "fresh"), Some(&Json::Bool(true)));
    assert_eq!(member(health, "semantic"), Some(&Json::Text("degraded".to_owned())));

    // An outage is reported, and what was indexed before stays.
    assert!(!daemon.refresh_vault_index(
        Err(ReconciliationError::ScanIncomplete),
        Vec::new(),
        false,
        "later".to_owned()
    ));
    let health = daemon.vault_health_json(false);
    assert_eq!(member(&health, "fresh"), Some(&Json::Bool(false)));
    assert_eq!(member(&health, "root_accessible"), Some(&Json::Bool(false)));
    assert!(daemon.refresh_vault_index(
        Ok(ScanSnapshot { candidates: Vec::new(), skipped: 0 }),
        Vec::new(),
        true,
        "later".to_owned()
    ));
    assert_eq!(member(&daemon.vault_health_json(true), "fresh"), Some(&Json::Bool(true)));
    assert_eq!(VaultHealth::default().refreshed_at, None);
}

#[test]
fn daemons_without_a_vault_say_so() {
    let daemon = LocalDaemon::start(config(), facts(0)).ok().expect("daemon starts");
    assert_eq!(member(&daemon.vault_health_json(true), "configured"), Some(&Json::Bool(false)));
    assert!(daemon.vault().is_none());
    assert!(daemon.vault_index().resources().is_empty());
}

#[test]
fn resolved_models_are_installed_and_listed() {
    let mut daemon = LocalDaemon::start(config(), facts(0)).ok().expect("daemon starts");
    assert_eq!(daemon.resolved_profile(), None);
    let installed = daemon.install_resolved_model(ModelResolution::Configured {
        config: ModelConfig {
            base_url: "http://127.0.0.1:8000/v1/".to_owned(),
            model: "m".to_owned(),
            secret_reference: None,
            timeout_millis: 5_000,
            limits: ProviderLimits::for_models(),
            omit_tool_choice: false,
        },
        route: RoutedModel { profile_id: "local".to_owned(), model_id: "m".to_owned() },
        models: vec!["m".to_owned(), "n".to_owned()],
    });
    assert!(installed.is_some());
    assert_eq!(daemon.resolved_profile(), Some("local"));
    assert_eq!(
        value(daemon.model_list_response(ID)),
        Json::Object(vec![(
            "models".to_owned(),
            Json::Array(vec![Json::Text("m".to_owned()), Json::Text("n".to_owned())])
        )])
    );
    assert_eq!(daemon.discovered_models().len(), 2);
}

#[test]
fn the_protected_prompt_stands_before_every_configured_one() {
    let prompt = PromptConfig {
        global_inline: Some("be brief".to_owned()),
        global_file: None,
        profiles: vec![("local".to_owned(), "local rules".to_owned())],
    };
    let daemon = LocalDaemon::start(config().with_prompt_config(prompt), facts(0))
        .ok()
        .expect("daemon starts");
    let layers = daemon.stable_layers(Some("local"));
    assert_eq!(layers[0], PROTECTED_CORTEX_PROMPT);
    assert!(layers[1..].iter().any(|layer| layer == "be brief"));
    assert!(layers[1..].iter().any(|layer| layer == "local rules"));
    assert_eq!(daemon.composed_stable_prompt(Some("composed".to_owned())), "composed");
    assert_eq!(daemon.composed_stable_prompt(None), PROTECTED_CORTEX_PROMPT);
}

#[test]
fn clients_authenticate_across_restarts_with_the_stored_key() {
    let discovery = config().discovery();
    let enrollment = load_ipc_enrollment(Some(discovery), true, &Some(SEED.to_vec()))
        .expect("enrollment loads");
    let client = AuthenticatedIpcClient::from_enrollment(enrollment);
    assert_eq!(client.endpoint_name(), "cortexd-test");
    assert_eq!(client.principal_id(), PrincipalId { value: 7 });
    let daemon = LocalDaemon::start(config(), facts(0)).ok().expect("daemon starts");
    let challenge = open_session(ID);
    let proven = client.prove(Some(&challenge)).expect("challenge is answered");
    assert_eq!(daemon.verify_pairing(&challenge, &proven), Some(PrincipalId { value: 7 }));
    assert_eq!(daemon.pairing_response(&challenge), proven);
    assert!(client.prove(None).is_err());
    let mut stale = open_session(ID);
    stale.protocol_version = PROTOCOL_VERSION - 1;
    assert!(client.prove(Some(&stale)).is_err());
    // An answer counts only under the identifier it was asked with.
    assert!(client.accept(ID, Some(DaemonResponse::success(ID, Json::Null))).is_ok());
    assert!(client.accept(ID, Some(DaemonResponse::success(ID + 1, Json::Null))).is_err());
    assert!(client.accept(ID, None).is_err());
    assert_eq!(client.encode_frame(&vec![1]), Ok(vec![1, 0, 0, 0, 1]));
    assert_eq!(client.frame_length([9, 0, 0, 0]), Ok(9));
}

#[test]
fn discovery_keeps_owner_and_endpoint_after_restart() {
    let answers = DiscoveryAnswers { workspace_id: true, principal_id: true };
    let restart = |discovery: Option<Discovery>, key: Option<Vec<u8>>| {
        DaemonConfig::from_discovery(
            discovery,
            answers,
            &key,
            Ok(Vec::new()),
            &catalog(),
            None,
            PromptConfig::default(),
        )
    };
    let again = restart(Some(config().discovery()), Some(SEED.to_vec())).ok().expect("restarts");
    assert_eq!(again.endpoint_name(), "cortexd-test");
    assert_eq!(again.owner_principal_id(), 7);
    assert_eq!(again.workspace_id(), WorkspaceId { value: 1 });
    assert_eq!(
        restart(Some(config().discovery()), Some(vec![2; 32])).err(),
        Some(DaemonError::InvalidConfiguration)
    );
    assert!(restart(None, Some(SEED.to_vec())).is_err());
}

#[test]
fn remote_enrollment_is_reconciled_once_and_retried_safely() {
    let mut config = config();
    let record = record(&config, 21, &[1, 2]);
    let artifact = config
        .artifact_for(&record, ArtifactObservation::Absent, &catalog())
        .expect("record is valid")
        .expect("an artifact is due");
    assert_eq!(artifact.endpoint_name, "cortexd-test");
    assert_eq!(artifact.principal_id, 21);
    assert_eq!(
        config
            .reconcile_remote_enrollment(&record, ArtifactObservation::Absent, false, &catalog())
            .err(),
        Some(DaemonError::InvalidConfiguration)
    );
    let first = config
        .reconcile_remote_enrollment(&record, ArtifactObservation::Absent, true, &catalog())
        .expect("enrolls");
    assert!(first.manifest_due);
    assert_eq!(first.enrollment.principal_id, PrincipalId { value: 21 });
    let found = |enrollment: PrivateEnrollment| ArtifactObservation::Found {
        enrollment,
        principal_accepted: true,
    };
    let again = config
        .reconcile_remote_enrollment(&record, found(artifact), true, &catalog())
        .expect("retries");
    assert!(!again.manifest_due);
    assert_eq!(config.remote_clients.len(), 1);
    assert_eq!(client_verifiers(&config).len(), 2);
    // A foreign artifact at the same place is not taken over.
    let foreign = PrivateEnrollment {
        endpoint_name: "cortexd-test".to_owned(),
        principal_id: 21,
        signing_key: [9; 32],
    };
    assert!(config
        .reconcile_remote_enrollment(&record, found(foreign), true, &catalog())
        .is_err());
    assert!(check_committed(&config.remote_clients, &vec![record]).is_ok());
    assert!(check_committed(&config.remote_clients, &Vec::new()).is_err());
}

#[test]
fn enrolled_clients_are_admitted_after_a_restart_with_their_own_grants() {
    let mut config = config();
    let record = record(&config, 21, &[2]);
    config
        .reconcile_remote_enrollment(&record, ArtifactObservation::Absent, true, &catalog())
        .expect("enrolls");
    let seed = config.derived_remote_signing_key(PrincipalId { value: 21 });
    let mut facts = facts(1);
    facts.committed = Some(vec![record]);
    facts.persisted = Some(vec![vec![Capability { rank: 1 }], vec![Capability { rank: 2 }]]);
    let daemon = LocalDaemon::start(config, facts).ok().expect("daemon starts");
    let challenge = open_session(ID);
    let proven = cortexd::wire::pairing_response_for(&seed, &challenge);
    let remote = PrincipalId { value: 21 };
    assert_eq!(daemon.verify_pairing(&challenge, &proven), Some(remote));
    assert!(daemon.admission().is_granted(remote, Capability { rank: 2 }));
    assert!(!daemon.admission().is_granted(remote, Capability { rank: 1 }));
    assert!(daemon.admission().is_granted(PrincipalId { value: 7 }, Capability { rank: 1 }));
}

#[test]
fn manifests_are_read_as_they_were_written() {
    let mut config = config();
    let record = record(&config, 21, &[1, 3]);
    config
        .reconcile_remote_enrollment(&record, ArtifactObservation::Absent, true, &catalog())
        .expect("enrolls");
    let entry = manifest_entry(&config.remote_clients[0], &catalog()).expect("named grants");
    assert_eq!(entry.bootstrap_grants, vec!["cortex_knowledge_search", "cortex_task_create"]);
    let loaded = load_remote_clients(Some(Ok(vec![entry])), &catalog()).expect("manifest loads");
    assert_eq!(loaded, config.remote_clients);
    let bad = RemoteClientEntry {
        principal_id: 21,
        principal_accepted: true,
        pairing_verifier: [0; 32],
        bootstrap_grants: vec!["cortex_unknown".to_owned()],
        subject: "s".to_owned(),
    };
    assert!(load_remote_clients(Some(Ok(vec![bad])), &catalog()).is_err());
    assert!(load_remote_clients(Some(Err(())), &catalog()).is_err());
    assert_eq!(load_remote_clients(None, &catalog()), Ok(Vec::new()));
}

#[test]
fn explicit_enrollments_name_their_endpoint() {
    let observed = |endpoint: &str, principal_accepted: bool| ArtifactObservation::Found {
        enrollment: PrivateEnrollment {
            endpoint_name: endpoint.to_owned(),
            principal_id: 21,
            signing_key: SEED,
        },
        principal_accepted,
    };
    let loaded = load_explicit_enrollment(observed("cortexd-test", true)).expect("loads");
    assert_eq!(loaded.seed, SEED);
    assert!(load_explicit_enrollment(observed("cortexd-test", false)).is_err());
    assert!(load_explicit_enrollment(observed("", true)).is_err());
    assert!(load_explicit_enrollment(observed(&"x".repeat(254), true)).is_err());
    assert!(load_explicit_enrollment(ArtifactObservation::Absent).is_err());
    assert!(load_explicit_enrollment(ArtifactObservation::Unreadable).is_err());
    assert!(remote_enrollment_extension(PrincipalId { value: ID })
        .contains("01926c8f-88f9-7d33-9a1b-2c7d33bd0a12"));
}

#[test]
fn enrollment_requests_bind_the_derived_key_and_the_named_grants() {
    let config = config();
    let admission = Admission {
        workspace_id: WorkspaceId { value: 1 },
        owner_principal_id: PrincipalId { value: 7 },
        grants: Vec::new(),
    };
    let request = |grant: &str| DaemonRequest {
        protocol_version: PROTOCOL_VERSION,
        request_id: ID,
        principal_id: ID,
        operation_id: ID + 1,
        capability: "cortex_remote_enroll".to_owned(),
        payload: Json::Object(vec![
            ("subject".to_owned(), Json::Text("phone".to_owned())),
            ("grants".to_owned(), Json::Array(vec![Json::Text(grant.to_owned())])),
        ]),
    };
    let proposed = PrincipalId { value: 33 };
    let planned =
        plan_enrollment(&admission, &request("cortex_task_list"), &catalog(), &config, proposed)
            .expect("planned");
    assert_eq!(planned.subject, "phone");
    assert_eq!(planned.grants, vec![Capability { rank: 2 }]);
    assert_eq!(planned.max_remote_clients, 16);
    let seed = config.derived_remote_signing_key(proposed);
    assert_eq!(
        planned.pairing_verifier,
        ed25519_dalek::SigningKey::from_bytes(&seed).verifying_key().to_bytes()
    );
    assert_ne!(seed, config.derived_remote_signing_key(PrincipalId { value: 34 }));
    assert!(
        plan_enrollment(&admission, &request("unknown"), &catalog(), &config, proposed).is_err()
    );
}

#[test]
fn enrollment_answers_name_the_artifact_and_ask_for_a_restart() {
    let mut config = config();
    let record = record(&config, 21, &[1]);
    let reconciled = config
        .reconcile_remote_enrollment(&record, ArtifactObservation::Absent, true, &catalog())
        .expect("enrolls");
    let answer = value(
        enrollment_response(ID, ID, &reconciled.enrollment, "/data/x.enroll", &catalog())
            .expect("answered"),
    );
    assert_eq!(member(&answer, "restart_required"), Some(&Json::Bool(true)));
    assert_eq!(
        member(&answer, "ipc_enrollment_path"),
        Some(&Json::Text("/data/x.enroll".to_owned()))
    );
    assert_eq!(
        member(&answer, "grants"),
        Some(&Json::Array(vec![Json::Text("cortex_knowledge_search".to_owned())]))
    );
    assert!(enrollment_outcome(Ok(record)).is_ok());
    assert_eq!(
        enrollment_outcome(Err(ApplicationError::Conflict { entity: "remote" })).err(),
        Some(DaemonError::Conflict)
    );
}

#[test]
fn the_daemon_answers_its_own_routes_and_leaves_the_rest() {
    let daemon = LocalDaemon::start(config(), facts(0)).ok().expect("daemon starts");
    let client = daemon.paired_client();
    assert_eq!(client.principal_id(), PrincipalId { value: 7 });
    for (route, name) in
        [(Route::Status, "status"), (Route::Doctor, "doctor"), (Route::Logs, "logs")]
    {
        let answer = daemon.own_answer(client.principal_id(), ID, route, true).expect("answered");
        assert_eq!(
            member(&value(answer), "capability"),
            Some(&Json::Text(name.to_owned()))
        );
    }
    assert!(daemon.own_answer(client.principal_id(), ID, Route::ModelList, true).is_some());
    assert!(daemon.own_answer(client.principal_id(), ID, Route::Search, true).is_none());
    let challenge = open_session(ID);
    let proven = daemon.pairing_response(&challenge);
    assert!(daemon.authenticated_client(&challenge, &proven).is_some());
    assert!(daemon.authenticated_client(&open_session(ID + 1), &proven).is_none());
    assert_eq!(daemon.ownership_workspace_id(), WorkspaceId { value: 1 });
}

#[test]
fn provisioned_clients_answer_for_the_owner() {
    let client = config().provisioned_client();
    let daemon = LocalDaemon::start(config(), facts(0)).ok().expect("daemon starts");
    let challenge = open_session(ID);
    assert_eq!(
        daemon.verify_pairing(&challenge, &client.pairing_response(&challenge)),
        Some(PrincipalId { value: 7 })
    );
}

#[test]
fn locations_follow_the_override_then_the_platform() {
    assert_eq!(default_data_base(true, true), DataBase::Declared);
    assert_eq!(default_data_base(false, true), DataBase::Home);
    assert_eq!(default_data_base(false, false), DataBase::Temporary);
    assert_eq!(default_data_segments(DataBase::Home), vec![".local", "share", "cortex"]);
    assert_eq!(default_data_segments(DataBase::Declared), vec!["cortex"]);
    assert_eq!(data_directory_for(Some(4)), DataDirectory::OverrideParent);
    assert_eq!(data_directory_for(Some(0)), DataDirectory::Platform);
    assert_eq!(data_directory_for(None), DataDirectory::Platform);
    assert_eq!(database_path_for(true, true), DatabasePath::Settings);
    assert_eq!(database_path_for(false, true), DatabasePath::Override);
    assert_eq!(default_database_path_for(false), DatabasePath::Platform);
}

#[test]
fn manifests_hold_public_keys_only() {
    let key = |first: u8| {
        let mut bytes = [0u8; 32];
        bytes[0] = first;
        bytes
    };
    let foreign = (0..=255u8)
        .map(key)
        .find(|bytes| ed25519_dalek::VerifyingKey::from_bytes(bytes).is_err())
        .expect("some encodings are no curve points");
    let entry = |pairing_verifier: [u8; 32]| RemoteClientEntry {
        principal_id: 21,
        principal_accepted: true,
        pairing_verifier,
        bootstrap_grants: vec!["cortex_task_list".to_owned()],
        subject: "s".to_owned(),
    };
    assert!(load_remote_clients(Some(Ok(vec![entry(foreign)])), &catalog()).is_err());
    assert!(load_remote_clients(Some(Ok(vec![entry(PUBLIC)])), &catalog()).is_ok());
    assert!(
        load_remote_clients(Some(Ok(vec![entry(PUBLIC), entry(PUBLIC)])), &catalog()).is_err(),
        "a principal is listed once"
    );
}
