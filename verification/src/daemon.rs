//! The state-owning daemon: how it is composed at startup, the health of its vault, and its
//! diagnostics.
use crate::admission::{Admission, Capability, CapabilityGrant};
use crate::config::{
    instructions, key_view, DaemonConfig, RemoteClientConfig, RemoteClientModel,
    ResolvedPromptConfig,
};
use crate::crypto::ed25519_public_key;
use crate::dispatch::Route;
use crate::enrollment::{text_array, text_items, RemoteEnrollmentRecord};
use crate::error::DaemonError;
use crate::ids::{uuid_text, uuid_to_text, PrincipalId, ProviderResourceKind, WorkspaceId};
use crate::index::{same_bytes, DerivedVaultIndex, IndexModel};
use crate::json::{
    get, lemma_get_at, member_views, object, optional_text, put, text, Json, JsonModel,
};
use crate::models::ModelResolution;
use crate::payloads::opt_view;
use crate::reconcile::{
    scan_wf, EventObservation, ReconciliationError, ReconciliationReport, ScanSnapshot,
};
use crate::text::same_text;
use crate::vault::{PathNotation, VaultProviderConfig, VaultProviderMode};
use crate::vault_provider::{views, MarkdownVaultProvider};
use crate::vault_scan::{rebuild_vault, reconciled};
use crate::wire::{
    authenticated, pairing_response_for, proves, verify_pairing, ClientVerifier, DaemonResponse,
    PairingChallenge, PairingResponse,
};
use vstd::prelude::*;

verus! {

/// Secret-free facts about the vault. The counters come from the last full reconciliation.
#[derive(Debug, PartialEq, Eq)]
pub struct VaultHealth {
    pub refreshed_at: Option<String>,
    pub indexed: usize,
    pub unchanged: usize,
    pub removed: usize,
    pub skipped: usize,
    pub fresh: bool,
    pub root_accessible: bool,
}

impl Default for VaultHealth {
    fn default() -> (health: Self)
        ensures
            health.refreshed_at is None,
            health.indexed == 0 && health.unchanged == 0 && health.removed == 0 && health.skipped
                == 0,
            !health.fresh,
            !health.root_accessible,
    {
        VaultHealth {
            refreshed_at: None,
            indexed: 0,
            unchanged: 0,
            removed: 0,
            skipped: 0,
            fresh: false,
            root_accessible: false,
        }
    }
}

impl VaultHealth {
    /// The health shows the report of a reconciliation that finished at `now`.
    pub open spec fn shows(self, report: ReconciliationReport, root_accessible: bool, now: String) -> bool {
        &&& self.refreshed_at == Some(now)
        &&& self.indexed == report.indexed
        &&& self.unchanged == report.unchanged
        &&& self.removed == report.removed
        &&& self.skipped == report.skipped
        &&& self.fresh
        &&& self.root_accessible == root_accessible
    }

    /// The health after a reconciliation that finished.
    pub fn from_report(report: &ReconciliationReport, root_accessible: bool, now: String) -> (health: Self)
        ensures
            health.shows(*report, root_accessible, now),
    {
        VaultHealth {
            refreshed_at: Some(now),
            indexed: report.indexed,
            unchanged: report.unchanged,
            removed: report.removed,
            skipped: report.skipped,
            fresh: true,
            root_accessible,
        }
    }
}

/// The first committed record with the subject.
pub open spec fn record_with(records: Seq<RemoteEnrollmentRecord>, subject: Seq<char>) -> Option<
    RemoteEnrollmentRecord,
>
    decreases records.len(),
{
    if records.len() == 0 {
        None
    } else if records[0].subject@ == subject {
        Some(records[0])
    } else {
        record_with(records.drop_first(), subject)
    }
}

/// The client is the one that was committed under its subject.
pub open spec fn committed(records: Seq<RemoteEnrollmentRecord>, client: RemoteClientModel) -> bool {
    record_with(records, client.subject) matches Some(record) && record.client() == client
}

fn is_committed(records: &Vec<RemoteEnrollmentRecord>, client: &RemoteClientConfig) -> (holds: bool)
    ensures
        holds == committed(records@, client@),
{
    let mut i: usize = 0;
    assert(records@.subrange(0, records@.len() as int) =~= records@);
    while i < records.len()
        invariant
            i <= records@.len(),
            record_with(records@, client.subject@) == record_with(
                records@.subrange(i as int, records@.len() as int),
                client.subject@,
            ),
        decreases records@.len() - i,
    {
        let ghost rest = records@.subrange(i as int, records@.len() as int);
        assert(rest[0] == records@[i as int]);
        assert(rest.drop_first() =~= records@.subrange(i + 1, records@.len() as int));
        let record = &records[i];
        if same_text(record.subject.as_str(), client.subject.as_str()) {
            return record.principal_id == client.principal_id && same_bytes(
                &record.pairing_verifier,
                &client.pairing_verifier,
            ) && crate::enrollment::same_capabilities(&record.grants, &client.bootstrap_grants);
        }
        i += 1;
    }
    false
}

/// Holds the configured clients against the committed enrollments.
pub fn check_committed(
    clients: &Vec<RemoteClientConfig>,
    records: &Vec<RemoteEnrollmentRecord>,
) -> (checked: Result<(), DaemonError>)
    ensures
        checked == (if forall|i: int|
            0 <= i < clients@.len() ==> committed(records@, (#[trigger] clients@[i])@) {
            Ok::<(), DaemonError>(())
        } else {
            Err::<(), DaemonError>(DaemonError::StartupFailed)
        }),
{
    let mut i: usize = 0;
    while i < clients.len()
        invariant
            i <= clients@.len(),
            forall|j: int| 0 <= j < i ==> committed(records@, (#[trigger] clients@[j])@),
        decreases clients@.len() - i,
    {
        if !is_committed(records, &clients[i]) {
            assert(!committed(records@, clients@[i as int]@));
            return Err(DaemonError::StartupFailed);
        }
        i += 1;
    }
    Ok(())
}

/// The clients that may pair: the owner first, then the remote clients in their order.
pub open spec fn verifiers_of(config: DaemonConfig) -> Seq<ClientVerifier> {
    seq![
        ClientVerifier {
            principal_id: config.principal_id,
            pairing_verifier: config.pairing_verifier,
        },
    ] + config.remote_clients@.map_values(
        |client: RemoteClientConfig|
            ClientVerifier {
                principal_id: client.principal_id,
                pairing_verifier: client.pairing_verifier,
            },
    )
}

/// The clients that may pair.
pub fn client_verifiers(config: &DaemonConfig) -> (verifiers: Vec<ClientVerifier>)
    ensures
        verifiers@ == verifiers_of(*config),
{
    let mut verifiers: Vec<ClientVerifier> = Vec::new();
    verifiers.push(
        ClientVerifier {
            principal_id: config.principal_id,
            pairing_verifier: config.pairing_verifier,
        },
    );
    let mut i: usize = 0;
    while i < config.remote_clients.len()
        invariant
            i <= config.remote_clients@.len(),
            verifiers@ == verifiers_of(*config).subrange(0, i + 1),
        decreases config.remote_clients@.len() - i,
    {
        let client = &config.remote_clients[i];
        verifiers.push(
            ClientVerifier {
                principal_id: client.principal_id,
                pairing_verifier: client.pairing_verifier,
            },
        );
        assert(verifiers@ =~= verifiers_of(*config).subrange(0, i + 2));
        i += 1;
    }
    assert(verifiers@ =~= verifiers_of(*config));
    verifiers
}

/// The grant is one of those persisted for one of the clients.
pub open spec fn persisted_grant(
    workspace_id: WorkspaceId,
    clients: Seq<ClientVerifier>,
    persisted: Seq<Vec<Capability>>,
    grant: CapabilityGrant,
) -> bool {
    exists|i: int|
        0 <= i < clients.len() && grant.workspace_id == workspace_id && grant.principal_id == (
        #[trigger] clients[i]).principal_id && persisted[i]@.contains(grant.capability)
}

/// Collects what the store persisted for each client.
pub fn collect_grants(
    workspace_id: WorkspaceId,
    clients: &Vec<ClientVerifier>,
    persisted: &Vec<Vec<Capability>>,
) -> (grants: Vec<CapabilityGrant>)
    requires
        clients@.len() == persisted@.len(),
    ensures
        forall|grant: CapabilityGrant|
            grants@.contains(grant) <==> persisted_grant(workspace_id, clients@, persisted@, grant),
{
    let mut grants: Vec<CapabilityGrant> = Vec::new();
    let mut i: usize = 0;
    while i < clients.len()
        invariant
            i <= clients@.len(),
            clients@.len() == persisted@.len(),
            forall|g: int|
                0 <= g < grants@.len() ==> persisted_grant(
                    workspace_id,
                    clients@,
                    persisted@,
                    #[trigger] grants@[g],
                ),
            forall|j: int, k: int|
                0 <= j < i && 0 <= k < persisted@[j]@.len() ==> grants@.contains(
                    CapabilityGrant {
                        workspace_id,
                        principal_id: clients@[j].principal_id,
                        capability: #[trigger] persisted@[j]@[k],
                    },
                ),
        decreases clients@.len() - i,
    {
        let list = &persisted[i];
        let mut k: usize = 0;
        while k < list.len()
            invariant
                i < clients@.len(),
                clients@.len() == persisted@.len(),
                list@ == persisted@[i as int]@,
                k <= list@.len(),
                forall|g: int|
                    0 <= g < grants@.len() ==> persisted_grant(
                        workspace_id,
                        clients@,
                        persisted@,
                        #[trigger] grants@[g],
                    ),
                forall|j: int, m: int|
                    0 <= j < i && 0 <= m < persisted@[j]@.len() ==> grants@.contains(
                        CapabilityGrant {
                            workspace_id,
                            principal_id: clients@[j].principal_id,
                            capability: #[trigger] persisted@[j]@[m],
                        },
                    ),
                forall|m: int|
                    0 <= m < k ==> grants@.contains(
                        CapabilityGrant {
                            workspace_id,
                            principal_id: clients@[i as int].principal_id,
                            capability: #[trigger] persisted@[i as int]@[m],
                        },
                    ),
            decreases list@.len() - k,
        {
            let grant = CapabilityGrant {
                workspace_id,
                principal_id: clients[i].principal_id,
                capability: list[k],
            };
            let ghost before = grants@;
            grants.push(grant);
            proof {
                assert(persisted@[i as int]@.contains(grant.capability));
                assert(clients@[i as int].principal_id == grant.principal_id);
                assert forall|old_grant: CapabilityGrant| before.contains(
                    old_grant,
                ) implies grants@.contains(old_grant) by {
                    let g = choose|g: int| 0 <= g < before.len() && before[g] == old_grant;
                    assert(grants@[g] == old_grant);
                }
                assert(grants@[before.len() as int] == grant);
            }
            k += 1;
        }
        i += 1;
    }
    assert forall|grant: CapabilityGrant| persisted_grant(
        workspace_id,
        clients@,
        persisted@,
        grant,
    ) implies grants@.contains(grant) by {
        let j = choose|j: int|
            0 <= j < clients@.len() && grant.workspace_id == workspace_id && grant.principal_id == (
            #[trigger] clients@[j]).principal_id && persisted@[j]@.contains(grant.capability);
        let k = choose|k: int|
            0 <= k < persisted@[j]@.len() && persisted@[j]@[k] == grant.capability;
        assert(grants@.contains(
            CapabilityGrant {
                workspace_id,
                principal_id: clients@[j].principal_id,
                capability: persisted@[j]@[k],
            },
        ));
    }
    grants
}

/// The instructions that nobody can configure away. They open every prompt.
pub const PROTECTED_CORTEX_PROMPT: &'static str =
    "You are Cortex, a local-first personal knowledge agent. You can read and change the user's notes, tasks, and memories through the provided tools. Prefer a tool over guessing, never fabricate entity identifiers, and keep answers concise.";

/// What the world answered while the daemon started.
pub struct StartupFacts {
    /// The key file is there.
    pub key_exists: bool,
    /// What the key file holds, where it can be read.
    pub key: Option<Vec<u8>>,
    /// The key file could be written, where it had to be.
    pub key_stored: bool,
    /// The database was opened and migrated.
    pub migrated: bool,
    /// The owner was put in place with the bootstrap grants.
    pub bootstrapped: bool,
    /// The enrollments that the store has committed.
    pub committed: Option<Vec<RemoteEnrollmentRecord>>,
    /// What the store has persisted for the owner and for each remote client, in that order.
    pub persisted: Option<Vec<Vec<Capability>>>,
    /// What the prompt file holds.
    pub prompt_file: Option<String>,
    /// The components of the vault root with its symlinks resolved.
    pub canonical_root: Option<Vec<String>>,
    /// How the platform writes paths.
    pub notation: PathNotation,
    /// The full scan of the vault, and what each candidate held.
    pub scan: Result<ScanSnapshot, ReconciliationError>,
    pub seen: Vec<EventObservation>,
    /// The vault root is a directory.
    pub root_is_directory: bool,
    /// The time, in RFC 3339.
    pub now: String,
}

impl StartupFacts {
    /// The facts fit together: one observation for each candidate, one list of grants for each
    /// client.
    pub open spec fn wf(self, config: DaemonConfig) -> bool {
        &&& scan_wf(self.scan)
        &&& self.scan matches Ok(snapshot) ==> snapshot.candidates@.len() == self.seen@.len() && 2
            * self.seen@.len() <= usize::MAX
        &&& self.persisted matches Some(persisted) ==> persisted@.len()
            == config.remote_clients@.len() + 1
    }
}

/// The key file holds the key of the configuration, or was written with it.
pub open spec fn key_in_place(config: DaemonConfig, facts: StartupFacts) -> bool {
    if facts.key_exists {
        key_view(facts.key) matches Some(seed) && seed.len() == 32 && ed25519_public_key(seed)
            == config.pairing_verifier@
    } else {
        facts.key_stored
    }
}

/// The store did its part, and every configured client is a committed one.
pub open spec fn store_agrees(config: DaemonConfig, facts: StartupFacts) -> bool {
    &&& facts.migrated
    &&& facts.bootstrapped
    &&& facts.committed matches Some(records)
    &&& forall|i: int|
        0 <= i < config.remote_clients@.len() ==> committed(
            records@,
            (#[trigger] config.remote_clients@[i])@,
        )
    &&& facts.persisted is Some
}

/// Why the daemon does not start, if it does not.
pub open spec fn startup_failure(config: DaemonConfig, facts: StartupFacts) -> Option<DaemonError> {
    if !key_in_place(config, facts) {
        Some(DaemonError::InvalidConfiguration)
    } else if !store_agrees(config, facts) {
        Some(DaemonError::StartupFailed)
    } else if crate::config::resolved_prompt(config.prompt, facts.prompt_file) is Err {
        Some(DaemonError::InvalidConfiguration)
    } else if config.vault is Some && (facts.canonical_root is None || facts.scan is Err) {
        Some(DaemonError::StartupFailed)
    } else {
        None
    }
}

/// A secret has to be resolved before the daemon can start.
pub open spec fn needs_secret(config: DaemonConfig) -> bool {
    ||| config.inference_secret is Some
    ||| config.model_config matches Some(model) && model.secret_reference is Some
}

/// A handle that stands for a completed local authentication. Only a daemon issues one, so that no
/// payload can make up a trusted principal.
pub struct AuthenticatedLocalClient {
    principal_id: PrincipalId,
}

impl AuthenticatedLocalClient {
    /// On whose behalf the handle asks.
    pub closed spec fn identity(self) -> PrincipalId {
        self.principal_id
    }

    /// On whose behalf the handle asks.
    pub fn principal_id(&self) -> (id: PrincipalId)
        ensures
            id == self.identity(),
    {
        self.principal_id
    }
}

/// The state-owning daemon.
pub struct LocalDaemon {
    endpoint_name: String,
    owner_pairing_seed: [u8; 32],
    client_verifiers: Vec<ClientVerifier>,
    migrations_applied: bool,
    admission: Admission,
    vault: Option<MarkdownVaultProvider>,
    vault_health: VaultHealth,
    vault_index: DerivedVaultIndex,
    prompt: ResolvedPromptConfig,
    inference_configured: bool,
    discovered_models: Vec<String>,
    resolved_profile: Option<String>,
}

/// What the daemon holds.
pub struct DaemonModel {
    pub endpoint_name: Seq<char>,
    pub owner_pairing_seed: Seq<u8>,
    pub client_verifiers: Seq<ClientVerifier>,
    pub migrations_applied: bool,
    pub admission: Admission,
    pub vault: Option<MarkdownVaultProvider>,
    pub health: VaultHealth,
    pub index: IndexModel,
    pub prompt: ResolvedPromptConfig,
    pub inference_configured: bool,
    pub discovered_models: Seq<Seq<char>>,
    pub resolved_profile: Option<Seq<char>>,
}

impl View for LocalDaemon {
    type V = DaemonModel;

    closed spec fn view(&self) -> DaemonModel {
        DaemonModel {
            endpoint_name: self.endpoint_name@,
            owner_pairing_seed: self.owner_pairing_seed@,
            client_verifiers: self.client_verifiers@,
            migrations_applied: self.migrations_applied,
            admission: self.admission,
            vault: self.vault,
            health: self.vault_health,
            index: self.vault_index@,
            prompt: self.prompt,
            inference_configured: self.inference_configured,
            discovered_models: views(self.discovered_models@),
            resolved_profile: opt_view(self.resolved_profile),
        }
    }
}

/// The daemon is the one that the configuration and the facts call for.
pub open spec fn composed(daemon: DaemonModel, config: DaemonConfig, facts: StartupFacts) -> bool {
    &&& daemon.endpoint_name == config.endpoint_name@
    &&& daemon.owner_pairing_seed == config.pairing_seed@
    &&& daemon.client_verifiers == verifiers_of(config)
    &&& daemon.migrations_applied
    &&& daemon.admission.workspace_id == config.workspace_id
    &&& daemon.admission.owner_principal_id == config.principal_id
    &&& forall|grant: CapabilityGrant|
        daemon.admission.grants@.contains(grant) <==> persisted_grant(
            config.workspace_id,
            verifiers_of(config),
            facts.persisted->0@,
            grant,
        )
    &&& Ok::<ResolvedPromptConfig, DaemonError>(daemon.prompt) == crate::config::resolved_prompt(
        config.prompt,
        facts.prompt_file,
    )
    &&& daemon.inference_configured == config.model_config is Some
    &&& daemon.discovered_models.len() == 0
    &&& daemon.resolved_profile is None
    &&& match config.vault {
        None => {
            &&& daemon.vault is None
            &&& daemon.index == IndexModel::empty()
            &&& !daemon.health.fresh
            &&& daemon.health.refreshed_at is None
        },
        Some(vault) => {
            &&& daemon.vault matches Some(provider)
            &&& provider.configuration() == vault
            &&& provider.workspace() == config.workspace_id
            &&& provider.root() == views(facts.canonical_root->0@)
            &&& provider.path_notation() == facts.notation
            &&& rebuilt(daemon, provider, facts.scan->Ok_0, facts.seen@, facts.root_is_directory, facts.now)
        },
    }
}

/// The index and the health are those of a full rebuild.
pub open spec fn rebuilt(
    daemon: DaemonModel,
    provider: MarkdownVaultProvider,
    snapshot: ScanSnapshot,
    seen: Seq<EventObservation>,
    root_accessible: bool,
    now: String,
) -> bool {
    &&& daemon.index == reconciled(provider, Map::empty(), snapshot, seen).0
    &&& daemon.health.refreshed_at == Some(now)
    &&& daemon.health.fresh
    &&& daemon.health.root_accessible == root_accessible
    &&& daemon.health.indexed == reconciled(provider, Map::empty(), snapshot, seen).1.indexed
    &&& daemon.health.unchanged == reconciled(provider, Map::empty(), snapshot, seen).1.unchanged
    &&& daemon.health.removed == reconciled(provider, Map::empty(), snapshot, seen).1.removed
    &&& daemon.health.skipped == reconciled(provider, Map::empty(), snapshot, seen).1.skipped
}

/// The name of a diagnostic in its answer.
pub open spec fn diagnostic_name(route: Route) -> Option<Seq<char>> {
    match route {
        Route::Status => Some("status"@),
        Route::Doctor => Some("doctor"@),
        Route::Logs => Some("logs"@),
        _ => None,
    }
}

impl LocalDaemon {
    /// The derived index is well-formed.
    pub closed spec fn wf(self) -> bool {
        self.vault_index.wf()
    }

    /// Starts the daemon. A configuration that holds a credential locator is refused here: it has to
    /// go through the secret store.
    pub fn start(config: DaemonConfig, facts: StartupFacts) -> (daemon: Result<Self, DaemonError>)
        requires
            facts.wf(config),
        ensures
            match daemon {
                Ok(daemon) => ({
                    &&& !needs_secret(config)
                    &&& startup_failure(config, facts) is None
                    &&& daemon.wf()
                    &&& composed(daemon@, config, facts)
                }),
                Err(error) => if needs_secret(config) {
                    error == DaemonError::InvalidConfiguration
                } else {
                    startup_failure(config, facts) == Some(error)
                },
            },
    {
        let model_secret = match &config.model_config {
            Some(model) => model.secret_reference.is_some(),
            None => false,
        };
        if config.inference_secret.is_some() || model_secret {
            return Err(DaemonError::InvalidConfiguration);
        }
        Self::start_inner(config, facts)
    }

    /// Starts the daemon once its credential locators were resolved at the composition root.
    /// `inference` and `model` are whether the store resolved each locator that the configuration
    /// holds.
    pub fn start_with_secret_store(
        config: DaemonConfig,
        facts: StartupFacts,
        inference: bool,
        model: bool,
    ) -> (daemon: Result<Self, DaemonError>)
        requires
            facts.wf(config),
        ensures
            ({
                let unresolved = config.inference_secret is Some && !inference || (
                config.model_config matches Some(configured) && configured.secret_reference is Some
                    && !model);
                match daemon {
                    Ok(daemon) => ({
                        &&& !unresolved
                        &&& startup_failure(config, facts) is None
                        &&& daemon.wf()
                        &&& composed(daemon@, config, facts)
                    }),
                    Err(error) => if unresolved {
                        error == DaemonError::StartupFailed
                    } else {
                        startup_failure(config, facts) == Some(error)
                    },
                }
            }),
    {
        if config.inference_secret.is_some() && !inference {
            return Err(DaemonError::StartupFailed);
        }
        let model_secret = match &config.model_config {
            Some(configured) => configured.secret_reference.is_some(),
            None => false,
        };
        if model_secret && !model {
            return Err(DaemonError::StartupFailed);
        }
        Self::start_inner(config, facts)
    }

    /// Composes the daemon, in the order in which its parts can fail.
    fn start_inner(config: DaemonConfig, facts: StartupFacts) -> (daemon: Result<Self, DaemonError>)
        requires
            facts.wf(config),
        ensures
            match daemon {
                Ok(daemon) => ({
                    &&& startup_failure(config, facts) is None
                    &&& daemon.wf()
                    &&& composed(daemon@, config, facts)
                }),
                Err(error) => startup_failure(config, facts) == Some(error),
            },
    {
        match config.ensure_pairing_key(facts.key_exists, &facts.key) {
            Err(error) => {
                return Err(error);
            },
            Ok(write) => {
                if write && !facts.key_stored {
                    return Err(DaemonError::InvalidConfiguration);
                }
            },
        }
        if !facts.migrated || !facts.bootstrapped {
            return Err(DaemonError::StartupFailed);
        }
        let records = match &facts.committed {
            Some(records) => records,
            None => {
                return Err(DaemonError::StartupFailed);
            },
        };
        match check_committed(&config.remote_clients, records) {
            Ok(_) => {},
            Err(error) => {
                return Err(error);
            },
        }
        let client_verifiers = client_verifiers(&config);
        let grants = match &facts.persisted {
            Some(persisted) => collect_grants(config.workspace_id, &client_verifiers, persisted),
            None => {
                return Err(DaemonError::StartupFailed);
            },
        };
        let prompt = match config.prompt.resolve(facts.prompt_file) {
            Ok(prompt) => prompt,
            Err(error) => {
                return Err(error);
            },
        };
        let mut vault_index = DerivedVaultIndex::new();
        let inference_configured = config.model_config.is_some();
        let discovered_models: Vec<String> = Vec::new();
        let (vault, vault_health) = match config.vault {
            None => (None, VaultHealth::default()),
            Some(vault_config) => {
                let opened = match MarkdownVaultProvider::open(
                    vault_config,
                    config.workspace_id,
                    facts.canonical_root,
                    facts.notation,
                ) {
                    Ok(opened) => opened,
                    Err(_) => {
                        return Err(DaemonError::StartupFailed);
                    },
                };
                let report = match rebuild_vault(
                    &opened,
                    &mut vault_index,
                    facts.scan,
                    facts.seen,
                ) {
                    Ok(report) => report,
                    Err(_) => {
                        return Err(DaemonError::StartupFailed);
                    },
                };
                let health = VaultHealth::from_report(
                    &report,
                    facts.root_is_directory,
                    facts.now,
                );
                (Some(opened), health)
            },
        };
        Ok(
            LocalDaemon {
                endpoint_name: config.endpoint_name,
                owner_pairing_seed: config.pairing_seed,
                client_verifiers,
                migrations_applied: true,
                admission: Admission {
                    workspace_id: config.workspace_id,
                    owner_principal_id: config.principal_id,
                    grants,
                },
                vault,
                vault_health,
                vault_index,
                prompt,
                inference_configured,
                discovered_models,
                resolved_profile: None,
            },
        )
    }

    /// Rebuilds the derived index from what the vault was found to hold. Where that fails the previous
    /// index stays in place, and the health is marked stale. Whether the index was rebuilt.
    pub fn refresh_vault_index(
        &mut self,
        scan: Result<ScanSnapshot, ReconciliationError>,
        seen: Vec<EventObservation>,
        root_is_directory: bool,
        now: String,
    ) -> (refreshed: bool)
        requires
            old(self).wf(),
            scan_wf(scan),
            scan matches Ok(snapshot) ==> snapshot.candidates@.len() == seen@.len() && 2
                * seen@.len() <= usize::MAX,
        ensures
            final(self).wf(),
            final(self)@ == (DaemonModel {
                index: final(self)@.index,
                health: final(self)@.health,
                ..old(self)@
            }),
            refreshed == (old(self)@.vault is Some && scan is Ok),
            match (old(self)@.vault, scan) {
                (None, _) => final(self)@ == old(self)@,
                (Some(provider), Ok(snapshot)) => rebuilt(
                    final(self)@,
                    provider,
                    snapshot,
                    seen@,
                    root_is_directory,
                    now,
                ),
                (Some(_), Err(_)) => ({
                    &&& final(self)@.index == old(self)@.index
                    &&& final(self)@.health == (VaultHealth {
                        fresh: false,
                        refreshed_at: Some(now),
                        root_accessible: root_is_directory,
                        ..old(self)@.health
                    })
                }),
            },
    {
        let vault = match &self.vault {
            Some(vault) => vault,
            None => {
                return false;
            },
        };
        match rebuild_vault(vault, &mut self.vault_index, scan, seen) {
            Ok(report) => {
                self.vault_health = VaultHealth::from_report(&report, root_is_directory, now);
                true
            },
            Err(_) => {
                self.vault_health.fresh = false;
                self.vault_health.refreshed_at = Some(now);
                self.vault_health.root_accessible = root_is_directory;
                false
            },
        }
    }

    /// Installs what a resolution gave, upgrading inference in place. Anything but a configured
    /// outcome leaves the daemon as it is.
    pub fn install_resolved_model(&mut self, resolution: ModelResolution) -> (installed: Option<
        crate::config::ModelConfig,
    >)
        requires
            old(self).wf(),
        ensures
            final(self).wf(),
            match resolution {
                ModelResolution::Configured { config, route, models } => ({
                    &&& installed == Some(config)
                    &&& final(self)@ == (DaemonModel {
                        inference_configured: true,
                        discovered_models: views(models@),
                        resolved_profile: Some(route.profile_id@),
                        ..old(self)@
                    })
                }),
                _ => installed is None && final(self)@ == old(self)@,
            },
    {
        match resolution {
            ModelResolution::Configured { config, route, models } => {
                self.inference_configured = true;
                self.discovered_models = models;
                self.resolved_profile = Some(route.profile_id);
                Some(config)
            },
            _ => None,
        }
    }

    /// The layers of the stable prompt for a profile, in order: the protected instructions, the
    /// operator's global ones, those of the profile.
    pub fn stable_layers(&self, profile_id: Option<&str>) -> (layers: Vec<String>)
        ensures
            views(layers@) == stable_layers_of(self@.prompt, profile_id),
    {
        let mut layers: Vec<String> = Vec::new();
        layers.push(PROTECTED_CORTEX_PROMPT.to_owned());
        match &self.prompt.global {
            Some(global) => layers.push(global.clone()),
            None => {},
        }
        match profile_id {
            Some(id) => match self.prompt.profile(id) {
                Some(found) => layers.push(found.clone()),
                None => {},
            },
            None => {},
        }
        assert(views(layers@) =~= stable_layers_of(self@.prompt, profile_id));
        layers
    }

    /// The stable prompt. `composed` is what the prompt port made of the layers; where it refuses
    /// them the protected instructions stand alone.
    pub fn composed_stable_prompt(&self, composed: Option<String>) -> (prompt: String)
        ensures
            prompt@ == (match composed {
                Some(composed) => composed@,
                None => PROTECTED_CORTEX_PROMPT@,
            }),
    {
        match composed {
            Some(composed) => composed,
            None => PROTECTED_CORTEX_PROMPT.to_owned(),
        }
    }

    /// The profile that inference was last resolved to.
    pub fn resolved_profile(&self) -> (profile: Option<&str>)
        ensures
            match profile {
                Some(profile) => self@.resolved_profile == Some(profile@),
                None => self@.resolved_profile is None,
            },
    {
        match &self.resolved_profile {
            Some(profile) => Some(profile.as_str()),
            None => None,
        }
    }

    /// The discovered models; none while resolution is pending, disabled or degraded.
    pub fn discovered_models(&self) -> (models: &Vec<String>)
        ensures
            views(models@) == self@.discovered_models,
    {
        &self.discovered_models
    }

    /// Whether the migrations completed before the daemon became available.
    pub fn migrations_applied(&self) -> (applied: bool)
        ensures
            applied == self@.migrations_applied,
    {
        self.migrations_applied
    }

    /// The workspace and the owner.
    pub fn ownership_identity(&self) -> (identity: (u128, u128))
        ensures
            identity == (
                self@.admission.workspace_id.value,
                self@.admission.owner_principal_id.value,
            ),
    {
        (self.admission.workspace_id.value, self.admission.owner_principal_id.value)
    }

    /// The workspace that the daemon owns.
    pub fn ownership_workspace_id(&self) -> (id: WorkspaceId)
        ensures
            id == self@.admission.workspace_id,
    {
        self.admission.workspace_id
    }

    /// The owner's handle, for callers in the daemon's own process.
    pub fn paired_client(&self) -> (client: AuthenticatedLocalClient)
        ensures
            client.identity() == self@.admission.owner_principal_id,
    {
        AuthenticatedLocalClient { principal_id: self.admission.owner_principal_id }
    }

    /// The handle of whoever answered the challenge with one of the known keys.
    pub fn authenticated_client(
        &self,
        challenge: &PairingChallenge,
        response: &PairingResponse,
    ) -> (client: Option<AuthenticatedLocalClient>)
        ensures
            match client {
                Some(client) => authenticated(self@.client_verifiers, *challenge, *response) == Some(
                    client.identity(),
                ),
                None => authenticated(self@.client_verifiers, *challenge, *response) is None,
            },
    {
        match self.verify_pairing(challenge, response) {
            Some(principal_id) => Some(AuthenticatedLocalClient { principal_id }),
            None => None,
        }
    }

    /// What a client that has not paired gets.
    pub fn unpaired_status(&self) -> (status: Result<DaemonResponse, DaemonError>)
        ensures
            status == Err::<DaemonResponse, DaemonError>(DaemonError::Unauthenticated),
    {
        Err(DaemonError::Unauthenticated)
    }

    /// Who may do what here.
    pub fn admission(&self) -> (admission: &Admission)
        ensures
            *admission == self@.admission,
    {
        &self.admission
    }

    pub fn endpoint_name(&self) -> (name: &str)
        ensures
            name@ == self@.endpoint_name,
    {
        self.endpoint_name.as_str()
    }

    /// The mounted vault.
    pub fn vault(&self) -> (vault: Option<&MarkdownVaultProvider>)
        ensures
            match vault {
                Some(vault) => self@.vault == Some(*vault),
                None => self@.vault is None,
            },
    {
        self.vault.as_ref()
    }

    /// The derived index.
    pub fn vault_index(&self) -> (index: &DerivedVaultIndex)
        requires
            self.wf(),
        ensures
            index.wf(),
            index@ == self@.index,
    {
        &self.vault_index
    }

    /// Answers a challenge as the owner.
    pub fn pairing_response(&self, challenge: &PairingChallenge) -> (response: PairingResponse)
        ensures
            proves(response, self@.owner_pairing_seed, *challenge),
    {
        pairing_response_for(&self.owner_pairing_seed, challenge)
    }

    /// Who answered a challenge, if anybody the daemon knows did.
    pub fn verify_pairing(&self, challenge: &PairingChallenge, response: &PairingResponse) -> (principal:
        Option<PrincipalId>)
        ensures
            principal == authenticated(self@.client_verifiers, *challenge, *response),
    {
        verify_pairing(&self.client_verifiers, challenge, response)
    }

    /// The discovered models on the wire.
    pub fn model_list_response(&self, request_id: u128) -> (response: DaemonResponse)
        ensures
            response.succeeds(
                request_id,
                JsonModel::Object(
                    seq![("models"@, JsonModel::Array(text_items(self@.discovered_models)))],
                ),
            ),
    {
        let mut members: Vec<(String, Json)> = Vec::new();
        assert(member_views(members@) =~= Seq::<(Seq<char>, JsonModel)>::empty());
        put(&mut members, "models", text_array(&self.discovered_models));
        assert(member_views(members@) =~= seq![
            ("models"@, JsonModel::Array(text_items(self@.discovered_models))),
        ]);
        DaemonResponse::success(request_id, object(members))
    }

    /// The answer to a diagnostic request. `root_is_directory` is evaluated live, so that an outage
    /// shows without waiting for a refresh.
    pub fn diagnostic_response(
        &self,
        principal: PrincipalId,
        request_id: u128,
        capability: &str,
        root_is_directory: bool,
    ) -> (response: DaemonResponse)
        ensures
            response.succeeds(
                request_id,
                diagnostic_json(self@, principal, request_id, capability@, root_is_directory),
            ),
    {
        let mut members: Vec<(String, Json)> = Vec::new();
        assert(member_views(members@) =~= Seq::<(Seq<char>, JsonModel)>::empty());
        put(&mut members, "capability", text(capability));
        put(&mut members, "correlation_id", Json::Text(uuid_to_text(request_id)));
        put(
            &mut members,
            "workspace_id",
            Json::Text(uuid_to_text(self.admission.workspace_id.value)),
        );
        put(&mut members, "principal_id", Json::Text(uuid_to_text(principal.value)));
        put(&mut members, "migrations_applied", Json::Bool(self.migrations_applied));
        put(&mut members, "vault", self.vault_health_json(root_is_directory));
        assert(member_views(members@) =~= diagnostic_json(
            self@,
            principal,
            request_id,
            capability@,
            root_is_directory,
        )->Object_0);
        DaemonResponse::success(request_id, object(members))
    }

    /// Answers what needs nothing but the daemon itself: its diagnostics and the models it found.
    /// Every other route is left to the ports.
    pub fn own_answer(
        &self,
        principal: PrincipalId,
        request_id: u128,
        route: Route,
        root_is_directory: bool,
    ) -> (response: Option<DaemonResponse>)
        ensures
            match (diagnostic_name(route), response) {
                (Some(name), Some(response)) => response.succeeds(
                    request_id,
                    diagnostic_json(self@, principal, request_id, name, root_is_directory),
                ),
                (None, Some(response)) => route == Route::ModelList && response.succeeds(
                    request_id,
                    JsonModel::Object(
                        seq![("models"@, JsonModel::Array(text_items(self@.discovered_models)))],
                    ),
                ),
                (name, None) => name is None && route != Route::ModelList,
            },
    {
        match route {
            Route::Status => Some(
                self.diagnostic_response(principal, request_id, "status", root_is_directory),
            ),
            Route::Doctor => Some(
                self.diagnostic_response(principal, request_id, "doctor", root_is_directory),
            ),
            Route::Logs => Some(
                self.diagnostic_response(principal, request_id, "logs", root_is_directory),
            ),
            Route::ModelList => Some(self.model_list_response(request_id)),
            _ => None,
        }
    }

    /// The health of the vault on the wire.
    pub fn vault_health_json(&self, root_is_directory: bool) -> (json: Json)
        ensures
            json@ == health_json(self@, root_is_directory),
    {
        let mut members: Vec<(String, Json)> = Vec::new();
        assert(member_views(members@) =~= Seq::<(Seq<char>, JsonModel)>::empty());
        let vault = match &self.vault {
            Some(vault) => vault,
            None => {
                put(&mut members, "configured", Json::Bool(false));
                assert(member_views(members@) =~= seq![("configured"@, JsonModel::Bool(false))]);
                return object(members);
            },
        };
        let health = &self.vault_health;
        let config = vault.config();
        let mut scopes: Vec<String> = Vec::new();
        if config.allows_kind(ProviderResourceKind::Knowledge) {
            scopes.push("knowledge".to_owned());
        }
        if config.allows_kind(ProviderResourceKind::Task) {
            scopes.push("task".to_owned());
        }
        assert(views(scopes@) =~= scope_names(vault.configuration()));
        let mut index: Vec<(String, Json)> = Vec::new();
        assert(member_views(index@) =~= Seq::<(Seq<char>, JsonModel)>::empty());
        let refreshed_at = match &health.refreshed_at {
            Some(at) => optional_text(Some(at.as_str())),
            None => optional_text(None),
        };
        put(&mut index, "refreshed_at", refreshed_at);
        put(&mut index, "indexed", Json::Unsigned(health.indexed as u64));
        put(&mut index, "unchanged", Json::Unsigned(health.unchanged as u64));
        put(&mut index, "removed", Json::Unsigned(health.removed as u64));
        put(&mut index, "skipped", Json::Unsigned(health.skipped as u64));
        assert(member_views(index@) =~= counters_json(self@.health)->Object_0);
        put(&mut members, "configured", Json::Bool(true));
        put(&mut members, "provider_id", text(vault.provider_reference_id()));
        put(&mut members, "root", text(config.root()));
        put(
            &mut members,
            "mode",
            text(
                match config.mode() {
                    VaultProviderMode::ReadOnly => "read_only",
                    VaultProviderMode::ReadWrite => "read_write",
                },
            ),
        );
        put(&mut members, "scopes", text_array(&scopes));
        put(&mut members, "root_accessible", Json::Bool(root_is_directory));
        put(&mut members, "fresh", Json::Bool(health.fresh && root_is_directory));
        put(&mut members, "index", object(index));
        put(
            &mut members,
            "semantic",
            text(
                if self.inference_configured {
                    "available"
                } else {
                    "degraded"
                },
            ),
        );
        assert(member_views(members@) =~= health_json(self@, root_is_directory)->Object_0);
        object(members)
    }
}

/// The layers of the stable prompt, in order.
pub open spec fn stable_layers_of(prompt: ResolvedPromptConfig, profile_id: Option<&str>) -> Seq<Seq<char>> {
    seq![PROTECTED_CORTEX_PROMPT@] + (match prompt.global {
        Some(global) => seq![global@],
        None => Seq::empty(),
    }) + (match profile_id {
        Some(id) => match instructions(prompt.profiles@, id@) {
            Some(found) => seq![found],
            None => Seq::empty(),
        },
        None => Seq::empty(),
    })
}

/// The names of the scopes that the vault allows, in alphabetical order.
pub open spec fn scope_names(config: VaultProviderConfig) -> Seq<Seq<char>> {
    (if config.in_scope(ProviderResourceKind::Knowledge) {
        seq!["knowledge"@]
    } else {
        Seq::empty()
    }) + (if config.in_scope(ProviderResourceKind::Task) {
        seq!["task"@]
    } else {
        Seq::empty()
    })
}

/// The counters of the last reconciliation on the wire.
pub open spec fn counters_json(health: VaultHealth) -> JsonModel {
    JsonModel::Object(
        seq![
            (
                "refreshed_at"@,
                match health.refreshed_at {
                    Some(at) => JsonModel::Text(at@),
                    None => JsonModel::Null,
                },
            ),
            ("indexed"@, JsonModel::Unsigned(health.indexed as u64)),
            ("unchanged"@, JsonModel::Unsigned(health.unchanged as u64)),
            ("removed"@, JsonModel::Unsigned(health.removed as u64)),
            ("skipped"@, JsonModel::Unsigned(health.skipped as u64)),
        ],
    )
}

/// The health of the vault on the wire: configuration facts, accessibility and the state of the
/// index. No content, no identity and no credential is part of it.
pub open spec fn health_json(daemon: DaemonModel, root_is_directory: bool) -> JsonModel {
    match daemon.vault {
        None => JsonModel::Object(seq![("configured"@, JsonModel::Bool(false))]),
        Some(vault) => JsonModel::Object(
            seq![
                ("configured"@, JsonModel::Bool(true)),
                ("provider_id"@, JsonModel::Text(vault.configuration().provider())),
                ("root"@, JsonModel::Text(vault.configuration().root_text())),
                (
                    "mode"@,
                    JsonModel::Text(
                        match vault.configuration().posture() {
                            VaultProviderMode::ReadOnly => "read_only"@,
                            VaultProviderMode::ReadWrite => "read_write"@,
                        },
                    ),
                ),
                (
                    "scopes"@,
                    JsonModel::Array(text_items(scope_names(vault.configuration()))),
                ),
                ("root_accessible"@, JsonModel::Bool(root_is_directory)),
                ("fresh"@, JsonModel::Bool(daemon.health.fresh && root_is_directory)),
                ("index"@, counters_json(daemon.health)),
                (
                    "semantic"@,
                    JsonModel::Text(
                        if daemon.inference_configured {
                            "available"@
                        } else {
                            "degraded"@
                        },
                    ),
                ),
            ],
        ),
    }
}

/// The answer to a diagnostic request on the wire.
pub open spec fn diagnostic_json(
    daemon: DaemonModel,
    principal: PrincipalId,
    request_id: u128,
    capability: Seq<char>,
    root_is_directory: bool,
) -> JsonModel {
    JsonModel::Object(
        seq![
            ("capability"@, JsonModel::Text(capability)),
            ("correlation_id"@, JsonModel::Text(uuid_text(request_id))),
            ("workspace_id"@, JsonModel::Text(uuid_text(daemon.admission.workspace_id.value))),
            ("principal_id"@, JsonModel::Text(uuid_text(principal.value))),
            ("migrations_applied"@, JsonModel::Bool(daemon.migrations_applied)),
            ("vault"@, health_json(daemon, root_is_directory)),
        ],
    )
}

/// The owner gets in: whoever answers a challenge with the owner's key is taken for the owner.
pub proof fn law_owner_is_recognised(
    daemon: DaemonModel,
    config: DaemonConfig,
    facts: StartupFacts,
    challenge: PairingChallenge,
    response: PairingResponse,
)
    requires
        config.wf(),
        composed(daemon, config, facts),
        proves(response, daemon.owner_pairing_seed, challenge),
    ensures
        authenticated(daemon.client_verifiers, challenge, response) == Some(
            daemon.admission.owner_principal_id,
        ),
{
    crate::wire::law_paired_key_is_accepted(
        daemon.client_verifiers,
        0,
        daemon.owner_pairing_seed,
        challenge,
        response,
    );
}

/// Deny by default: a principal holds a capability only where the store has persisted it for the
/// owner or for an enrolled client; anybody else holds nothing.
pub proof fn law_strangers_hold_nothing(
    daemon: DaemonModel,
    config: DaemonConfig,
    facts: StartupFacts,
    principal: PrincipalId,
    capability: Capability,
)
    requires
        composed(daemon, config, facts),
        principal != config.principal_id,
        forall|i: int|
            0 <= i < config.remote_clients@.len() ==> (
            #[trigger] config.remote_clients@[i]).principal_id != principal,
    ensures
        !daemon.admission.holds(principal, capability),
{
    let grant = CapabilityGrant {
        workspace_id: daemon.admission.workspace_id,
        principal_id: principal,
        capability,
    };
    if daemon.admission.grants@.contains(grant) {
        let clients = verifiers_of(config);
        let i = choose|i: int|
            0 <= i < clients.len() && grant.workspace_id == config.workspace_id
                && grant.principal_id == (#[trigger] clients[i]).principal_id
                && facts.persisted->0@[i]@.contains(grant.capability);
        if i > 0 {
            assert(clients[i].principal_id == config.remote_clients@[i - 1].principal_id);
        }
    }
}

/// The protected instructions open every stable prompt, whatever is configured.
pub proof fn law_protected_prompt_comes_first(prompt: ResolvedPromptConfig, profile_id: Option<&str>)
    ensures
        stable_layers_of(prompt, profile_id).len() >= 1,
        stable_layers_of(prompt, profile_id)[0] == PROTECTED_CORTEX_PROMPT@,
        prompt.global matches Some(global) ==> stable_layers_of(prompt, profile_id)[1] == global@,
{
}

/// An outage always shows: while the root is not a directory, or after a refresh that failed, the
/// vault is reported as not fresh.
pub proof fn law_outage_is_reported(daemon: DaemonModel, root_is_directory: bool)
    requires
        daemon.vault is Some,
        !root_is_directory || !daemon.health.fresh,
    ensures
        health_json(daemon, root_is_directory)->Object_0.contains(
            ("fresh"@, JsonModel::Bool(false)),
        ),
        !health_json(daemon, root_is_directory)->Object_0.contains(
            ("fresh"@, JsonModel::Bool(true)),
        ),
{
    let members = health_json(daemon, root_is_directory)->Object_0;
    assert(members[6] == ("fresh"@, JsonModel::Bool(false)));
    reveal_strlit("fresh");
    reveal_strlit("configured");
    reveal_strlit("root_accessible");
    assert("fresh"@.len() != "configured"@.len());
    assert("fresh"@.len() != "root_accessible"@.len());
    assert forall|i: int| 0 <= i < members.len() implies members[i] != (
        "fresh"@,
        JsonModel::Bool(true),
    ) by {}
}

/// A diagnostic answers the request it was asked by, to the principal that asked, of this daemon's
/// workspace and state, under the name of what was asked for.
pub proof fn law_diagnostics_say_whom_they_answer(
    daemon: DaemonModel,
    principal: PrincipalId,
    request_id: u128,
    capability: Seq<char>,
    root_is_directory: bool,
)
    ensures
        ({
            let json = diagnostic_json(
                daemon,
                principal,
                request_id,
                capability,
                root_is_directory,
            );
            &&& json->Object_0.len() == 6
            &&& get(json, "capability"@) == Some(JsonModel::Text(capability))
            &&& get(json, "correlation_id"@) == Some(JsonModel::Text(uuid_text(request_id)))
            &&& get(json, "workspace_id"@) == Some(
                JsonModel::Text(uuid_text(daemon.admission.workspace_id.value)),
            )
            &&& get(json, "principal_id"@) == Some(JsonModel::Text(uuid_text(principal.value)))
            &&& get(json, "migrations_applied"@) == Some(
                JsonModel::Bool(daemon.migrations_applied),
            )
            &&& get(json, "vault"@) == Some(health_json(daemon, root_is_directory))
        }),
{
    let members = diagnostic_json(
        daemon,
        principal,
        request_id,
        capability,
        root_is_directory,
    )->Object_0;
    reveal_strlit("capability");
    reveal_strlit("correlation_id");
    reveal_strlit("workspace_id");
    reveal_strlit("principal_id");
    reveal_strlit("migrations_applied");
    reveal_strlit("vault");
    assert("capability"@.len() == 10 && "correlation_id"@.len() == 14
        && "workspace_id"@.len() == 12 && "principal_id"@.len() == 12
        && "migrations_applied"@.len() == 18 && "vault"@.len() == 5);
    assert("workspace_id"@[0] != "principal_id"@[0]);
    assert(members[0].0 == "capability"@);
    assert(members[1].0 == "correlation_id"@);
    assert(members[2].0 == "workspace_id"@);
    assert(members[3].0 == "principal_id"@);
    assert(members[4].0 == "migrations_applied"@);
    assert(members[5].0 == "vault"@);
    lemma_get_at(members, 0);
    lemma_get_at(members, 1);
    lemma_get_at(members, 2);
    lemma_get_at(members, 3);
    lemma_get_at(members, 4);
    lemma_get_at(members, 5);
}

/// A diagnostic goes by the name of its route, and nothing else is a diagnostic.
pub proof fn law_diagnostics_go_by_their_names(route: Route)
    ensures
        route is Status <==> diagnostic_name(route) == Some("status"@),
        route is Doctor <==> diagnostic_name(route) == Some("doctor"@),
        route is Logs <==> diagnostic_name(route) == Some("logs"@),
        diagnostic_name(route) is Some <==> route is Status || route is Doctor || route is Logs,
{
    reveal_strlit("status");
    reveal_strlit("doctor");
    reveal_strlit("logs");
    assert("status"@.len() == 6 && "doctor"@.len() == 6 && "logs"@.len() == 4);
    assert("status"@[0] != "doctor"@[0]);
}

/// The health of a mounted vault names its provider, its root, its mode and its scopes, says whether
/// the root can be reached and whether the index is up to date, and counts what was indexed.
pub proof fn law_vault_health_says_what_is_mounted(daemon: DaemonModel, root_is_directory: bool)
    ensures
        daemon.vault is None ==> get(health_json(daemon, root_is_directory), "configured"@) == Some(
            JsonModel::Bool(false),
        ) && health_json(daemon, root_is_directory)->Object_0.len() == 1,
        daemon.vault matches Some(vault) ==> {
            let json = health_json(daemon, root_is_directory);
            let config = vault.configuration();
            &&& json->Object_0.len() == 9
            &&& get(json, "configured"@) == Some(JsonModel::Bool(true))
            &&& get(json, "provider_id"@) == Some(JsonModel::Text(config.provider()))
            &&& get(json, "root"@) == Some(JsonModel::Text(config.root_text()))
            &&& config.posture() == VaultProviderMode::ReadOnly <==> get(json, "mode"@) == Some(
                JsonModel::Text("read_only"@),
            )
            &&& config.posture() == VaultProviderMode::ReadWrite <==> get(json, "mode"@) == Some(
                JsonModel::Text("read_write"@),
            )
            &&& get(json, "scopes"@) matches Some(JsonModel::Array(_))
            &&& get(json, "scopes"@)->0->Array_0.contains(JsonModel::Text("knowledge"@))
                <==> config.in_scope(ProviderResourceKind::Knowledge)
            &&& get(json, "scopes"@)->0->Array_0.contains(JsonModel::Text("task"@))
                <==> config.in_scope(ProviderResourceKind::Task)
            &&& get(json, "root_accessible"@) == Some(JsonModel::Bool(root_is_directory))
            &&& get(json, "fresh"@) == Some(JsonModel::Bool(true)) <==> daemon.health.fresh
                && root_is_directory
            &&& get(json, "index"@) == Some(counters_json(daemon.health))
            &&& daemon.inference_configured <==> get(json, "semantic"@) == Some(
                JsonModel::Text("available"@),
            )
            &&& !daemon.inference_configured <==> get(json, "semantic"@) == Some(
                JsonModel::Text("degraded"@),
            )
        },
{
    let members = health_json(daemon, root_is_directory)->Object_0;
    if daemon.vault is None {
        lemma_get_at(members, 0);
    }
    if let Some(vault) = daemon.vault {
        let config = vault.configuration();
        reveal_strlit("configured");
        reveal_strlit("provider_id");
        reveal_strlit("root");
        reveal_strlit("mode");
        reveal_strlit("scopes");
        reveal_strlit("root_accessible");
        reveal_strlit("fresh");
        reveal_strlit("index");
        reveal_strlit("semantic");
        assert("configured"@.len() == 10 && "provider_id"@.len() == 11 && "root"@.len() == 4
            && "mode"@.len() == 4 && "scopes"@.len() == 6 && "root_accessible"@.len() == 15
            && "fresh"@.len() == 5 && "index"@.len() == 5 && "semantic"@.len() == 8);
        assert("root"@[0] != "mode"@[0]);
        assert("fresh"@[0] != "index"@[0]);
        assert(members[0].0 == "configured"@);
        assert(members[1].0 == "provider_id"@);
        assert(members[2].0 == "root"@);
        assert(members[3].0 == "mode"@);
        assert(members[4].0 == "scopes"@);
        assert(members[5].0 == "root_accessible"@);
        assert(members[6].0 == "fresh"@);
        assert(members[7].0 == "index"@);
        assert(members[8].0 == "semantic"@);
        lemma_get_at(members, 0);
        lemma_get_at(members, 1);
        lemma_get_at(members, 2);
        lemma_get_at(members, 3);
        lemma_get_at(members, 4);
        lemma_get_at(members, 5);
        lemma_get_at(members, 6);
        lemma_get_at(members, 7);
        lemma_get_at(members, 8);
        reveal_strlit("read_only");
        reveal_strlit("read_write");
        assert("read_only"@.len() == 9 && "read_write"@.len() == 10);
        reveal_strlit("available");
        reveal_strlit("degraded");
        assert("available"@.len() == 9 && "degraded"@.len() == 8);
        reveal_strlit("knowledge");
        reveal_strlit("task");
        assert("knowledge"@.len() == 9 && "task"@.len() == 4);
        let names = scope_names(config);
        let items = text_items(names);
        if config.in_scope(ProviderResourceKind::Knowledge) {
            assert(items[0] == JsonModel::Text("knowledge"@));
        }
        if config.in_scope(ProviderResourceKind::Task) {
            assert(items[names.len() - 1] == JsonModel::Text("task"@));
        }
    }
}

/// What a reconciliation counted is what the health shows: each counter under its own name, with the
/// time of the refresh.
pub proof fn law_counters_show_the_last_reconciliation(
    health: VaultHealth,
    report: ReconciliationReport,
    root_accessible: bool,
    now: String,
)
    requires
        health.shows(report, root_accessible, now),
    ensures
        health.fresh,
        health.root_accessible == root_accessible,
        counters_json(health)->Object_0.len() == 5,
        get(counters_json(health), "refreshed_at"@) == Some(JsonModel::Text(now@)),
        get(counters_json(health), "indexed"@) == Some(JsonModel::Unsigned(report.indexed as u64)),
        get(counters_json(health), "unchanged"@) == Some(
            JsonModel::Unsigned(report.unchanged as u64),
        ),
        get(counters_json(health), "removed"@) == Some(JsonModel::Unsigned(report.removed as u64)),
        get(counters_json(health), "skipped"@) == Some(JsonModel::Unsigned(report.skipped as u64)),
{
    let members = counters_json(health)->Object_0;
    reveal_strlit("refreshed_at");
    reveal_strlit("indexed");
    reveal_strlit("unchanged");
    reveal_strlit("removed");
    reveal_strlit("skipped");
    assert("refreshed_at"@.len() == 12 && "indexed"@.len() == 7 && "unchanged"@.len() == 9
        && "removed"@.len() == 7 && "skipped"@.len() == 7);
    assert("indexed"@[0] != "removed"@[0]);
    assert("indexed"@[0] != "skipped"@[0]);
    assert("removed"@[0] != "skipped"@[0]);
    assert(members[0].0 == "refreshed_at"@);
    assert(members[1].0 == "indexed"@);
    assert(members[2].0 == "unchanged"@);
    assert(members[3].0 == "removed"@);
    assert(members[4].0 == "skipped"@);
    lemma_get_at(members, 0);
    lemma_get_at(members, 1);
    lemma_get_at(members, 2);
    lemma_get_at(members, 3);
    lemma_get_at(members, 4);
}

/// A vault that was never refreshed has no time to show.
pub proof fn law_no_refresh_shows_no_time(health: VaultHealth)
    ensures
        health.refreshed_at is None <==> get(counters_json(health), "refreshed_at"@) == Some(
            JsonModel::Null,
        ),
{
    let members = counters_json(health)->Object_0;
    reveal_strlit("refreshed_at");
    reveal_strlit("indexed");
    reveal_strlit("unchanged");
    reveal_strlit("removed");
    reveal_strlit("skipped");
    assert("refreshed_at"@.len() == 12 && "indexed"@.len() == 7 && "unchanged"@.len() == 9
        && "removed"@.len() == 7 && "skipped"@.len() == 7);
    assert("indexed"@[0] != "removed"@[0]);
    assert("indexed"@[0] != "skipped"@[0]);
    assert("removed"@[0] != "skipped"@[0]);
    assert(members[0].0 == "refreshed_at"@);
    assert(members[1].0 == "indexed"@);
    assert(members[2].0 == "unchanged"@);
    assert(members[3].0 == "removed"@);
    assert(members[4].0 == "skipped"@);
    lemma_get_at(members, 0);
}

/// A prompt has the protected instructions, the general ones and those of the profile, each where
/// there are any, in this order, and nothing else.
pub proof fn law_prompts_have_these_layers(prompt: ResolvedPromptConfig, profile_id: Option<&str>)
    ensures
        ({
            let layers = stable_layers_of(prompt, profile_id);
            let general = if prompt.global is Some {
                1int
            } else {
                0
            };
            let own = if profile_id is Some && instructions(
                prompt.profiles@,
                profile_id->0@,
            ) is Some {
                1int
            } else {
                0
            };
            &&& layers.len() == 1 + general + own
            &&& layers[0] == PROTECTED_CORTEX_PROMPT@
            &&& general == 1 ==> layers[1] == prompt.global->0@
            &&& own == 1 ==> Some(layers.last()) == instructions(prompt.profiles@, profile_id->0@)
        }),
{
}

/// Whoever is configured may pair, each with their own key: the owner and the remote clients, and
/// nobody else.
pub proof fn law_configured_clients_may_pair(config: DaemonConfig, one: ClientVerifier)
    ensures
        verifiers_of(config).contains(one) <==> (one.principal_id == config.principal_id
            && one.pairing_verifier == config.pairing_verifier) || exists|i: int|
            0 <= i < config.remote_clients@.len() && (
            #[trigger] config.remote_clients@[i]).principal_id == one.principal_id
                && config.remote_clients@[i].pairing_verifier == one.pairing_verifier,
{
    let all = verifiers_of(config);
    assert(all.len() == config.remote_clients@.len() + 1);
    assert(all[0].principal_id == config.principal_id && all[0].pairing_verifier
        == config.pairing_verifier);
    assert forall|i: int| 0 <= i < config.remote_clients@.len() implies (
    #[trigger] config.remote_clients@[i]).principal_id == all[i + 1].principal_id
        && config.remote_clients@[i].pairing_verifier == all[i + 1].pairing_verifier by {}
    if all.contains(one) {
        let k = choose|k: int| 0 <= k < all.len() && all[k] == one;
        if k > 0 {
            assert(config.remote_clients@[k - 1].principal_id == one.principal_id);
        }
    }
    if one.principal_id == config.principal_id && one.pairing_verifier == config.pairing_verifier {
        assert(all[0] == one);
    }
    if exists|i: int|
        0 <= i < config.remote_clients@.len() && (
        #[trigger] config.remote_clients@[i]).principal_id == one.principal_id
            && config.remote_clients@[i].pairing_verifier == one.pairing_verifier {
        let i = choose|i: int|
            0 <= i < config.remote_clients@.len() && (
            #[trigger] config.remote_clients@[i]).principal_id == one.principal_id
                && config.remote_clients@[i].pairing_verifier == one.pairing_verifier;
        assert(all[i + 1] == one);
    }
}

/// What the store has persisted counts: the owner, and every remote client, hold each capability that
/// is persisted for them.
pub proof fn law_persisted_grants_are_held(
    daemon: DaemonModel,
    config: DaemonConfig,
    facts: StartupFacts,
    i: int,
    capability: Capability,
)
    requires
        composed(daemon, config, facts),
        facts.persisted is Some,
    ensures
        facts.persisted->0@[0]@.contains(capability) ==> daemon.admission.holds(
            config.principal_id,
            capability,
        ),
        0 <= i < config.remote_clients@.len() && facts.persisted->0@[i + 1]@.contains(capability)
            ==> daemon.admission.holds(config.remote_clients@[i].principal_id, capability),
{
    let clients = verifiers_of(config);
    assert(clients[0].principal_id == config.principal_id);
    if 0 <= i < config.remote_clients@.len() {
        assert(clients[i + 1].principal_id == config.remote_clients@[i].principal_id);
    }
}

/// A daemon that started is the configured one: its endpoint, its key, its workspace and its owner are
/// those of the configuration, it serves the configured vault and no other, and can infer exactly
/// where a model is configured.
pub proof fn law_a_daemon_is_what_was_configured(
    daemon: DaemonModel,
    config: DaemonConfig,
    facts: StartupFacts,
)
    requires
        composed(daemon, config, facts),
    ensures
        daemon.endpoint_name == config.endpoint_name@,
        daemon.owner_pairing_seed == config.pairing_seed@,
        daemon.admission.workspace_id == config.workspace_id,
        daemon.admission.owner_principal_id == config.principal_id,
        daemon.migrations_applied,
        daemon.inference_configured <==> config.model_config is Some,
        daemon.discovered_models.len() == 0 && daemon.resolved_profile is None,
        daemon.vault is Some <==> config.vault is Some,
        daemon.vault matches Some(provider) ==> config.vault == Some(provider.configuration())
            && provider.workspace() == config.workspace_id && provider.root() == views(
            facts.canonical_root->0@,
        ),
        config.vault is None ==> !daemon.health.fresh && daemon.health.refreshed_at is None
            && daemon.index.dom() =~= Set::empty(),
        config.vault is Some ==> {
            let after = reconciled(daemon.vault->0, Map::empty(), facts.scan->Ok_0, facts.seen@);
            &&& daemon.health.fresh
            &&& daemon.health.refreshed_at == Some(facts.now)
            &&& daemon.health.root_accessible == facts.root_is_directory
            &&& daemon.index == after.0
            &&& daemon.health.indexed == after.1.indexed
            &&& daemon.health.unchanged == after.1.unchanged
            &&& daemon.health.removed == after.1.removed
            &&& daemon.health.skipped == after.1.skipped
        },
{
}

proof fn lemma_record_with(records: Seq<RemoteEnrollmentRecord>, subject: Seq<char>)
    ensures
        record_with(records, subject) matches Some(found) ==> found.subject@ == subject
            && records.contains(found),
    decreases records.len(),
{
    if records.len() > 0 {
        if records[0].subject@ == subject {
            assert(records.contains(records[0]));
        } else {
            let rest = records.drop_first();
            lemma_record_with(rest, subject);
            if let Some(found) = record_with(rest, subject) {
                let i = choose|i: int| 0 <= i < rest.len() && rest[i] == found;
                assert(records[i + 1] == found);
            }
        }
    }
}

/// The daemon starts exactly where each part is in place; a key that is not the configured one, or a
/// prompt that cannot be resolved, is a broken configuration, and anything else a failed start.
pub proof fn law_a_start_needs_every_part(config: DaemonConfig, facts: StartupFacts)
    ensures
        startup_failure(config, facts) is None ==> {
            &&& facts.key_exists ==> facts.key is Some && ed25519_public_key(facts.key->0@)
                == config.pairing_verifier@
            &&& !facts.key_exists ==> facts.key_stored
            &&& facts.migrated && facts.bootstrapped && facts.persisted is Some
            &&& facts.committed is Some
            &&& crate::config::resolved_prompt(config.prompt, facts.prompt_file) is Ok
            &&& config.vault is Some ==> facts.canonical_root is Some && facts.scan is Ok
        },
        startup_failure(config, facts) matches Some(error) ==> (error
            == DaemonError::InvalidConfiguration || error == DaemonError::StartupFailed),
        facts.key_exists && (facts.key is None || ed25519_public_key(facts.key->0@)
            != config.pairing_verifier@) ==> startup_failure(config, facts) == Some(
            DaemonError::InvalidConfiguration,
        ),
        !facts.key_exists && facts.key_stored && (!facts.migrated || !facts.bootstrapped)
            ==> startup_failure(config, facts) == Some(DaemonError::StartupFailed),
        !facts.key_exists && facts.key_stored && facts.migrated && facts.bootstrapped
            && facts.committed is Some && facts.persisted is Some && config.remote_clients@.len() == 0
            ==> {
            let prompt = crate::config::resolved_prompt(config.prompt, facts.prompt_file);
            let served = config.vault is None || (facts.canonical_root is Some && facts.scan is Ok);
            &&& startup_failure(config, facts) is None <==> prompt is Ok && served
            &&& prompt is Err ==> startup_failure(config, facts) == Some(
                DaemonError::InvalidConfiguration,
            )
            &&& prompt is Ok && !served ==> startup_failure(config, facts) == Some(
                DaemonError::StartupFailed,
            )
        },
{
}

/// No daemon starts with a client that the store has not committed: each has a record with its own
/// subject, principal, key and grants.
pub proof fn law_only_committed_clients_are_served(
    config: DaemonConfig,
    facts: StartupFacts,
    i: int,
)
    requires
        startup_failure(config, facts) is None,
        0 <= i < config.remote_clients@.len(),
    ensures
        exists|k: int|
            0 <= k < facts.committed->0@.len() && {
                let record = #[trigger] facts.committed->0@[k];
                let client = config.remote_clients@[i];
                &&& record.subject@ == client.subject@
                &&& record.principal_id == client.principal_id
                &&& record.pairing_verifier@ == client.pairing_verifier@
                &&& record.grants@ == client.bootstrap_grants@
            },
{
    let records = facts.committed->0@;
    let client = config.remote_clients@[i];
    assert(committed(records, client@));
    lemma_record_with(records, client@.subject);
    let record = record_with(records, client@.subject)->0;
    let k = choose|k: int| 0 <= k < records.len() && records[k] == record;
    assert(records[k].client() == client@);
}

/// A credential is asked for exactly where the configuration refers to one.
pub proof fn law_secrets_are_asked_for_where_they_are_named(config: DaemonConfig)
    ensures
        needs_secret(config) <==> config.inference_secret is Some || (config.model_config is Some
            && config.model_config->0.secret_reference is Some),
{
}

} // verus!
