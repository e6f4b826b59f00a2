//! Remote clients: the key that is derived for each, the artifact that hands it over, the manifest
//! that lists them, and the reconciliation of the three with the durable record.
use crate::admission::Capability;
use crate::catalog::{
    capabilities_named, capability_named, law_names_round_trip, name_of, CapabilityCatalog,
};
use crate::config::{
    client_views, clients_wf, grants_valid, paired_signer, pairs, principals_distinct,
    subject_valid, validate_remote_grants, validate_subject, DaemonConfig, Discovery,
    RemoteClientConfig, RemoteClientModel, MAX_ENDPOINT_BYTES, MAX_REMOTE_CLIENTS,
};
use crate::crypto::{
    ed25519_is_public_key, ed25519_public_key, is_public_key, public_key_of, sha256, sha256_digest,
};
use crate::error::{daemon_error_of, ApplicationError, DaemonError};
use crate::ids::{big_endian_byte, uuid_bytes, uuid_text, uuid_to_text, PrincipalId, WorkspaceId};
use crate::index::same_bytes;
use crate::json::{
    array, get, item_views, lemma_get_at, member_views, object, put, text, Json, JsonModel,
};
use crate::payloads::{enrollment_payload, EnrollmentPayload};
use crate::text::{blank, byte_len, is_blank, join2, same_text, utf8_len};
use crate::vault_provider::views;
use crate::wire::{DaemonRequest, DaemonResponse};
use vstd::prelude::*;

verus! {

/// A committed enrollment, as the store keeps it.
#[derive(Debug, PartialEq, Eq)]
pub struct RemoteEnrollmentRecord {
    pub correlation_id: u128,
    pub subject: String,
    pub principal_id: PrincipalId,
    pub grants: Vec<Capability>,
    pub pairing_verifier: [u8; 32],
}

impl RemoteEnrollmentRecord {
    /// The client that the record describes.
    pub open spec fn client(self) -> RemoteClientModel {
        RemoteClientModel {
            principal_id: self.principal_id,
            pairing_verifier: self.pairing_verifier@,
            bootstrap_grants: self.grants@,
            subject: self.subject@,
        }
    }
}

/// The artifact that hands a remote client its key.
#[derive(Debug, PartialEq, Eq)]
pub struct PrivateEnrollment {
    pub endpoint_name: String,
    pub principal_id: u128,
    pub signing_key: [u8; 32],
}

/// What an enrollment file gives a client: where to go, as whom, and with which key.
#[derive(Debug, PartialEq, Eq)]
pub struct IpcEnrollment {
    pub endpoint_name: String,
    pub principal_id: PrincipalId,
    pub seed: [u8; 32],
}

/// The result of a reconciliation. It names the artifact's principal; no private key is part of it.
#[derive(Debug, PartialEq, Eq)]
pub struct RemoteEnrollment {
    pub principal_id: PrincipalId,
    pub subject: String,
    pub grants: Vec<Capability>,
}

/// The words that separate the derivation of remote keys from every other use of the digest.
pub open spec fn derivation_prefix() -> Seq<u8> {
    vstd::utf8::encode_utf8("cortex-v0.1 remote enrollment key\0"@)
}

/// What is digested to derive a remote client's key: the prefix, the owner's seed, the principal.
pub open spec fn derivation_input(owner: Seq<u8>, principal: u128) -> Seq<u8> {
    derivation_prefix() + owner + Seq::new(16, |i: int| big_endian_byte(principal, i) as u8)
}

/// The seed of a remote client's key.
pub open spec fn derived_seed(owner: Seq<u8>, principal: u128) -> Seq<u8> {
    sha256_digest(derivation_input(owner, principal))
}

fn append_bytes(target: &mut Vec<u8>, bytes: &[u8])
    ensures
        final(target)@ == old(target)@ + bytes@,
{
    let ghost before = target@;
    let mut i: usize = 0;
    assert(before + bytes@.subrange(0, 0) =~= before);
    while i < bytes.len()
        invariant
            i <= bytes@.len(),
            target@ == before + bytes@.subrange(0, i as int),
        decreases bytes@.len() - i,
    {
        target.push(bytes[i]);
        assert(target@ =~= before + bytes@.subrange(0, i + 1));
        i += 1;
    }
    assert(bytes@.subrange(0, i as int) =~= bytes@);
}

/// The extension of a client's enrollment artifact, beside the database.
pub fn remote_enrollment_extension(principal: PrincipalId) -> (extension: String)
    ensures
        extension@ == "cortexd-client-"@ + uuid_text(principal.value) + ".json"@,
{
    let head = join2("cortexd-client-", uuid_to_text(principal.value).as_str());
    join2(head.as_str(), ".json")
}

/// The endpoint name of an artifact is usable: not blank, at most 253 bytes.
pub open spec fn endpoint_valid(name: Seq<char>) -> bool {
    !blank(name) && utf8_len(name) <= MAX_ENDPOINT_BYTES
}

/// What an artifact file was found to hold.
#[derive(Debug, PartialEq, Eq)]
pub enum ArtifactObservation {
    /// There is no file.
    Absent,
    /// The file cannot be read or is no artifact.
    Unreadable,
    /// The file holds an artifact; whether the identity port accepts its principal.
    Found { enrollment: PrivateEnrollment, principal_accepted: bool },
}

/// Takes an explicit enrollment file.
pub fn load_explicit_enrollment(observed: ArtifactObservation) -> (enrollment: Result<
    IpcEnrollment,
    DaemonError,
>)
    ensures
        match enrollment {
            Ok(loaded) => ({
                &&& observed matches ArtifactObservation::Found { enrollment, principal_accepted }
                &&& principal_accepted
                &&& endpoint_valid(enrollment.endpoint_name@)
                &&& loaded.endpoint_name == enrollment.endpoint_name
                &&& loaded.principal_id.value == enrollment.principal_id
                &&& loaded.seed == enrollment.signing_key
            }),
            Err(error) => ({
                &&& error == DaemonError::InvalidConfiguration
                &&& !(observed matches ArtifactObservation::Found { enrollment, principal_accepted }
                    && principal_accepted && endpoint_valid(enrollment.endpoint_name@))
            }),
        },
{
    match observed {
        ArtifactObservation::Absent | ArtifactObservation::Unreadable => Err(
            DaemonError::InvalidConfiguration,
        ),
        ArtifactObservation::Found { enrollment, principal_accepted } => {
            if is_blank(enrollment.endpoint_name.as_str()) || byte_len(
                enrollment.endpoint_name.as_str(),
            ) > MAX_ENDPOINT_BYTES {
                return Err(DaemonError::InvalidConfiguration);
            }
            if !principal_accepted {
                return Err(DaemonError::InvalidConfiguration);
            }
            Ok(
                IpcEnrollment {
                    endpoint_name: enrollment.endpoint_name,
                    principal_id: PrincipalId { value: enrollment.principal_id },
                    seed: enrollment.signing_key,
                },
            )
        },
    }
}

/// Takes the daemon's own discovery record and the separately protected pairing key.
pub fn load_ipc_enrollment(
    discovery: Option<Discovery>,
    principal_accepted: bool,
    key: &Option<Vec<u8>>,
) -> (enrollment: Result<IpcEnrollment, DaemonError>)
    ensures
        match enrollment {
            Ok(loaded) => ({
                &&& discovery matches Some(discovery)
                &&& principal_accepted
                &&& pairs(crate::config::key_view(*key), discovery.pairing_verifier@)
                &&& loaded.endpoint_name == discovery.endpoint_name
                &&& loaded.principal_id.value == discovery.principal_id
                &&& crate::config::key_view(*key) == Some(loaded.seed@)
            }),
            Err(error) => ({
                &&& error == DaemonError::InvalidConfiguration
                &&& !(discovery is Some && principal_accepted && pairs(
                    crate::config::key_view(*key),
                    discovery->0.pairing_verifier@,
                ))
            }),
        },
{
    let discovery = match discovery {
        Some(discovery) => discovery,
        None => {
            return Err(DaemonError::InvalidConfiguration);
        },
    };
    let seed = match paired_signer(key, &discovery.pairing_verifier) {
        Ok(seed) => seed,
        Err(error) => {
            return Err(error);
        },
    };
    if !principal_accepted {
        return Err(DaemonError::InvalidConfiguration);
    }
    Ok(
        IpcEnrollment {
            endpoint_name: discovery.endpoint_name,
            principal_id: PrincipalId { value: discovery.principal_id },
            seed,
        },
    )
}

/// One entry of the manifest of remote clients, and whether the identity port accepts its principal.
#[derive(Debug, PartialEq, Eq)]
pub struct RemoteClientEntry {
    pub principal_id: u128,
    pub principal_accepted: bool,
    pub pairing_verifier: [u8; 32],
    pub bootstrap_grants: Vec<String>,
    pub subject: String,
}

/// The client that an entry describes, where it describes one: its principal is accepted, its key is
/// a public key, and it has grants, all of them in the catalog.
pub open spec fn listed_client(entry: RemoteClientEntry, catalog: CapabilityCatalog) -> Option<
    RemoteClientModel,
> {
    match capabilities_named(catalog.entries@, views(entry.bootstrap_grants@)) {
        None => None,
        Some(grants) => if entry.principal_accepted && ed25519_is_public_key(
            entry.pairing_verifier@,
        ) && grants.len() > 0 {
            Some(
                RemoteClientModel {
                    principal_id: PrincipalId { value: entry.principal_id },
                    pairing_verifier: entry.pairing_verifier@,
                    bootstrap_grants: grants,
                    subject: entry.subject@,
                },
            )
        } else {
            None
        },
    }
}

/// Every entry describes a client, and the clients are bounded and distinct.
pub open spec fn manifest_valid(entries: Seq<RemoteClientEntry>, catalog: CapabilityCatalog) -> bool {
    &&& entries.len() <= MAX_REMOTE_CLIENTS
    &&& forall|i: int| 0 <= i < entries.len() ==> listed_client(#[trigger] entries[i], catalog) is Some
    &&& forall|i: int, j: int|
        0 <= i < j < entries.len() ==> (#[trigger] entries[i]).principal_id != (
        #[trigger] entries[j]).principal_id
}

/// The clients that the entries describe, in order.
pub open spec fn listed_clients(entries: Seq<RemoteClientEntry>, catalog: CapabilityCatalog) -> Seq<
    RemoteClientModel,
> {
    entries.map_values(|entry: RemoteClientEntry| listed_client(entry, catalog)->0)
}

fn lists_principal(clients: &Vec<RemoteClientConfig>, principal: PrincipalId) -> (found: bool)
    ensures
        found == exists|i: int|
            0 <= i < clients@.len() && (#[trigger] clients@[i]).principal_id == principal,
{
    let mut i: usize = 0;
    while i < clients.len()
        invariant
            i <= clients@.len(),
            forall|j: int| 0 <= j < i ==> (#[trigger] clients@[j]).principal_id != principal,
        decreases clients@.len() - i,
    {
        if clients[i].principal_id == principal {
            return true;
        }
        i += 1;
    }
    false
}

/// Takes the manifest of remote clients. `manifest` is `None` where there is no manifest, and an
/// error where it cannot be read.
pub fn load_remote_clients(
    manifest: Option<Result<Vec<RemoteClientEntry>, ()>>,
    catalog: &CapabilityCatalog,
) -> (clients: Result<Vec<RemoteClientConfig>, DaemonError>)
    ensures
        match (manifest, clients) {
            (None, Ok(clients)) => clients@.len() == 0,
            (Some(Ok(entries)), Ok(clients)) => ({
                &&& manifest_valid(entries@, *catalog)
                &&& client_views(clients@) == listed_clients(entries@, *catalog)
            }),
            (Some(Ok(entries)), Err(error)) => !manifest_valid(entries@, *catalog) && error
                == DaemonError::InvalidConfiguration,
            (Some(Err(_)), Err(error)) => error == DaemonError::InvalidConfiguration,
            _ => false,
        },
        clients matches Ok(clients) ==> clients_wf(client_views(clients@)),
{
    let mut clients: Vec<RemoteClientConfig> = Vec::new();
    let entries = match manifest {
        None => {
            assert(client_views(clients@) =~= Seq::<RemoteClientModel>::empty());
            return Ok(clients);
        },
        Some(Err(_)) => {
            return Err(DaemonError::InvalidConfiguration);
        },
        Some(Ok(entries)) => entries,
    };
    if entries.len() > MAX_REMOTE_CLIENTS {
        return Err(DaemonError::InvalidConfiguration);
    }
    let mut i: usize = 0;
    while i < entries.len()
        invariant
            i <= entries@.len(),
            entries@.len() <= MAX_REMOTE_CLIENTS,
            manifest == Some(Ok::<Vec<RemoteClientEntry>, ()>(entries)),
            clients@.len() == i,
            forall|j: int|
                0 <= j < i ==> listed_client(#[trigger] entries@[j], *catalog) == Some(
                    clients@[j]@,
                ),
            forall|j: int, k: int|
                0 <= j < k < i ==> (#[trigger] entries@[j]).principal_id != (
                #[trigger] entries@[k]).principal_id,
        decreases entries@.len() - i,
    {
        let entry = &entries[i];
        if !entry.principal_accepted {
            assert(listed_client(entries@[i as int], *catalog) is None);
            return Err(DaemonError::InvalidConfiguration);
        }
        let principal_id = PrincipalId { value: entry.principal_id };
        if lists_principal(&clients, principal_id) {
            proof {
                let j = choose|j: int|
                    0 <= j < clients@.len() && (#[trigger] clients@[j]).principal_id
                        == principal_id;
                assert(listed_client(entries@[j], *catalog) == Some(clients@[j]@));
                assert(entries@[j].principal_id == entries@[i as int].principal_id);
            }
            return Err(DaemonError::InvalidConfiguration);
        }
        if !is_public_key(&entry.pairing_verifier) {
            assert(listed_client(entries@[i as int], *catalog) is None);
            return Err(DaemonError::InvalidConfiguration);
        }
        let grants = match catalog.from_mcp_names(&entry.bootstrap_grants) {
            Some(grants) => grants,
            None => {
                assert(listed_client(entries@[i as int], *catalog) is None);
                return Err(DaemonError::InvalidConfiguration);
            },
        };
        if grants.len() == 0 {
            assert(listed_client(entries@[i as int], *catalog) is None);
            return Err(DaemonError::InvalidConfiguration);
        }
        assert forall|j: int| 0 <= j < i implies (#[trigger] entries@[j]).principal_id
            != entries@[i as int].principal_id by {
            assert(listed_client(entries@[j], *catalog) == Some(clients@[j]@));
            assert(clients@[j].principal_id != principal_id);
        }
        clients.push(
            RemoteClientConfig {
                principal_id,
                pairing_verifier: entry.pairing_verifier,
                bootstrap_grants: grants,
                subject: entry.subject.clone(),
            },
        );
        i += 1;
    }
    proof {
        assert forall|j: int| 0 <= j < clients@.len() implies client_views(clients@)[j]
            == listed_clients(entries@, *catalog)[j] by {
            assert(listed_client(entries@[j], *catalog) == Some(clients@[j]@));
        }
        assert(client_views(clients@) =~= listed_clients(entries@, *catalog));
        assert forall|j: int, k: int| 0 <= j < k < clients@.len() implies (
        #[trigger] client_views(clients@)[j]).principal_id != (
        #[trigger] client_views(clients@)[k]).principal_id by {
            assert(listed_client(entries@[j], *catalog) == Some(clients@[j]@));
            assert(listed_client(entries@[k], *catalog) == Some(clients@[k]@));
            assert(entries@[j].principal_id != entries@[k].principal_id);
        }
    }
    Ok(clients)
}

pub(crate) fn same_capabilities(a: &Vec<Capability>, b: &Vec<Capability>) -> (same: bool)
    ensures
        same == (a@ == b@),
{
    if a.len() != b.len() {
        return false;
    }
    let mut i: usize = 0;
    while i < a.len()
        invariant
            i <= a@.len(),
            a@.len() == b@.len(),
            forall|j: int| 0 <= j < i ==> a@[j] == b@[j],
        decreases a@.len() - i,
    {
        if a[i] != b[i] {
            return false;
        }
        i += 1;
    }
    assert(a@ =~= b@);
    true
}

fn copy_capabilities(capabilities: &Vec<Capability>) -> (copy: Vec<Capability>)
    ensures
        copy@ == capabilities@,
{
    let mut copy: Vec<Capability> = Vec::new();
    let mut i: usize = 0;
    while i < capabilities.len()
        invariant
            i <= capabilities@.len(),
            copy@ == capabilities@.subrange(0, i as int),
        decreases capabilities@.len() - i,
    {
        copy.push(capabilities[i]);
        assert(copy@ =~= capabilities@.subrange(0, i + 1));
        i += 1;
    }
    assert(copy@ =~= capabilities@);
    copy
}

/// The first client with the subject.
pub open spec fn client_with(clients: Seq<RemoteClientModel>, subject: Seq<char>) -> Option<
    RemoteClientModel,
>
    decreases clients.len(),
{
    if clients.len() == 0 {
        None
    } else if clients[0].subject == subject {
        Some(clients[0])
    } else {
        client_with(clients.drop_first(), subject)
    }
}

/// Some client is the principal.
pub open spec fn has_principal(clients: Seq<RemoteClientModel>, principal: PrincipalId) -> bool {
    exists|i: int| 0 <= i < clients.len() && (#[trigger] clients[i]).principal_id == principal
}

/// The record can be reconciled with this configuration at all: its subject and its grants are valid,
/// it is not the owner's, and its key is the one derived for it.
pub open spec fn record_valid(config: DaemonConfig, record: RemoteEnrollmentRecord, catalog: nat) -> bool {
    &&& subject_valid(record.subject@)
    &&& grants_valid(record.grants@, catalog)
    &&& record.principal_id != config.principal_id
    &&& record.pairing_verifier@ == ed25519_public_key(
        derived_seed(config.pairing_seed@, record.principal_id.value),
    )
}

/// The artifact is the one that the record calls for.
pub open spec fn artifact_matches(
    config: DaemonConfig,
    record: RemoteEnrollmentRecord,
    enrollment: PrivateEnrollment,
) -> bool {
    &&& endpoint_valid(enrollment.endpoint_name@)
    &&& enrollment.principal_id == record.principal_id.value
    &&& enrollment.endpoint_name@ == config.endpoint_name@
    &&& ed25519_public_key(enrollment.signing_key@) == record.pairing_verifier@
}

/// What becomes of the list of clients: nothing where the client is on it as recorded, one entry more
/// where neither its subject nor its principal is on it and there is room, and a failure otherwise.
pub open spec fn admitted(clients: Seq<RemoteClientModel>, client: RemoteClientModel) -> Option<
    Seq<RemoteClientModel>,
> {
    match client_with(clients, client.subject) {
        Some(existing) => if existing == client {
            Some(clients)
        } else {
            None
        },
        None => if clients.len() >= MAX_REMOTE_CLIENTS || has_principal(
            clients,
            client.principal_id,
        ) {
            None
        } else {
            Some(clients.push(client))
        },
    }
}

/// A finished reconciliation: its result, and whether the manifest has to be written again.
#[derive(Debug, PartialEq, Eq)]
pub struct Reconciled {
    pub enrollment: RemoteEnrollment,
    pub manifest_due: bool,
}

impl DaemonConfig {
    /// Derives a remote client's key from the owner's. The derivation is separated by its prefix, and
    /// happens in memory.
    pub fn derived_remote_signing_key(&self, principal: PrincipalId) -> (seed: [u8; 32])
        ensures
            seed@ == derived_seed(self.pairing_seed@, principal.value),
    {
        let mut input: Vec<u8> = Vec::new();
        append_bytes(&mut input, "cortex-v0.1 remote enrollment key\0".as_bytes());
        append_bytes(&mut input, self.pairing_seed.as_slice());
        let id = uuid_bytes(principal.value);
        append_bytes(&mut input, id.as_slice());
        proof {
            assert forall|i: int| 0 <= i < 16 implies id@[i] == big_endian_byte(
                principal.value,
                i,
            ) as u8 by {
                assert(id@[i] == big_endian_byte(principal.value, i));
            }
            assert(id@ =~= Seq::new(16, |i: int| big_endian_byte(principal.value, i) as u8));
            assert(input@ =~= derivation_input(self.pairing_seed@, principal.value));
        }
        sha256(input.as_slice())
    }

    /// The artifact that has to be written for a record, or nothing where a matching one is there
    /// already. An artifact that does not match is never overwritten.
    pub fn artifact_for(
        &self,
        record: &RemoteEnrollmentRecord,
        observed: ArtifactObservation,
        catalog: &CapabilityCatalog,
    ) -> (artifact: Result<Option<PrivateEnrollment>, DaemonError>)
        ensures
            match artifact {
                Ok(None) => ({
                    &&& record_valid(*self, *record, catalog.entries@.len())
                    &&& observed matches ArtifactObservation::Found { enrollment, principal_accepted }
                    &&& principal_accepted
                    &&& artifact_matches(*self, *record, enrollment)
                }),
                Ok(Some(artifact)) => ({
                    &&& record_valid(*self, *record, catalog.entries@.len())
                    &&& observed is Absent
                    &&& artifact.endpoint_name == self.endpoint_name
                    &&& artifact.principal_id == record.principal_id.value
                    &&& artifact.signing_key@ == derived_seed(
                        self.pairing_seed@,
                        record.principal_id.value,
                    )
                }),
                Err(error) => ({
                    &&& error == DaemonError::InvalidConfiguration
                    &&& {
                        ||| !record_valid(*self, *record, catalog.entries@.len())
                        ||| observed is Unreadable
                        ||| observed matches ArtifactObservation::Found {
                            enrollment,
                            principal_accepted,
                        } && !(principal_accepted && artifact_matches(*self, *record, enrollment))
                    }
                }),
            },
    {
        match validate_subject(record.subject.as_str()) {
            Ok(_) => {},
            Err(error) => {
                return Err(error);
            },
        }
        match validate_remote_grants(&record.grants, catalog) {
            Ok(_) => {},
            Err(error) => {
                return Err(error);
            },
        }
        if record.principal_id == self.principal_id {
            return Err(DaemonError::InvalidConfiguration);
        }
        let seed = self.derived_remote_signing_key(record.principal_id);
        let public = public_key_of(&seed);
        if !same_bytes(&public, &record.pairing_verifier) {
            return Err(DaemonError::InvalidConfiguration);
        }
        match observed {
            ArtifactObservation::Absent => Ok(
                Some(
                    PrivateEnrollment {
                        endpoint_name: self.endpoint_name.clone(),
                        principal_id: record.principal_id.value,
                        signing_key: seed,
                    },
                ),
            ),
            observed => match load_explicit_enrollment(observed) {
                Err(error) => Err(error),
                Ok(existing) => {
                    let held = public_key_of(&existing.seed);
                    if existing.principal_id != record.principal_id || !same_text(
                        existing.endpoint_name.as_str(),
                        self.endpoint_name.as_str(),
                    ) || !same_bytes(&held, &public) {
                        return Err(DaemonError::InvalidConfiguration);
                    }
                    Ok(None)
                },
            },
        }
    }

    /// Reconciles the list of clients with an enrollment that has committed. The record fixes the
    /// subject, the principal, the grants and the key, so that retries converge; nothing here makes a
    /// new identity. `artifact_stored` is whether the artifact that was due could be written.
    pub fn reconcile_remote_enrollment(
        &mut self,
        record: &RemoteEnrollmentRecord,
        observed: ArtifactObservation,
        artifact_stored: bool,
        catalog: &CapabilityCatalog,
    ) -> (reconciled: Result<Reconciled, DaemonError>)
        requires
            old(self).wf(),
        ensures
            final(self).wf(),
            *final(self) == (DaemonConfig {
                remote_clients: final(self).remote_clients,
                ..*old(self)
            }),
            match reconciled {
                Ok(reconciled) => ({
                    &&& reconcilable(*old(self), *record, observed, artifact_stored, *catalog)
                    &&& admitted(client_views(old(self).remote_clients@), record.client()) == Some(
                        client_views(final(self).remote_clients@),
                    )
                    &&& reconciled.enrollment.principal_id == record.principal_id
                    &&& reconciled.enrollment.subject == record.subject
                    &&& reconciled.enrollment.grants@ == record.grants@
                    &&& reconciled.manifest_due == client_with(
                        client_views(old(self).remote_clients@),
                        record.subject@,
                    ) is None
                }),
                Err(error) => ({
                    &&& error == DaemonError::InvalidConfiguration
                    &&& final(self).remote_clients == old(self).remote_clients
                    &&& {
                        ||| !reconcilable(*old(self), *record, observed, artifact_stored, *catalog)
                        ||| admitted(
                            client_views(old(self).remote_clients@),
                            record.client(),
                        ) is None
                    }
                }),
            },
    {
        match self.artifact_for(record, observed, catalog) {
            Err(error) => {
                return Err(error);
            },
            Ok(Some(_)) => {
                if !artifact_stored {
                    return Err(DaemonError::InvalidConfiguration);
                }
            },
            Ok(None) => {},
        }
        let ghost clients = client_views(self.remote_clients@);
        let mut manifest_due = true;
        let mut i: usize = 0;
        assert(clients.subrange(0, clients.len() as int) =~= clients);
        while i < self.remote_clients.len() && manifest_due
            invariant
                i <= self.remote_clients@.len(),
                *self == *old(self),
                old(self).wf(),
                clients == client_views(self.remote_clients@),
                reconcilable(*old(self), *record, observed, artifact_stored, *catalog),
                manifest_due ==> client_with(clients, record.subject@) == client_with(
                    clients.subrange(i as int, clients.len() as int),
                    record.subject@,
                ),
                !manifest_due ==> client_with(clients, record.subject@) == Some(record.client()),
            decreases self.remote_clients@.len() - i,
        {
            let ghost rest = clients.subrange(i as int, clients.len() as int);
            assert(rest[0] == self.remote_clients@[i as int]@);
            assert(rest.drop_first() =~= clients.subrange(i + 1, clients.len() as int));
            let existing = &self.remote_clients[i];
            if same_text(existing.subject.as_str(), record.subject.as_str()) {
                if existing.principal_id != record.principal_id || !same_bytes(
                    &existing.pairing_verifier,
                    &record.pairing_verifier,
                ) || !same_capabilities(&existing.bootstrap_grants, &record.grants) {
                    return Err(DaemonError::InvalidConfiguration);
                }
                manifest_due = false;
            }
            i += 1;
        }
        if manifest_due {
            assert(clients.subrange(i as int, clients.len() as int).len() == 0);
            let listed = lists_principal(&self.remote_clients, record.principal_id);
            proof {
                if listed {
                    let k = choose|k: int|
                        0 <= k < self.remote_clients@.len() && (
                        #[trigger] self.remote_clients@[k]).principal_id == record.principal_id;
                    assert(clients[k].principal_id == record.principal_id);
                } else {
                    assert forall|k: int| 0 <= k < clients.len() implies (
                    #[trigger] clients[k]).principal_id != record.principal_id by {
                        assert(self.remote_clients@[k].principal_id == clients[k].principal_id);
                    }
                }
            }
            if self.remote_clients.len() >= MAX_REMOTE_CLIENTS || listed {
                return Err(DaemonError::InvalidConfiguration);
            }
            self.remote_clients.push(
                RemoteClientConfig {
                    principal_id: record.principal_id,
                    pairing_verifier: record.pairing_verifier,
                    bootstrap_grants: copy_capabilities(&record.grants),
                    subject: record.subject.clone(),
                },
            );
            assert(client_views(self.remote_clients@) =~= clients.push(record.client()));
        }
        Ok(
            Reconciled {
                enrollment: RemoteEnrollment {
                    principal_id: record.principal_id,
                    subject: record.subject.clone(),
                    grants: copy_capabilities(&record.grants),
                },
                manifest_due,
            },
        )
    }
}

/// The record is valid and its artifact is in place, or was put there.
pub open spec fn reconcilable(
    config: DaemonConfig,
    record: RemoteEnrollmentRecord,
    observed: ArtifactObservation,
    artifact_stored: bool,
    catalog: CapabilityCatalog,
) -> bool {
    &&& record_valid(config, record, catalog.entries@.len())
    &&& match observed {
        ArtifactObservation::Absent => artifact_stored,
        ArtifactObservation::Unreadable => false,
        ArtifactObservation::Found { enrollment, principal_accepted } => principal_accepted
            && artifact_matches(config, record, enrollment),
    }
}

/// The entry that lists a client in the manifest, where the catalog names its grants.
pub fn manifest_entry(client: &RemoteClientConfig, catalog: &CapabilityCatalog) -> (entry: Option<
    RemoteClientEntry,
>)
    ensures
        match entry {
            Some(entry) => ({
                &&& entry.principal_id == client.principal_id.value
                &&& entry.principal_accepted
                &&& entry.pairing_verifier == client.pairing_verifier
                &&& entry.subject == client.subject
                &&& grant_names(catalog.entries@, client.bootstrap_grants@) == Some(
                    views(entry.bootstrap_grants@),
                )
            }),
            None => grant_names(catalog.entries@, client.bootstrap_grants@) is None,
        },
{
    match names_of(&client.bootstrap_grants, catalog) {
        Some(names) => Some(
            RemoteClientEntry {
                principal_id: client.principal_id.value,
                principal_accepted: true,
                pairing_verifier: client.pairing_verifier,
                bootstrap_grants: names,
                subject: client.subject.clone(),
            },
        ),
        None => None,
    }
}

/// The names of the grants, in order, where the catalog names each.
pub open spec fn grant_names(
    entries: Seq<crate::catalog::CatalogEntry>,
    grants: Seq<Capability>,
) -> Option<Seq<Seq<char>>> {
    if forall|i: int| 0 <= i < grants.len() ==> name_of(entries, #[trigger] grants[i]) is Some {
        Some(grants.map_values(|grant: Capability| name_of(entries, grant)->0))
    } else {
        None
    }
}

fn names_of(grants: &Vec<Capability>, catalog: &CapabilityCatalog) -> (names: Option<Vec<String>>)
    ensures
        match names {
            Some(names) => grant_names(catalog.entries@, grants@) == Some(views(names@)),
            None => grant_names(catalog.entries@, grants@) is None,
        },
{
    let mut names: Vec<String> = Vec::new();
    let mut i: usize = 0;
    while i < grants.len()
        invariant
            i <= grants@.len(),
            names@.len() == i,
            forall|j: int|
                0 <= j < i ==> name_of(catalog.entries@, #[trigger] grants@[j]) == Some(
                    names@[j]@,
                ),
        decreases grants@.len() - i,
    {
        match catalog.mcp_name(grants[i]) {
            Some(name) => names.push(name.to_owned()),
            None => {
                return None;
            },
        }
        i += 1;
    }
    assert(views(names@) =~= grants@.map_values(
        |grant: Capability| name_of(catalog.entries@, grant)->0,
    )) by {
        assert forall|j: int| 0 <= j < grants@.len() implies views(names@)[j] == name_of(
            catalog.entries@,
            grants@[j],
        )->0 by {}
    }
    Some(names)
}

/// A retry converges: once a record was reconciled, the list of clients holds it, and reconciling the
/// record again changes nothing and asks for no new manifest.
pub proof fn law_enrollment_is_idempotent(clients: Seq<RemoteClientModel>, client: RemoteClientModel)
    requires
        admitted(clients, client) is Some,
    ensures
        client_with(admitted(clients, client)->0, client.subject) == Some(client),
        admitted(admitted(clients, client)->0, client) == admitted(clients, client),
{
    if client_with(clients, client.subject) is None {
        lemma_pushed_client_is_found(clients, client);
    }
}

proof fn lemma_pushed_client_is_found(clients: Seq<RemoteClientModel>, client: RemoteClientModel)
    requires
        client_with(clients, client.subject) is None,
    ensures
        client_with(clients.push(client), client.subject) == Some(client),
    decreases clients.len(),
{
    let longer = clients.push(client);
    if clients.len() > 0 {
        assert(longer[0] == clients[0]);
        assert(longer.drop_first() =~= clients.drop_first().push(client));
        lemma_pushed_client_is_found(clients.drop_first(), client);
    } else {
        assert(longer[0] == client);
    }
}

/// However many enrollments are reconciled, the list stays bounded and lists no principal twice, and
/// no client that is on it changes or moves.
pub proof fn law_enrollment_keeps_the_list_sound(
    clients: Seq<RemoteClientModel>,
    client: RemoteClientModel,
)
    requires
        clients_wf(clients),
        admitted(clients, client) is Some,
    ensures
        clients_wf(admitted(clients, client)->0),
        clients.len() <= admitted(clients, client)->0.len(),
        forall|i: int|
            0 <= i < clients.len() ==> #[trigger] admitted(clients, client)->0[i] == clients[i],
{
    let after = admitted(clients, client)->0;
    assert(principals_distinct(after)) by {
        assert forall|i: int, j: int| 0 <= i < j < after.len() implies (
        #[trigger] after[i]).principal_id != (#[trigger] after[j]).principal_id by {
            if j == clients.len() {
                assert(after[i] == clients[i]);
                assert(!has_principal(clients, client.principal_id));
            } else {
                assert(after[i] == clients[i] && after[j] == clients[j]);
            }
        }
    }
}

/// The artifact that is written for a record is the one that is accepted when it is found again.
pub proof fn law_written_artifact_is_accepted(
    config: DaemonConfig,
    record: RemoteEnrollmentRecord,
    artifact: PrivateEnrollment,
    catalog: nat,
)
    requires
        record_valid(config, record, catalog),
        endpoint_valid(config.endpoint_name@),
        artifact.endpoint_name == config.endpoint_name,
        artifact.principal_id == record.principal_id.value,
        artifact.signing_key@ == derived_seed(config.pairing_seed@, record.principal_id.value),
    ensures
        artifact_matches(config, record, artifact),
{
}

/// What the store is asked for when a remote client is enrolled.
#[derive(Debug, PartialEq, Eq)]
pub struct RemoteEnrollmentRequest {
    pub workspace_id: WorkspaceId,
    pub owner_principal_id: PrincipalId,
    pub operation_id: crate::ids::OperationId,
    pub correlation_id: u128,
    pub subject: String,
    pub principal_id: PrincipalId,
    pub grants: Vec<Capability>,
    pub pairing_verifier: [u8; 32],
    pub max_remote_clients: u8,
}

/// Reads an enrollment request that the owner was found to have made. `proposed` is a fresh
/// principal; `config` is the configuration as it stands on disk.
pub fn plan_enrollment(
    admission: &crate::admission::Admission,
    request: &DaemonRequest,
    catalog: &CapabilityCatalog,
    config: &DaemonConfig,
    proposed: PrincipalId,
) -> (planned: Result<RemoteEnrollmentRequest, DaemonError>)
    ensures
        match (enrollment_payload(request.payload@), planned) {
            (None, Err(error)) => error == DaemonError::InvalidRequest,
            (Some(payload), Err(error)) => capabilities_named(catalog.entries@, payload.grants) is None
                && error == DaemonError::InvalidRequest,
            (Some(payload), Ok(planned)) => ({
                &&& capabilities_named(catalog.entries@, payload.grants) == Some(planned.grants@)
                &&& planned.workspace_id == admission.workspace_id
                &&& planned.owner_principal_id == admission.owner_principal_id
                &&& planned.operation_id.value == request.operation_id
                &&& planned.correlation_id == request.request_id
                &&& planned.subject@ == payload.subject
                &&& planned.principal_id == proposed
                &&& planned.pairing_verifier@ == ed25519_public_key(
                    derived_seed(config.pairing_seed@, proposed.value),
                )
                &&& planned.max_remote_clients == MAX_REMOTE_CLIENTS
            }),
            _ => false,
        },
{
    let payload = match EnrollmentPayload::decode(&request.payload) {
        Some(payload) => payload,
        None => {
            return Err(DaemonError::InvalidRequest);
        },
    };
    let grants = match catalog.from_mcp_names(&payload.grants) {
        Some(grants) => grants,
        None => {
            return Err(DaemonError::InvalidRequest);
        },
    };
    let seed = config.derived_remote_signing_key(proposed);
    Ok(
        RemoteEnrollmentRequest {
            workspace_id: admission.workspace_id,
            owner_principal_id: admission.owner_principal_id,
            operation_id: crate::ids::OperationId { value: request.operation_id },
            correlation_id: request.request_id,
            subject: payload.subject,
            principal_id: proposed,
            grants,
            pairing_verifier: public_key_of(&seed),
            max_remote_clients: 16,
        },
    )
}

/// Texts as a JSON list.
pub open spec fn text_items(texts: Seq<Seq<char>>) -> Seq<JsonModel> {
    texts.map_values(|one: Seq<char>| JsonModel::Text(one))
}

/// Writes texts as a JSON list.
pub fn text_array(texts: &Vec<String>) -> (json: Json)
    ensures
        json@ == JsonModel::Array(text_items(views(texts@))),
{
    let mut items: Vec<Json> = Vec::new();
    let mut i: usize = 0;
    while i < texts.len()
        invariant
            i <= texts@.len(),
            items@.len() == i,
            forall|j: int| 0 <= j < i ==> (#[trigger] items@[j])@ == JsonModel::Text(texts@[j]@),
        decreases texts@.len() - i,
    {
        items.push(text(texts[i].as_str()));
        i += 1;
    }
    assert(item_views(items@) =~= text_items(views(texts@)));
    array(items)
}

/// An enrollment on the wire. The private key is not part of it; the path is where it was put.
pub open spec fn enrollment_json(
    correlation_id: u128,
    enrollment: RemoteEnrollment,
    names: Seq<Seq<char>>,
    path: Seq<char>,
) -> JsonModel {
    JsonModel::Object(
        seq![
            ("correlation_id"@, JsonModel::Text(uuid_text(correlation_id))),
            ("principal_id"@, JsonModel::Text(uuid_text(enrollment.principal_id.value))),
            ("subject"@, JsonModel::Text(enrollment.subject@)),
            ("grants"@, JsonModel::Array(text_items(names))),
            ("ipc_enrollment_path"@, JsonModel::Text(path)),
            (
                "gateway_paired_subject"@,
                JsonModel::Object(
                    seq![
                        ("subject"@, JsonModel::Text(enrollment.subject@)),
                        (
                            "principal_id"@,
                            JsonModel::Text(uuid_text(enrollment.principal_id.value)),
                        ),
                        ("ipc_enrollment_path"@, JsonModel::Text(path)),
                    ],
                ),
            ),
            ("restart_required"@, JsonModel::Bool(true)),
        ],
    )
}

/// The response to an enrollment; a grant that the catalog does not name is a broken configuration.
pub fn enrollment_response(
    request_id: u128,
    correlation_id: u128,
    enrollment: &RemoteEnrollment,
    path: &str,
    catalog: &CapabilityCatalog,
) -> (response: Result<DaemonResponse, DaemonError>)
    ensures
        match response {
            Ok(response) => ({
                &&& grant_names(catalog.entries@, enrollment.grants@) matches Some(names)
                &&& response.succeeds(
                    request_id,
                    enrollment_json(correlation_id, *enrollment, names, path@),
                )
            }),
            Err(error) => grant_names(catalog.entries@, enrollment.grants@) is None && error
                == DaemonError::InvalidConfiguration,
        },
{
    let names = match names_of(&enrollment.grants, catalog) {
        Some(names) => names,
        None => {
            return Err(DaemonError::InvalidConfiguration);
        },
    };
    let mut paired: Vec<(String, Json)> = Vec::new();
    assert(member_views(paired@) =~= Seq::<(Seq<char>, JsonModel)>::empty());
    put(&mut paired, "subject", text(enrollment.subject.as_str()));
    put(&mut paired, "principal_id", Json::Text(uuid_to_text(enrollment.principal_id.value)));
    put(&mut paired, "ipc_enrollment_path", text(path));
    assert(member_views(paired@) =~= seq![
        ("subject"@, JsonModel::Text(enrollment.subject@)),
        ("principal_id"@, JsonModel::Text(uuid_text(enrollment.principal_id.value))),
        ("ipc_enrollment_path"@, JsonModel::Text(path@)),
    ]);
    let mut members: Vec<(String, Json)> = Vec::new();
    assert(member_views(members@) =~= Seq::<(Seq<char>, JsonModel)>::empty());
    put(&mut members, "correlation_id", Json::Text(uuid_to_text(correlation_id)));
    put(&mut members, "principal_id", Json::Text(uuid_to_text(enrollment.principal_id.value)));
    put(&mut members, "subject", text(enrollment.subject.as_str()));
    put(&mut members, "grants", text_array(&names));
    put(&mut members, "ipc_enrollment_path", text(path));
    put(&mut members, "gateway_paired_subject", object(paired));
    put(&mut members, "restart_required", Json::Bool(true));
    assert(member_views(members@) =~= enrollment_json(
        correlation_id,
        *enrollment,
        views(names@),
        path@,
    )->Object_0);
    Ok(DaemonResponse::success(request_id, object(members)))
}

/// What the store's answer to an enrollment comes to.
pub fn enrollment_outcome(stored: Result<RemoteEnrollmentRecord, ApplicationError>) -> (outcome: Result<
    RemoteEnrollmentRecord,
    DaemonError,
>)
    ensures
        outcome == (match stored {
            Ok(record) => Ok::<RemoteEnrollmentRecord, DaemonError>(record),
            Err(error) => Err::<RemoteEnrollmentRecord, DaemonError>(daemon_error_of(error)),
        }),
{
    match stored {
        Ok(record) => Ok(record),
        Err(error) => Err(DaemonError::from(error)),
    }
}

/// The entry lists the client: it is what [`manifest_entry`] writes for it.
pub open spec fn lists(
    entry: RemoteClientEntry,
    client: RemoteClientModel,
    catalog: CapabilityCatalog,
) -> bool {
    &&& entry.principal_id == client.principal_id.value
    &&& entry.principal_accepted
    &&& entry.pairing_verifier@ == client.pairing_verifier
    &&& entry.subject@ == client.subject
    &&& grant_names(catalog.entries@, client.bootstrap_grants) == Some(
        views(entry.bootstrap_grants@),
    )
}

proof fn lemma_listed_client_is_read_back(
    entry: RemoteClientEntry,
    client: RemoteClientModel,
    catalog: CapabilityCatalog,
)
    requires
        catalog.wf(),
        lists(entry, client, catalog),
        ed25519_is_public_key(client.pairing_verifier),
        client.bootstrap_grants.len() > 0,
    ensures
        listed_client(entry, catalog) == Some(client),
{
    let names = views(entry.bootstrap_grants@);
    let grants = client.bootstrap_grants;
    assert forall|i: int| 0 <= i < names.len() implies capability_named(
        catalog.entries@,
        #[trigger] names[i],
    ) == Some(grants[i]) by {
        assert(name_of(catalog.entries@, grants[i]) == Some(names[i]));
        law_names_round_trip(catalog, grants[i]);
    }
    assert(capabilities_named(catalog.entries@, names)->0 =~= grants);
}

/// What a daemon writes of its remote clients is what the next one reads: a manifest of the entries
/// of a sound list of clients is valid, and lists those clients again, in order, with their
/// identities, keys, subjects and grants.
pub proof fn law_manifest_round_trips(
    entries: Seq<RemoteClientEntry>,
    clients: Seq<RemoteClientModel>,
    catalog: CapabilityCatalog,
)
    requires
        catalog.wf(),
        clients_wf(clients),
        entries.len() == clients.len(),
        forall|i: int|
            0 <= i < clients.len() ==> {
                &&& lists(#[trigger] entries[i], clients[i], catalog)
                &&& ed25519_is_public_key(clients[i].pairing_verifier)
                &&& clients[i].bootstrap_grants.len() > 0
            },
    ensures
        manifest_valid(entries, catalog),
        listed_clients(entries, catalog) == clients,
{
    assert forall|i: int| 0 <= i < entries.len() implies listed_client(
        #[trigger] entries[i],
        catalog,
    ) == Some(clients[i]) by {
        lemma_listed_client_is_read_back(entries[i], clients[i], catalog);
    }
    assert forall|i: int, j: int| 0 <= i < j < entries.len() implies (
    #[trigger] entries[i]).principal_id != (#[trigger] entries[j]).principal_id by {
        assert(lists(entries[i], clients[i], catalog));
        assert(lists(entries[j], clients[j], catalog));
        assert(clients[i].principal_id != clients[j].principal_id);
    }
    assert(listed_clients(entries, catalog) =~= clients);
}

/// An enrollment answers with whom it enrolled, with which grants, and where the artifact is, twice
/// where a gateway looks for it; it asks for a restart, and holds nothing else, no key among it.
pub proof fn law_enrollments_say_who_was_enrolled(
    correlation_id: u128,
    enrollment: RemoteEnrollment,
    names: Seq<Seq<char>>,
    path: Seq<char>,
)
    ensures
        ({
            let json = enrollment_json(correlation_id, enrollment, names, path);
            let principal = JsonModel::Text(uuid_text(enrollment.principal_id.value));
            let paired = get(json, "gateway_paired_subject"@)->0;
            &&& json->Object_0.len() == 7
            &&& get(json, "correlation_id"@) == Some(JsonModel::Text(uuid_text(correlation_id)))
            &&& get(json, "principal_id"@) == Some(principal)
            &&& get(json, "subject"@) == Some(JsonModel::Text(enrollment.subject@))
            &&& get(json, "ipc_enrollment_path"@) == Some(JsonModel::Text(path))
            &&& get(json, "restart_required"@) == Some(JsonModel::Bool(true))
            &&& get(json, "grants"@) matches Some(JsonModel::Array(items)) && items.len()
                == names.len() && forall|i: int|
                0 <= i < names.len() ==> #[trigger] items[i] == JsonModel::Text(names[i])
            &&& get(json, "gateway_paired_subject"@) is Some
            &&& paired->Object_0.len() == 3
            &&& get(paired, "subject"@) == Some(JsonModel::Text(enrollment.subject@))
            &&& get(paired, "principal_id"@) == Some(principal)
            &&& get(paired, "ipc_enrollment_path"@) == Some(JsonModel::Text(path))
        }),
{
    let json = enrollment_json(correlation_id, enrollment, names, path);
    let members = json->Object_0;
    reveal_strlit("correlation_id");
    reveal_strlit("principal_id");
    reveal_strlit("subject");
    reveal_strlit("grants");
    reveal_strlit("ipc_enrollment_path");
    reveal_strlit("gateway_paired_subject");
    reveal_strlit("restart_required");
    assert("correlation_id"@.len() == 14 && "principal_id"@.len() == 12 && "subject"@.len() == 7
        && "grants"@.len() == 6 && "ipc_enrollment_path"@.len() == 19
        && "gateway_paired_subject"@.len() == 22 && "restart_required"@.len() == 16);
    assert(members[0].0 == "correlation_id"@);
    assert(members[1].0 == "principal_id"@);
    assert(members[2].0 == "subject"@);
    assert(members[3].0 == "grants"@);
    assert(members[4].0 == "ipc_enrollment_path"@);
    assert(members[5].0 == "gateway_paired_subject"@);
    assert(members[6].0 == "restart_required"@);
    lemma_get_at(members, 0);
    lemma_get_at(members, 1);
    lemma_get_at(members, 2);
    lemma_get_at(members, 3);
    lemma_get_at(members, 4);
    lemma_get_at(members, 5);
    lemma_get_at(members, 6);
    let paired = members[5].1->Object_0;
    assert(paired[0].0 == "subject"@);
    assert(paired[1].0 == "principal_id"@);
    assert(paired[2].0 == "ipc_enrollment_path"@);
    lemma_get_at(paired, 0);
    lemma_get_at(paired, 1);
    lemma_get_at(paired, 2);
}

/// An entry of the manifest describes a client exactly where its principal and its key are accepted
/// and each of its grants, of which it has some, is in the catalog; the client is then the entry's own.
pub proof fn law_entries_describe_their_client(entry: RemoteClientEntry, catalog: CapabilityCatalog)
    ensures
        listed_client(entry, catalog) is Some <==> {
            &&& entry.principal_accepted
            &&& ed25519_is_public_key(entry.pairing_verifier@)
            &&& entry.bootstrap_grants@.len() > 0
            &&& forall|i: int|
                0 <= i < entry.bootstrap_grants@.len() ==> capability_named(
                    catalog.entries@,
                    (#[trigger] entry.bootstrap_grants@[i])@,
                ) is Some
        },
        listed_client(entry, catalog) matches Some(client) ==> {
            &&& client.principal_id.value == entry.principal_id
            &&& client.pairing_verifier == entry.pairing_verifier@
            &&& client.subject == entry.subject@
            &&& client.bootstrap_grants.len() == entry.bootstrap_grants@.len()
            &&& forall|i: int|
                0 <= i < entry.bootstrap_grants@.len() ==> capability_named(
                    catalog.entries@,
                    (#[trigger] entry.bootstrap_grants@[i])@,
                ) == Some(client.bootstrap_grants[i])
        },
{
    let names = views(entry.bootstrap_grants@);
    assert forall|i: int| 0 <= i < names.len() implies #[trigger] names[i]
        == entry.bootstrap_grants@[i]@ by {}
    if forall|i: int|
        0 <= i < entry.bootstrap_grants@.len() ==> capability_named(
            catalog.entries@,
            (#[trigger] entry.bootstrap_grants@[i])@,
        ) is Some {
        assert forall|i: int| 0 <= i < names.len() implies capability_named(
            catalog.entries@,
            #[trigger] names[i],
        ) is Some by {
            assert(capability_named(catalog.entries@, entry.bootstrap_grants@[i]@) is Some);
        }
    } else {
        let i = choose|i: int|
            0 <= i < entry.bootstrap_grants@.len() && capability_named(
                catalog.entries@,
                (#[trigger] entry.bootstrap_grants@[i])@,
            ) is None;
        assert(capability_named(catalog.entries@, names[i]) is None);
    }
}

/// A client is found by its subject: the first under it, and none only where no client is under it.
pub proof fn law_clients_are_found_by_subject(clients: Seq<RemoteClientModel>, subject: Seq<char>)
    ensures
        client_with(clients, subject) is None <==> forall|i: int|
            0 <= i < clients.len() ==> (#[trigger] clients[i]).subject != subject,
        client_with(clients, subject) matches Some(found) ==> found.subject == subject && exists|
            i: int,
        |
            0 <= i < clients.len() && #[trigger] clients[i] == found && forall|j: int|
                0 <= j < i ==> (#[trigger] clients[j]).subject != subject,
    decreases clients.len(),
{
    if clients.len() > 0 && clients[0].subject != subject {
        let rest = clients.drop_first();
        law_clients_are_found_by_subject(rest, subject);
        if let Some(found) = client_with(rest, subject) {
            let i = choose|i: int|
                0 <= i < rest.len() && #[trigger] rest[i] == found && forall|j: int|
                    0 <= j < i ==> (#[trigger] rest[j]).subject != subject;
            assert(clients[i + 1] == rest[i]);
            assert forall|j: int| 0 <= j < i + 1 implies (#[trigger] clients[j]).subject
                != subject by {
                if j > 0 {
                    assert(rest[j - 1] == clients[j]);
                }
            }
        } else {
            assert forall|j: int| 0 <= j < clients.len() implies (#[trigger] clients[j]).subject
                != subject by {
                if j > 0 {
                    assert(rest[j - 1] == clients[j]);
                }
            }
        }
    }
}

/// A new client is put on the list, behind the others, exactly where there is room and neither its
/// subject nor its principal is taken; a taken subject or principal never changes hands.
pub proof fn law_new_clients_join_the_list(
    clients: Seq<RemoteClientModel>,
    client: RemoteClientModel,
)
    requires
        forall|i: int| 0 <= i < clients.len() ==> (#[trigger] clients[i]).subject != client.subject,
    ensures
        admitted(clients, client) is Some <==> clients.len() < 16 && forall|i: int|
            0 <= i < clients.len() ==> (#[trigger] clients[i]).principal_id != client.principal_id,
        admitted(clients, client) matches Some(after) ==> {
            &&& after.len() == clients.len() + 1
            &&& after.last() == client
            &&& after.drop_last() == clients
        },
{
    law_clients_are_found_by_subject(clients, client.subject);
    if admitted(clients, client) is Some {
        assert(clients.push(client).drop_last() =~= clients);
    }
    if forall|i: int|
        0 <= i < clients.len() ==> (#[trigger] clients[i]).principal_id != client.principal_id {
        assert(!has_principal(clients, client.principal_id));
    }
}

/// A client that is on the list as recorded leaves the list as it is; one whose subject is listed with
/// another principal, key or set of grants is refused.
pub proof fn law_known_clients_change_nothing(
    clients: Seq<RemoteClientModel>,
    client: RemoteClientModel,
    at: int,
)
    requires
        0 <= at < clients.len(),
        clients[at].subject == client.subject,
        forall|i: int| 0 <= i < at ==> (#[trigger] clients[i]).subject != client.subject,
    ensures
        clients[at] == client ==> admitted(clients, client) == Some(clients),
        clients[at] != client ==> admitted(clients, client) is None,
{
    law_clients_are_found_by_subject(clients, client.subject);
    assert(clients[at].subject == client.subject);
}

/// What is digested for a client's key tells owners and clients apart.
pub proof fn law_derivations_are_told_apart(
    owner: Seq<u8>,
    principal: u128,
    other_owner: Seq<u8>,
    other: u128,
)
    requires
        owner.len() == 32,
        other_owner.len() == 32,
    ensures
        derivation_input(owner, principal) == derivation_input(other_owner, other) <==> owner
            == other_owner && principal == other,
        derivation_input(owner, principal).subrange(0, derivation_prefix().len() as int)
            == derivation_prefix(),
{
    let a = derivation_input(owner, principal);
    let b = derivation_input(other_owner, other);
    let start = derivation_prefix().len() as int;
    assert(a.subrange(0, start) =~= derivation_prefix());
    if a == b {
        assert(a.subrange(start, start + 32) =~= owner);
        assert(b.subrange(start, start + 32) =~= other_owner);
        assert forall|i: int| 0 <= i < 16 implies #[trigger] big_endian_byte(principal, i)
            == big_endian_byte(other, i) by {
            assert(a[start + 32 + i] == b[start + 32 + i]);
            assert(big_endian_byte(principal, i) < 256 && big_endian_byte(other, i) < 256);
        }
        crate::ids::law_bytes_tell_identifiers_apart(principal, other);
    }
}

/// A record that can be reconciled, and the artifact that goes with it, agree with the configuration:
/// the artifact leads to this daemon, as the recorded principal, who is not the owner, and its key is
/// one whose public half is recorded and derived from the owner's.
pub proof fn law_artifacts_agree_with_their_record(
    config: DaemonConfig,
    record: RemoteEnrollmentRecord,
    enrollment: PrivateEnrollment,
    catalog: nat,
)
    requires
        record_valid(config, record, catalog),
        artifact_matches(config, record, enrollment),
    ensures
        enrollment.endpoint_name@ == config.endpoint_name@,
        enrollment.principal_id == record.principal_id.value,
        enrollment.principal_id != config.principal_id.value,
        ed25519_public_key(enrollment.signing_key@) == record.pairing_verifier@,
        ed25519_public_key(enrollment.signing_key@) == ed25519_public_key(
            derived_seed(config.pairing_seed@, enrollment.principal_id),
        ),
        record.client().principal_id.value == enrollment.principal_id,
        record.client().subject == record.subject@,
        record.client().pairing_verifier == record.pairing_verifier@,
        record.client().bootstrap_grants == record.grants@,
        record.grants@.len() > 0,
        exists|i: int|
            0 <= i < record.subject@.len() && !crate::text::white_space(
                #[trigger] record.subject@[i],
            ),
{
    crate::config::law_subjects_can_be_shown(record.subject@);
}

/// A record is reconciled with no artifact once one is stored, with an artifact that is the right
/// one, and never with one that cannot be read or leads elsewhere.
pub proof fn law_artifacts_decide_reconciliation(
    config: DaemonConfig,
    record: RemoteEnrollmentRecord,
    enrollment: PrivateEnrollment,
    accepted: bool,
    artifact_stored: bool,
    catalog: CapabilityCatalog,
)
    requires
        record_valid(config, record, catalog.entries@.len()),
    ensures
        reconcilable(config, record, ArtifactObservation::Absent, artifact_stored, catalog)
            == artifact_stored,
        !reconcilable(config, record, ArtifactObservation::Unreadable, artifact_stored, catalog),
        reconcilable(
            config,
            record,
            ArtifactObservation::Found { enrollment, principal_accepted: accepted },
            artifact_stored,
            catalog,
        ) ==> accepted && enrollment.principal_id == record.principal_id.value
            && enrollment.endpoint_name@ == config.endpoint_name@,
        accepted && !blank(config.endpoint_name@) && utf8_len(config.endpoint_name@) <= 253
            && enrollment.endpoint_name@ == config.endpoint_name@ && enrollment.principal_id
            == record.principal_id.value && ed25519_public_key(enrollment.signing_key@)
            == record.pairing_verifier@ ==> reconcilable(
            config,
            record,
            ArtifactObservation::Found { enrollment, principal_accepted: accepted },
            artifact_stored,
            catalog,
        ),
{
}

/// Grants are written by their names in the catalog, one for one and in order, or not at all.
pub proof fn law_grants_are_written_by_name(
    entries: Seq<crate::catalog::CatalogEntry>,
    grants: Seq<Capability>,
)
    ensures
        grant_names(entries, grants) matches Some(names) ==> names.len() == grants.len() && forall|
            i: int,
        |
            0 <= i < grants.len() ==> name_of(entries, #[trigger] grants[i]) == Some(names[i]),
        grant_names(entries, grants) is None ==> exists|i: int|
            0 <= i < grants.len() && name_of(entries, #[trigger] grants[i]) is None,
{
}

/// An artifact leads somewhere: an endpoint with something visible in its name, at most 253 bytes
/// long, and an artifact without one is nobody's.
pub proof fn law_artifacts_lead_somewhere(
    config: DaemonConfig,
    record: RemoteEnrollmentRecord,
    enrollment: PrivateEnrollment,
)
    ensures
        endpoint_valid(enrollment.endpoint_name@) <==> (exists|i: int|
            0 <= i < enrollment.endpoint_name@.len() && !crate::text::white_space(
                #[trigger] enrollment.endpoint_name@[i],
            )) && utf8_len(enrollment.endpoint_name@) <= 253,
        artifact_matches(config, record, enrollment) ==> endpoint_valid(enrollment.endpoint_name@),
{
    assert(!blank(enrollment.endpoint_name@) <==> exists|i: int|
        0 <= i < enrollment.endpoint_name@.len() && !crate::text::white_space(
            #[trigger] enrollment.endpoint_name@[i],
        ));
}

/// A manifest is taken exactly where it lists sixteen clients at most, each of them described, and no
/// principal twice; the clients are then those of its entries, in order.
pub proof fn law_manifests_are_taken_whole(entries: Seq<RemoteClientEntry>, catalog: CapabilityCatalog)
    ensures
        manifest_valid(entries, catalog) <==> {
            &&& entries.len() <= 16
            &&& forall|i: int|
                0 <= i < entries.len() ==> listed_client(#[trigger] entries[i], catalog) is Some
            &&& !exists|i: int, j: int|
                0 <= i < j < entries.len() && (#[trigger] entries[i]).principal_id == (
                #[trigger] entries[j]).principal_id
        },
        listed_clients(entries, catalog).len() == entries.len(),
        manifest_valid(entries, catalog) ==> forall|i: int|
            0 <= i < entries.len() ==> Some(#[trigger] listed_clients(entries, catalog)[i])
                == listed_client(entries[i], catalog),
{
}

/// A record that does not hold together is reconciled with no artifact whatever: not one of the owner,
/// and not one whose key is another than the one derived for it.
pub proof fn law_broken_records_are_never_reconciled(
    config: DaemonConfig,
    record: RemoteEnrollmentRecord,
    observed: ArtifactObservation,
    artifact_stored: bool,
    catalog: CapabilityCatalog,
)
    requires
        record.principal_id == config.principal_id || record.pairing_verifier@ != ed25519_public_key(
            derived_seed(config.pairing_seed@, record.principal_id.value),
        ) || record.grants@.len() == 0 || blank(record.subject@),
    ensures
        !reconcilable(config, record, observed, artifact_stored, catalog),
{
}

} // verus!
