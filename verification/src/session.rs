//! One connection: the challenge, the proof, the request and its answer, on both ends.
use crate::enrollment::IpcEnrollment;
use crate::error::{code_of, DaemonError};
use crate::ids::{parse_uuid, uuid_of_text, PrincipalId};
use crate::json::{get, lemma_json_parts, member, Json, JsonModel};
use crate::wire::{
    accepted_request, authenticated, decode_request, frame_bounds, frame_length, framed,
    little_endian, pairing_response_for, proves, recover_request_id, recoverable_id,
    requests_streaming_agent_output, streams, verify_pairing, ClientVerifier, DaemonRequest,
    DaemonResponse, PairingChallenge, PairingResponse, ResultModel, WireResult, MAX_FRAME_BYTES,
    PROTOCOL_VERSION,
};
use vstd::prelude::*;

verus! {

/// The challenge that opens a session. The nonce is fresh for each.
pub fn open_session(nonce: u128) -> (challenge: PairingChallenge)
    ensures
        challenge.protocol_version == PROTOCOL_VERSION,
        challenge.nonce == nonce,
{
    PairingChallenge { protocol_version: PROTOCOL_VERSION, nonce }
}

/// Who is at the other end: nobody is let through whose answer does not prove a known key.
pub fn authenticate(
    clients: &Vec<ClientVerifier>,
    challenge: &PairingChallenge,
    answer: Option<&PairingResponse>,
) -> (principal: Result<PrincipalId, DaemonError>)
    ensures
        match principal {
            Ok(principal) => answer matches Some(answer) && authenticated(
                clients@,
                *challenge,
                *answer,
            ) == Some(principal),
            Err(error) => ({
                &&& error == DaemonError::Unauthenticated
                &&& answer matches Some(answer) ==> authenticated(
                    clients@,
                    *challenge,
                    *answer,
                ) is None
            }),
        },
{
    match answer {
        None => Err(DaemonError::Unauthenticated),
        Some(answer) => match verify_pairing(clients, challenge, answer) {
            Some(principal) => Ok(principal),
            None => Err(DaemonError::Unauthenticated),
        },
    }
}

/// What a session does with a request frame.
#[derive(Debug, PartialEq, Eq)]
pub enum Turn {
    /// Runs the agent and forwards its output as it comes.
    Stream(DaemonRequest),
    /// Handles the request and answers once.
    Single(DaemonRequest),
    /// Answers at once, without handling anything.
    Reply(DaemonResponse),
}

/// Decides on a request frame, of which `length` is the length, `document` the content where it is
/// JSON, and `payload_bytes` the length of the payload in its compact encoding. A frame that cannot
/// be decoded is answered under its own identifier where it has one; otherwise the session ends.
pub fn take_turn(length: usize, document: Option<&Json>, payload_bytes: Option<usize>) -> (turn: Result<
    Turn,
    DaemonError,
>)
    ensures
        match accepted_request(length, document, payload_bytes) {
            Some(request) => if document matches Some(json) && streams(json@) {
                turn matches Ok(Turn::Stream(decoded)) && decoded@ == request
            } else {
                turn matches Ok(Turn::Single(decoded)) && decoded@ == request
            },
            None => if document matches Some(json) && !streams(json@) && recoverable_id(
                json@,
            ) is Some {
                turn matches Ok(Turn::Reply(response)) && response.refuses(
                    recoverable_id(document->0@)->0,
                    code_of(DaemonError::InvalidRequest),
                )
            } else {
                turn == Err::<Turn, DaemonError>(DaemonError::InvalidRequest)
            },
        },
{
    let streaming = requests_streaming_agent_output(document);
    match decode_request(length, document, payload_bytes) {
        Ok(request) => if streaming {
            Ok(Turn::Stream(request))
        } else {
            Ok(Turn::Single(request))
        },
        Err(error) => {
            if streaming {
                return Err(error);
            }
            match recover_request_id(document) {
                Some(id) => Ok(Turn::Reply(DaemonResponse::failure(id, &error))),
                None => Err(DaemonError::InvalidRequest),
            }
        },
    }
}

/// The answer to a handled request: a failure becomes a refusal under the same identifier.
pub fn answer(request_id: u128, outcome: Result<DaemonResponse, DaemonError>) -> (response:
    DaemonResponse)
    ensures
        match outcome {
            Ok(given) => response == given,
            Err(error) => response.refuses(request_id, code_of(error)),
        },
{
    match outcome {
        Ok(response) => response,
        Err(error) => DaemonResponse::failure(request_id, &error),
    }
}

/// The frame that ends a stream. `joined` is what came of the task that ran the agent, and nothing
/// where the task itself broke down.
pub fn last_frame(
    request_id: u128,
    joined: Option<Result<DaemonResponse, DaemonError>>,
) -> (response: DaemonResponse)
    ensures
        match joined {
            Some(Ok(given)) => response == given,
            Some(Err(error)) => response.refuses(request_id, code_of(error)),
            None => response.refuses(request_id, code_of(DaemonError::TransportUnavailable)),
        },
{
    match joined {
        Some(outcome) => answer(request_id, outcome),
        None => DaemonResponse::failure(request_id, &DaemonError::TransportUnavailable),
    }
}

/// The stored entity whose embedding a response makes stale.
pub open spec fn embedding_target(response: DaemonResponse) -> Option<u128> {
    match response.result@ {
        ResultModel::Success { value } => match get(value, "entity_id"@) {
            Some(JsonModel::Text(id)) => uuid_of_text(id),
            _ => None,
        },
        ResultModel::Error { code } => None,
    }
}

/// The stored entity whose embedding has to be refreshed after a response, if any.
pub fn refresh_target(response: &DaemonResponse) -> (target: Option<u128>)
    ensures
        target == embedding_target(*response),
{
    match &response.result {
        WireResult::Success { value } => match member(value, "entity_id") {
            Some(json) => {
                proof {
                    lemma_json_parts(*json);
                }
                match json {
                    Json::Text(id) => parse_uuid(id.as_str()),
                    _ => None,
                }
            },
            None => None,
        },
        WireResult::Error { code: _ } => None,
    }
}

/// A client that was enrolled by file: where it goes, as whom, and with which key.
pub struct AuthenticatedIpcClient {
    endpoint_name: String,
    principal_id: PrincipalId,
    seed: [u8; 32],
}

impl AuthenticatedIpcClient {
    /// Where the client goes.
    pub closed spec fn endpoint(self) -> Seq<char> {
        self.endpoint_name@
    }

    /// As whom the client goes.
    pub closed spec fn principal(self) -> PrincipalId {
        self.principal_id
    }

    /// With which key the client goes.
    pub closed spec fn key(self) -> Seq<u8> {
        self.seed@
    }

    /// The client of an enrollment.
    pub fn from_enrollment(enrollment: IpcEnrollment) -> (client: Self)
        ensures
            client.endpoint() == enrollment.endpoint_name@,
            client.principal() == enrollment.principal_id,
            client.key() == enrollment.seed@,
    {
        AuthenticatedIpcClient {
            endpoint_name: enrollment.endpoint_name,
            principal_id: enrollment.principal_id,
            seed: enrollment.seed,
        }
    }

    pub fn principal_id(&self) -> (id: PrincipalId)
        ensures
            id == self.principal(),
    {
        self.principal_id
    }

    pub fn endpoint_name(&self) -> (name: &str)
        ensures
            name@ == self.endpoint(),
    {
        self.endpoint_name.as_str()
    }

    /// Answers the daemon's challenge. A challenge of another protocol version is not answered.
    pub fn prove(&self, challenge: Option<&PairingChallenge>) -> (response: Result<
        PairingResponse,
        DaemonError,
    >)
        ensures
            match response {
                Ok(response) => challenge matches Some(challenge) && challenge.protocol_version
                    == PROTOCOL_VERSION && proves(response, self.key(), *challenge),
                Err(error) => error == DaemonError::Unauthenticated && !(challenge matches Some(
                    challenge,
                ) && challenge.protocol_version == PROTOCOL_VERSION),
            },
    {
        match challenge {
            None => Err(DaemonError::Unauthenticated),
            Some(challenge) => {
                if challenge.protocol_version != PROTOCOL_VERSION {
                    return Err(DaemonError::Unauthenticated);
                }
                Ok(pairing_response_for(&self.seed, challenge))
            },
        }
    }

    /// Takes the daemon's answer: it has to be of this protocol version and for this request.
    pub fn accept(&self, request_id: u128, response: Option<DaemonResponse>) -> (accepted: Result<
        DaemonResponse,
        DaemonError,
    >)
        ensures
            accepted == (if response matches Some(response) && response.protocol_version
                == PROTOCOL_VERSION && response.request_id == request_id {
                Ok::<DaemonResponse, DaemonError>(response->0)
            } else {
                Err::<DaemonResponse, DaemonError>(DaemonError::TransportUnavailable)
            }),
    {
        match response {
            None => Err(DaemonError::TransportUnavailable),
            Some(response) => {
                if response.protocol_version != PROTOCOL_VERSION || response.request_id
                    != request_id {
                    return Err(DaemonError::TransportUnavailable);
                }
                Ok(response)
            },
        }
    }

    /// The length that a frame from the daemon announces.
    pub fn frame_length(&self, header: [u8; 4]) -> (length: Result<usize, DaemonError>)
        ensures
            match length {
                Ok(length) => frame_bounds(little_endian(header@)) && length == little_endian(
                    header@,
                ),
                Err(error) => !frame_bounds(little_endian(header@)) && error
                    == DaemonError::TransportUnavailable,
            },
    {
        match frame_length(header) {
            Ok(length) => Ok(length),
            Err(_) => Err(DaemonError::TransportUnavailable),
        }
    }

    /// Puts bytes for the daemon into a frame; nothing is sent empty.
    pub fn encode_frame(&self, bytes: &Vec<u8>) -> (frame: Result<Vec<u8>, DaemonError>)
        ensures
            match frame {
                Ok(frame) => 0 < bytes@.len() <= MAX_FRAME_BYTES && framed(bytes@, frame@),
                Err(error) => !(0 < bytes@.len() <= MAX_FRAME_BYTES) && error
                    == DaemonError::TransportUnavailable,
            },
    {
        if bytes.len() == 0 {
            return Err(DaemonError::TransportUnavailable);
        }
        crate::wire::encode_frame(bytes)
    }
}

/// A client that was handed the owner's key in the same process.
pub struct ProvisionedLocalClient {
    seed: [u8; 32],
}

impl ProvisionedLocalClient {
    /// With which key the client goes.
    pub closed spec fn key(self) -> Seq<u8> {
        self.seed@
    }

    pub fn new(seed: [u8; 32]) -> (client: Self)
        ensures
            client.key() == seed@,
    {
        ProvisionedLocalClient { seed }
    }

    /// Answers a challenge.
    pub fn pairing_response(&self, challenge: &PairingChallenge) -> (response: PairingResponse)
        ensures
            proves(response, self.key(), *challenge),
    {
        pairing_response_for(&self.seed, challenge)
    }
}

impl crate::config::DaemonConfig {
    /// The client that holds the owner's key.
    pub fn provisioned_client(&self) -> (client: ProvisionedLocalClient)
        ensures
            client.key() == self.pairing_seed@,
    {
        ProvisionedLocalClient::new(self.pairing_seed)
    }
}

/// The two ends of a session understand each other: what a client answers to the challenge that a
/// daemon opens with is accepted by every daemon that knows the client's key, and no earlier client
/// claims it.
pub proof fn law_enrolled_client_is_let_in(
    clients: Seq<ClientVerifier>,
    at: int,
    client: AuthenticatedIpcClient,
    challenge: PairingChallenge,
    response: PairingResponse,
)
    requires
        0 <= at < clients.len(),
        clients[at].pairing_verifier@ == crate::crypto::ed25519_public_key(client.key()),
        forall|i: int|
            0 <= i < at ==> !crate::wire::proven_by(#[trigger] clients[i], challenge, response),
        proves(response, client.key(), challenge),
    ensures
        authenticated(clients, challenge, response) == Some(clients[at].principal_id),
{
    crate::wire::law_paired_key_is_accepted(clients, at, client.key(), challenge, response);
}

/// A memory that was changed is embedded anew, and nothing else is: the target is the entity that a
/// successful answer names, and a refusal has none.
pub proof fn law_changed_memories_are_embedded_anew(
    response: DaemonResponse,
    request_id: u128,
    outcome: crate::dispatch::MemoryMutationOutcome,
)
    requires
        response.succeeds(request_id, crate::dispatch::memory_mutation_json(outcome)),
    ensures
        embedding_target(response) == uuid_of_text(crate::ids::uuid_text(outcome.entity_id.value)),
{
    crate::dispatch::law_memory_mutations_report_what_was_stored(outcome);
}

/// A refusal changes no memory.
pub proof fn law_refusals_refresh_nothing(response: DaemonResponse, request_id: u128, code: Seq<char>)
    requires
        response.refuses(request_id, code),
    ensures
        embedding_target(response) is None,
{
}

} // verus!
