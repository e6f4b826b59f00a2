//! The local IPC protocol: envelopes, frames, the pairing handshake and their bounds.
use crate::crypto::{
    accepts, ed25519_accepts, ed25519_public_key, ed25519_signature, sign,
};
use crate::error::{code_of, DaemonError};
use crate::ids::{
    big_endian_byte, is_v7, parse_uuid, pow16, uuid_bytes, uuid_of_text, uuid_version, PrincipalId,
};
use crate::json::{
    as_number, as_text, field_view, field_views, get, member, name_views, number_value, occurrences,
    read_record, record_fields, text_value, Json, JsonModel, RecordRules,
};
use crate::text::{blank, byte_len, is_blank, same_text, utf8_len};
use vstd::prelude::*;

verus! {

/// The only supported local IPC protocol version. It carries provider resource identity and opaque
/// observed revisions for user content; no earlier version is accepted.
pub const PROTOCOL_VERSION: u16 = 2;

/// No frame is longer.
pub const MAX_FRAME_BYTES: usize = 65536;

/// No capability name is longer.
pub const MAX_CAPABILITY_BYTES: usize = 128;

/// A client envelope. The claimed principal is deliberately ignored after OS-local authentication.
#[derive(Debug, PartialEq, Eq)]
pub struct DaemonRequest {
    pub protocol_version: u16,
    pub request_id: u128,
    pub principal_id: u128,
    pub operation_id: u128,
    pub capability: String,
    pub payload: Json,
}

/// One daemon-generated, single-use challenge for proving possession of a paired private key.
#[derive(Clone, Copy, Debug, PartialEq, Eq, Structural)]
pub struct PairingChallenge {
    pub protocol_version: u16,
    pub nonce: u128,
}

/// Client proof over the exact challenge. Signatures are fixed-size Ed25519 values.
#[derive(Clone, Debug, PartialEq, Eq)]
pub struct PairingResponse {
    pub protocol_version: u16,
    pub signature: Vec<u8>,
}

/// A bounded versioned daemon response correlated to its request.
#[derive(Debug, PartialEq, Eq)]
pub struct DaemonResponse {
    pub protocol_version: u16,
    pub request_id: u128,
    pub result: WireResult,
}

/// Bounded, redacted daemon result carried on the wire for both success and failure.
#[derive(Debug, PartialEq, Eq)]
pub enum WireResult {
    Success { value: Json },
    Error { code: String },
}

/// What a response says.
pub enum ResultModel {
    Success { value: JsonModel },
    Error { code: Seq<char> },
}

impl View for WireResult {
    type V = ResultModel;

    open spec fn view(&self) -> ResultModel {
        match self {
            WireResult::Success { value } => ResultModel::Success { value: value@ },
            WireResult::Error { code } => ResultModel::Error { code: code@ },
        }
    }
}

impl DaemonResponse {
    /// The response carries `value` for the request.
    pub open spec fn succeeds(self, request_id: u128, value: JsonModel) -> bool {
        &&& self.protocol_version == PROTOCOL_VERSION
        &&& self.request_id == request_id
        &&& self.result@ == ResultModel::Success { value }
    }

    /// The response refuses the request with `code`.
    pub open spec fn refuses(self, request_id: u128, code: Seq<char>) -> bool {
        &&& self.protocol_version == PROTOCOL_VERSION
        &&& self.request_id == request_id
        &&& self.result@ == ResultModel::Error { code }
    }

    /// A response that carries `value`.
    pub fn success(request_id: u128, value: Json) -> (response: Self)
        ensures
            response.succeeds(request_id, value@),
    {
        DaemonResponse {
            protocol_version: PROTOCOL_VERSION,
            request_id,
            result: WireResult::Success { value },
        }
    }

    /// A response that refuses with `code`.
    pub fn refusal(request_id: u128, code: &str) -> (response: Self)
        ensures
            response.refuses(request_id, code@),
    {
        DaemonResponse {
            protocol_version: PROTOCOL_VERSION,
            request_id,
            result: WireResult::Error { code: code.to_owned() },
        }
    }

    /// The response to a request that failed.
    pub fn failure(request_id: u128, error: &DaemonError) -> (response: Self)
        ensures
            response.refuses(request_id, code_of(*error)),
    {
        Self::refusal(request_id, error.wire_code())
    }
}

/// What a request says.
pub struct RequestModel {
    pub protocol_version: u16,
    pub request_id: u128,
    pub principal_id: u128,
    pub operation_id: u128,
    pub capability: Seq<char>,
    pub payload: JsonModel,
}

impl View for DaemonRequest {
    type V = RequestModel;

    open spec fn view(&self) -> RequestModel {
        RequestModel {
            protocol_version: self.protocol_version,
            request_id: self.request_id,
            principal_id: self.principal_id,
            operation_id: self.operation_id,
            capability: self.capability@,
            payload: self.payload@,
        }
    }
}

/// The request keeps the protocol's bounds. `payload_bytes` is the length of the payload in its
/// compact encoding, where it can be encoded.
pub open spec fn request_valid(request: RequestModel, payload_bytes: Option<usize>) -> bool {
    &&& request.protocol_version == PROTOCOL_VERSION
    &&& uuid_version(request.request_id) == 7
    &&& uuid_version(request.principal_id) == 7
    &&& uuid_version(request.operation_id) == 7
    &&& !blank(request.capability)
    &&& utf8_len(request.capability) <= MAX_CAPABILITY_BYTES
    &&& payload_bytes matches Some(length) && length <= MAX_FRAME_BYTES
}

/// Checks the bounds of a request.
pub fn validate_request(request: &DaemonRequest, payload_bytes: Option<usize>) -> (checked: Result<
    (),
    DaemonError,
>)
    ensures
        match checked {
            Ok(_) => request_valid(request@, payload_bytes),
            Err(error) => !request_valid(request@, payload_bytes) && error
                == DaemonError::InvalidRequest,
        },
{
    if request.protocol_version != PROTOCOL_VERSION || !is_v7(request.request_id) || !is_v7(
        request.principal_id,
    ) || !is_v7(request.operation_id) || is_blank(request.capability.as_str()) || byte_len(
        request.capability.as_str(),
    ) > MAX_CAPABILITY_BYTES {
        return Err(DaemonError::InvalidRequest);
    }
    match payload_bytes {
        Some(length) => if length > MAX_FRAME_BYTES {
            Err(DaemonError::InvalidRequest)
        } else {
            Ok(())
        },
        None => Err(DaemonError::InvalidRequest),
    }
}

/// How a frame is read as a record: a member that the record does not have is passed over, one that
/// it has may not be written twice.
pub open spec fn frame_rules() -> RecordRules {
    RecordRules { refuse_unknown: false, refuse_repeated: true }
}

/// The names of an envelope's fields.
pub open spec fn envelope_names() -> Seq<Seq<char>> {
    seq![
        "protocol_version"@,
        "request_id"@,
        "principal_id"@,
        "operation_id"@,
        "capability"@,
        "payload"@,
    ]
}

/// A required UUID.
pub open spec fn uuid_value(field: Option<JsonModel>) -> Option<u128> {
    match text_value(field) {
        Some(text) => uuid_of_text(text),
        None => None,
    }
}

/// A required 16-bit number.
pub open spec fn short_value(field: Option<JsonModel>) -> Option<u16> {
    match number_value(field) {
        Some(number) => if number <= 0xffff {
            Some(number as u16)
        } else {
            None
        },
        None => None,
    }
}

/// The envelope that a document holds.
pub open spec fn envelope(document: JsonModel) -> Option<RequestModel> {
    match record_fields(document, envelope_names(), frame_rules()) {
        Some(fields) => match (
            short_value(fields[0]),
            uuid_value(fields[1]),
            uuid_value(fields[2]),
            uuid_value(fields[3]),
            text_value(fields[4]),
            fields[5],
        ) {
            (
                Some(protocol_version),
                Some(request_id),
                Some(principal_id),
                Some(operation_id),
                Some(capability),
                Some(payload),
            ) => Some(
                RequestModel {
                    protocol_version,
                    request_id,
                    principal_id,
                    operation_id,
                    capability,
                    payload,
                },
            ),
            _ => None,
        },
        None => None,
    }
}

/// Reads a required UUID.
pub fn as_uuid(field: Option<&Json>) -> (id: Option<u128>)
    ensures
        id == uuid_value(field_view(field)),
{
    match as_text(field) {
        Some(text) => parse_uuid(text.as_str()),
        None => None,
    }
}

fn as_short(field: Option<&Json>) -> (number: Option<u16>)
    ensures
        number == short_value(field_view(field)),
{
    match as_number(field) {
        Some(number) => if number <= 0xffff {
            Some(number as u16)
        } else {
            None
        },
        None => None,
    }
}

/// Reads the envelope that a document holds.
fn read_envelope(document: &Json) -> (request: Option<DaemonRequest>)
    ensures
        match request {
            Some(request) => envelope(document@) == Some(request@),
            None => envelope(document@) is None,
        },
{
    let mut names: Vec<&str> = Vec::new();
    names.push("protocol_version");
    names.push("request_id");
    names.push("principal_id");
    names.push("operation_id");
    names.push("capability");
    names.push("payload");
    assert(name_views(names@) =~= envelope_names());
    let rules = RecordRules { refuse_unknown: false, refuse_repeated: true };
    let fields = match read_record(document, &names, rules) {
        Some(fields) => fields,
        None => {
            return None;
        },
    };
    let ghost views = field_views(fields@);
    match (
        as_short(fields[0]),
        as_uuid(fields[1]),
        as_uuid(fields[2]),
        as_uuid(fields[3]),
        as_text(fields[4]),
        fields[5],
    ) {
        (
            Some(protocol_version),
            Some(request_id),
            Some(principal_id),
            Some(operation_id),
            Some(capability),
            Some(payload),
        ) => Some(
            DaemonRequest {
                protocol_version,
                request_id,
                principal_id,
                operation_id,
                capability,
                payload: payload.duplicate(),
            },
        ),
        _ => None,
    }
}

/// A frame's length is within the protocol's bounds.
pub open spec fn frame_bounds(length: nat) -> bool {
    0 < length <= MAX_FRAME_BYTES
}

/// The request that a frame carries, where it keeps every bound.
pub open spec fn accepted_request(
    length: usize,
    document: Option<&Json>,
    payload_bytes: Option<usize>,
) -> Option<RequestModel> {
    if !frame_bounds(length as nat) {
        None
    } else {
        match document {
            Some(json) => match envelope(json@) {
                Some(request) => if request_valid(request, payload_bytes) {
                    Some(request)
                } else {
                    None
                },
                None => None,
            },
            None => None,
        }
    }
}

/// Decodes one bounded wire envelope before it is considered for authentication. `length` is the
/// length of the frame, `document` what it holds where it is JSON, and `payload_bytes` the length of
/// the payload in its compact encoding.
pub fn decode_request(length: usize, document: Option<&Json>, payload_bytes: Option<usize>) -> (decoded:
    Result<DaemonRequest, DaemonError>)
    ensures
        match decoded {
            Ok(request) => accepted_request(length, document, payload_bytes) == Some(request@),
            Err(error) => accepted_request(length, document, payload_bytes) is None && error
                == DaemonError::InvalidRequest,
        },
{
    if length == 0 || length > MAX_FRAME_BYTES {
        return Err(DaemonError::InvalidRequest);
    }
    let document = match document {
        Some(document) => document,
        None => {
            return Err(DaemonError::InvalidRequest);
        },
    };
    match read_envelope(document) {
        Some(request) => match validate_request(&request, payload_bytes) {
            Ok(_) => Ok(request),
            Err(error) => Err(error),
        },
        None => Err(DaemonError::InvalidRequest),
    }
}

/// The request that a refused frame can still be answered under: its own identifier, where it has
/// one of the right version.
pub open spec fn recoverable_id(document: JsonModel) -> Option<u128> {
    match record_fields(document, seq!["request_id"@], frame_rules()) {
        Some(fields) => match uuid_value(fields[0]) {
            Some(id) => if uuid_version(id) == 7 {
                Some(id)
            } else {
                None
            },
            None => None,
        },
        None => None,
    }
}

/// Recovers the identifier of a request that was refused.
pub fn recover_request_id(document: Option<&Json>) -> (id: Option<u128>)
    ensures
        id == (match document {
            Some(document) => recoverable_id(document@),
            None => None,
        }),
{
    let document = match document {
        Some(document) => document,
        None => {
            return None;
        },
    };
    let mut names: Vec<&str> = Vec::new();
    names.push("request_id");
    assert(name_views(names@) =~= seq!["request_id"@]);
    let rules = RecordRules { refuse_unknown: false, refuse_repeated: true };
    match read_record(document, &names, rules) {
        Some(fields) => {
            assert(field_views(fields@)[0] == field_view(fields@[0]));
            match as_uuid(fields[0]) {
                Some(id) => if is_v7(id) {
                    Some(id)
                } else {
                    None
                },
                None => None,
            }
        },
        None => None,
    }
}

/// The frame asks for streamed agent output: it runs the agent and does not opt out.
pub open spec fn streams(document: JsonModel) -> bool {
    &&& record_fields(document, seq!["capability"@, "payload"@], frame_rules()) matches Some(fields)
    &&& text_value(fields[0]) == Some("cortex_agent_run"@)
    &&& fields[1] matches Some(payload) && get(payload, "stream"@) != Some(JsonModel::Bool(false))
}

/// True unless the frame explicitly opts out of streaming with `"stream": false`. Only the agent
/// streams; every other capability stays on the single-response path.
pub fn requests_streaming_agent_output(document: Option<&Json>) -> (holds: bool)
    ensures
        holds == (document matches Some(json) && streams(json@)),
{
    let document = match document {
        Some(document) => document,
        None => {
            return false;
        },
    };
    let mut names: Vec<&str> = Vec::new();
    names.push("capability");
    names.push("payload");
    assert(name_views(names@) =~= seq!["capability"@, "payload"@]);
    let rules = RecordRules { refuse_unknown: false, refuse_repeated: true };
    match read_record(document, &names, rules) {
        Some(fields) => {
            assert(field_views(fields@)[0] == field_view(fields@[0]));
            assert(field_views(fields@)[1] == field_view(fields@[1]));
            match (as_text(fields[0]), fields[1]) {
                (Some(capability), Some(payload)) => {
                    if !same_text(capability.as_str(), "cortex_agent_run") {
                        return false;
                    }
                    match member(payload, "stream") {
                        Some(Json::Bool(stream)) => *stream,
                        _ => true,
                    }
                },
                _ => false,
            }
        },
        None => false,
    }
}

/// The response as it is written: one that does not fit a frame, or cannot be encoded, is replaced
/// by a refusal under the same request. `encoded_bytes` is the length of the response in its compact
/// encoding.
pub fn bounded_response(response: DaemonResponse, encoded_bytes: Option<usize>) -> (written:
    DaemonResponse)
    ensures
        if encoded_bytes is Some && encoded_bytes->0 <= MAX_FRAME_BYTES {
            written == response
        } else {
            written.refuses(response.request_id, "response_too_large"@)
        },
{
    match encoded_bytes {
        Some(length) => if length <= MAX_FRAME_BYTES {
            response
        } else {
            DaemonResponse::refusal(response.request_id, "response_too_large")
        },
        None => DaemonResponse::refusal(response.request_id, "response_too_large"),
    }
}

/// The number that four bytes stand for, the least significant first.
pub open spec fn little_endian(header: Seq<u8>) -> nat {
    (header[0] + 256 * header[1] + 65536 * header[2] + 16777216 * header[3]) as nat
}

/// The length that a frame's header announces, where it is within the bounds.
pub fn frame_length(header: [u8; 4]) -> (length: Result<usize, DaemonError>)
    ensures
        match length {
            Ok(length) => frame_bounds(little_endian(header@)) && length == little_endian(header@),
            Err(error) => !frame_bounds(little_endian(header@)) && error
                == DaemonError::InvalidRequest,
        },
{
    let length: u32 = header[0] as u32 + 256 * (header[1] as u32) + 65536 * (header[2] as u32)
        + 16777216 * (header[3] as u32);
    if length == 0 || length > 65536 {
        return Err(DaemonError::InvalidRequest);
    }
    Ok(length as usize)
}

/// `frame` is `bytes` behind a header that announces their number.
pub open spec fn framed(bytes: Seq<u8>, frame: Seq<u8>) -> bool {
    &&& frame.len() == 4 + bytes.len()
    &&& little_endian(frame.subrange(0, 4)) == bytes.len()
    &&& frame.subrange(4, frame.len() as int) == bytes
}

/// Puts bytes into a frame.
pub fn encode_frame(bytes: &Vec<u8>) -> (frame: Result<Vec<u8>, DaemonError>)
    ensures
        match frame {
            Ok(frame) => bytes@.len() <= MAX_FRAME_BYTES && framed(bytes@, frame@),
            Err(error) => bytes@.len() > MAX_FRAME_BYTES && error
                == DaemonError::TransportUnavailable,
        },
{
    if bytes.len() > MAX_FRAME_BYTES {
        return Err(DaemonError::TransportUnavailable);
    }
    let length: u32 = bytes.len() as u32;
    let mut frame: Vec<u8> = Vec::new();
    frame.push((length % 256) as u8);
    frame.push(((length / 256) % 256) as u8);
    frame.push((length / 65536) as u8);
    frame.push(0);
    assert(little_endian(frame@) == bytes@.len());
    let ghost header = frame@;
    let mut i: usize = 0;
    while i < bytes.len()
        invariant
            i <= bytes@.len(),
            header.len() == 4,
            frame@ == header + bytes@.subrange(0, i as int),
        decreases bytes@.len() - i,
    {
        frame.push(bytes[i]);
        assert(frame@ =~= header + bytes@.subrange(0, i + 1));
        i += 1;
    }
    assert(bytes@.subrange(0, i as int) =~= bytes@);
    assert(frame@.subrange(0, 4) =~= header);
    assert(frame@.subrange(4, frame@.len() as int) =~= bytes@);
    Ok(frame)
}

/// What was put into a frame is what its header lets a reader take out: the announced length is
/// within the bounds, and that many bytes behind the header are the bytes themselves.
pub proof fn law_frames_round_trip(bytes: Seq<u8>, frame: Seq<u8>)
    requires
        0 < bytes.len() <= MAX_FRAME_BYTES,
        framed(bytes, frame),
    ensures
        frame_bounds(little_endian(frame.subrange(0, 4))),
        frame.subrange(4, 4 + little_endian(frame.subrange(0, 4)) as int) == bytes,
{
}

/// The words that open every pairing proof.
pub open spec fn pairing_prefix() -> Seq<u8> {
    vstd::utf8::encode_utf8("cortexd-local-ipc-pairing-v1\0"@)
}

/// The message that a pairing proof signs: it binds the protocol version and the nonce.
pub open spec fn pairing_words(challenge: PairingChallenge) -> Seq<u8> {
    pairing_prefix() + seq![
        (challenge.protocol_version % 256) as u8,
        (challenge.protocol_version / 256) as u8,
    ] + Seq::new(16, |i: int| big_endian_byte(challenge.nonce, i) as u8)
}

/// The message that a pairing proof signs.
pub fn pairing_message(challenge: &PairingChallenge) -> (message: Vec<u8>)
    ensures
        message@ == pairing_words(*challenge),
{
    let mut message: Vec<u8> = Vec::new();
    let prefix = "cortexd-local-ipc-pairing-v1\0".as_bytes();
    let mut i: usize = 0;
    while i < prefix.len()
        invariant
            i <= prefix@.len(),
            message@ == prefix@.subrange(0, i as int),
        decreases prefix@.len() - i,
    {
        message.push(prefix[i]);
        i += 1;
    }
    assert(prefix@.subrange(0, i as int) =~= prefix@);
    message.push((challenge.protocol_version % 256) as u8);
    message.push((challenge.protocol_version / 256) as u8);
    let nonce = uuid_bytes(challenge.nonce);
    let ghost head = message@;
    let mut k: usize = 0;
    while k < 16
        invariant
            k <= 16,
            message@ == head + nonce@.subrange(0, k as int),
        decreases 16 - k,
    {
        message.push(nonce[k]);
        assert(message@ =~= head + nonce@.subrange(0, k + 1));
        k += 1;
    }
    proof {
        assert(nonce@.subrange(0, 16) =~= nonce@);
        assert forall|i: int| 0 <= i < 16 implies nonce@[i] == big_endian_byte(
            challenge.nonce,
            i,
        ) as u8 by {
            assert(nonce@[i] == big_endian_byte(challenge.nonce, i));
        }
        assert(message@ =~= pairing_words(*challenge));
    }
    message
}

/// The response proves possession of the private key `seed` for the challenge.
pub open spec fn proves(response: PairingResponse, seed: Seq<u8>, challenge: PairingChallenge) -> bool {
    &&& response.protocol_version == PROTOCOL_VERSION
    &&& response.signature@ == ed25519_signature(seed, pairing_words(challenge))
    &&& response.signature@.len() == 64
    &&& ed25519_accepts(ed25519_public_key(seed), pairing_words(challenge), response.signature@)
}

/// Answers a challenge with the private key `seed`.
pub fn pairing_response_for(seed: &[u8; 32], challenge: &PairingChallenge) -> (response:
    PairingResponse)
    ensures
        proves(response, seed@, *challenge),
{
    let message = pairing_message(challenge);
    let bytes = sign(seed, message.as_slice());
    let mut signature: Vec<u8> = Vec::new();
    let mut i: usize = 0;
    while i < 64
        invariant
            i <= 64,
            signature@ == bytes@.subrange(0, i as int),
        decreases 64 - i,
    {
        signature.push(bytes[i]);
        i += 1;
    }
    assert(bytes@.subrange(0, 64) =~= bytes@);
    PairingResponse { protocol_version: PROTOCOL_VERSION, signature }
}

/// A client that the daemon knows: a principal and the public key that proves it.
#[derive(Clone, Copy, Debug, PartialEq, Eq)]
pub struct ClientVerifier {
    pub principal_id: PrincipalId,
    pub pairing_verifier: [u8; 32],
}

/// The client's key accepts the response for the challenge.
pub open spec fn proven_by(
    client: ClientVerifier,
    challenge: PairingChallenge,
    response: PairingResponse,
) -> bool {
    ed25519_accepts(client.pairing_verifier@, pairing_words(challenge), response.signature@)
}

/// The principal of the first client whose key accepts the response.
pub open spec fn first_proven(
    clients: Seq<ClientVerifier>,
    challenge: PairingChallenge,
    response: PairingResponse,
) -> Option<PrincipalId>
    decreases clients.len(),
{
    if clients.len() == 0 {
        None
    } else if proven_by(clients[0], challenge, response) {
        Some(clients[0].principal_id)
    } else {
        first_proven(clients.drop_first(), challenge, response)
    }
}

/// Who answered a challenge, if anybody the daemon knows did.
pub open spec fn authenticated(
    clients: Seq<ClientVerifier>,
    challenge: PairingChallenge,
    response: PairingResponse,
) -> Option<PrincipalId> {
    if response.protocol_version != PROTOCOL_VERSION || response.signature@.len() != 64 {
        None
    } else {
        first_proven(clients, challenge, response)
    }
}

/// Verifies the answer to a challenge.
pub fn verify_pairing(
    clients: &Vec<ClientVerifier>,
    challenge: &PairingChallenge,
    response: &PairingResponse,
) -> (principal: Option<PrincipalId>)
    ensures
        principal == authenticated(clients@, *challenge, *response),
{
    if response.protocol_version != PROTOCOL_VERSION || response.signature.len() != 64 {
        return None;
    }
    let message = pairing_message(challenge);
    let mut i: usize = 0;
    assert(clients@.subrange(0, clients@.len() as int) =~= clients@);
    while i < clients.len()
        invariant
            i <= clients@.len(),
            message@ == pairing_words(*challenge),
            response.protocol_version == PROTOCOL_VERSION,
            response.signature@.len() == 64,
            first_proven(clients@, *challenge, *response) == first_proven(
                clients@.subrange(i as int, clients@.len() as int),
                *challenge,
                *response,
            ),
        decreases clients@.len() - i,
    {
        let client = clients[i];
        let ghost rest = clients@.subrange(i as int, clients@.len() as int);
        assert(rest[0] == client);
        assert(rest.drop_first() =~= clients@.subrange(i + 1, clients@.len() as int));
        if accepts(&client.pairing_verifier, message.as_slice(), response.signature.as_slice()) {
            return Some(client.principal_id);
        }
        i += 1;
    }
    None
}

/// The private key behind a known public key opens the door: its answer to a challenge is accepted,
/// as the client itself or as an earlier one that the same answer proves.
pub proof fn law_paired_key_is_accepted(
    clients: Seq<ClientVerifier>,
    at: int,
    seed: Seq<u8>,
    challenge: PairingChallenge,
    response: PairingResponse,
)
    requires
        0 <= at < clients.len(),
        clients[at].pairing_verifier@ == ed25519_public_key(seed),
        proves(response, seed, challenge),
    ensures
        authenticated(clients, challenge, response) is Some,
        (forall|i: int| 0 <= i < at ==> !proven_by(#[trigger] clients[i], challenge, response))
            ==> authenticated(clients, challenge, response) == Some(clients[at].principal_id),
    decreases clients.len(),
{
    if at > 0 {
        let rest = clients.drop_first();
        assert(rest[at - 1] == clients[at]);
        law_paired_key_is_accepted(rest, at - 1, seed, challenge, response);
        if forall|i: int| 0 <= i < at ==> !proven_by(#[trigger] clients[i], challenge, response) {
            assert forall|i: int| 0 <= i < at - 1 implies !proven_by(
                #[trigger] rest[i],
                challenge,
                response,
            ) by {
                assert(rest[i] == clients[i + 1]);
            }
            assert(!proven_by(clients[0], challenge, response));
        }
    }
}

/// Nobody is authenticated whose key does not accept the answer to this very challenge.
pub proof fn law_nobody_else_is_accepted(
    clients: Seq<ClientVerifier>,
    challenge: PairingChallenge,
    response: PairingResponse,
)
    requires
        authenticated(clients, challenge, response) is Some,
    ensures
        exists|i: int|
            0 <= i < clients.len() && proven_by(#[trigger] clients[i], challenge, response)
                && authenticated(clients, challenge, response) == Some(clients[i].principal_id),
    decreases clients.len(),
{
    if proven_by(clients[0], challenge, response) {
        assert(clients[0] == clients[0]);
    } else {
        let rest = clients.drop_first();
        law_nobody_else_is_accepted(rest, challenge, response);
        let i = choose|i: int|
            0 <= i < rest.len() && proven_by(#[trigger] rest[i], challenge, response)
                && authenticated(rest, challenge, response) == Some(rest[i].principal_id);
        assert(clients[i + 1] == rest[i]);
    }
}

proof fn lemma_pow16_positive(n: nat)
    ensures
        pow16(n) > 0,
    decreases n,
{
    if n > 0 {
        lemma_pow16_positive((n - 1) as nat);
    }
}

/// The first `i` bytes of an identifier, read as a number.
proof fn lemma_leading_bytes(a: u128, b: u128, i: nat)
    requires
        i <= 16,
        forall|k: int| 0 <= k < i ==> #[trigger] big_endian_byte(a, k) == big_endian_byte(b, k),
    ensures
        a as nat / pow16((32 - 2 * i) as nat) == b as nat / pow16((32 - 2 * i) as nat),
    decreases i,
{
    if i == 0 {
        lemma_pow16_32();
        lemma_pow16_positive(32);
        vstd::arithmetic::div_mod::lemma_basic_div(a as int, pow16(32) as int);
        vstd::arithmetic::div_mod::lemma_basic_div(b as int, pow16(32) as int);
    } else {
        let k = (i - 1) as nat;
        lemma_leading_bytes(a, b, k);
        let p = pow16((32 - 2 * i) as nat);
        lemma_pow16_positive((32 - 2 * i) as nat);
        assert(pow16((32 - 2 * k) as nat) == 256 * p) by {
            reveal_with_fuel(pow16, 3);
        }
        assert(30 - 2 * k == 32 - 2 * i);
        vstd::arithmetic::div_mod::lemma_div_denominator(a as int, p as int, 256);
        vstd::arithmetic::div_mod::lemma_div_denominator(b as int, p as int, 256);
        assert(p * 256 == 256 * p);
        let x = a as nat / p;
        let y = b as nat / p;
        assert(x / 256 == y / 256);
        assert(big_endian_byte(a, k as int) == x % 256);
        assert(big_endian_byte(b, k as int) == y % 256);
        assert(x == 256 * (x / 256) + x % 256);
        assert(y == 256 * (y / 256) + y % 256);
    }
}

proof fn lemma_pow16_32()
    ensures
        pow16(32) > u128::MAX,
{
    reveal_with_fuel(pow16, 33);
}

/// Two different challenges are two different messages: an answer to one is never an answer to the
/// other by way of the message alone.
pub proof fn law_challenges_sign_different_messages(a: PairingChallenge, b: PairingChallenge)
    requires
        pairing_words(a) == pairing_words(b),
    ensures
        a == b,
{
    let n = pairing_prefix().len() as int;
    assert(pairing_words(a)[n] == pairing_words(b)[n]);
    assert(pairing_words(a)[n + 1] == pairing_words(b)[n + 1]);
    assert(pairing_words(a)[n] == (a.protocol_version % 256) as u8);
    assert(pairing_words(b)[n] == (b.protocol_version % 256) as u8);
    assert(pairing_words(a)[n + 1] == (a.protocol_version / 256) as u8);
    assert(pairing_words(b)[n + 1] == (b.protocol_version / 256) as u8);
    assert((a.protocol_version % 256) as u8 == (b.protocol_version % 256) as u8);
    assert((a.protocol_version / 256) as u8 == (b.protocol_version / 256) as u8);
    assert forall|k: int| 0 <= k < 16 implies #[trigger] big_endian_byte(a.nonce, k)
        == big_endian_byte(b.nonce, k) by {
        assert(pairing_words(a)[n + 2 + k] == pairing_words(b)[n + 2 + k]);
        assert(pairing_words(a)[n + 2 + k] == big_endian_byte(a.nonce, k) as u8);
        assert(pairing_words(b)[n + 2 + k] == big_endian_byte(b.nonce, k) as u8);
    }
    lemma_leading_bytes(a.nonce, b.nonce, 16);
    assert(pow16((32 - 2 * 16) as nat) == 1);
    assert(a.nonce as nat / 1 == a.nonce as nat);
    assert(b.nonce as nat / 1 == b.nonce as nat);
    let x = a.protocol_version;
    let y = b.protocol_version;
    assert(x / 256 == y / 256 && x % 256 == y % 256);
    assert(x == 256 * (x / 256) + x % 256);
    assert(y == 256 * (y / 256) + y % 256);
}

/// Whoever is authenticated holds a key that the daemon knows: the signature in the answer is good
/// for this very challenge, under the verifier of the client that is let in.
pub proof fn law_a_known_key_signed_the_challenge(
    clients: Seq<ClientVerifier>,
    challenge: PairingChallenge,
    response: PairingResponse,
)
    requires
        authenticated(clients, challenge, response) is Some,
    ensures
        response.protocol_version == 2,
        response.signature@.len() == 64,
        exists|i: int|
            0 <= i < clients.len() && ed25519_accepts(
                (#[trigger] clients[i]).pairing_verifier@,
                pairing_words(challenge),
                response.signature@,
            ) && authenticated(clients, challenge, response) == Some(clients[i].principal_id),
{
    law_nobody_else_is_accepted(clients, challenge, response);
    let i = choose|i: int|
        0 <= i < clients.len() && proven_by(#[trigger] clients[i], challenge, response)
            && authenticated(clients, challenge, response) == Some(clients[i].principal_id);
    assert(ed25519_accepts(
        clients[i].pairing_verifier@,
        pairing_words(challenge),
        response.signature@,
    ));
}

/// A signature that no known key made lets nobody in, and one that a known key made lets somebody in.
pub proof fn law_a_good_signature_is_enough(
    clients: Seq<ClientVerifier>,
    challenge: PairingChallenge,
    response: PairingResponse,
    at: int,
)
    requires
        0 <= at < clients.len(),
        response.protocol_version == 2,
        response.signature@.len() == 64,
        ed25519_accepts(clients[at].pairing_verifier@, pairing_words(challenge), response.signature@),
    ensures
        authenticated(clients, challenge, response) is Some,
    decreases clients.len(),
{
    if at > 0 && !proven_by(clients[0], challenge, response) {
        let rest = clients.drop_first();
        assert(rest[at - 1] == clients[at]);
        law_a_good_signature_is_enough(rest, challenge, response, at - 1);
    }
}

/// The words that a proof signs are tied to this protocol, and to the challenge byte by byte.
pub proof fn law_proofs_are_tied_to_the_challenge(challenge: PairingChallenge)
    ensures
        ({
            let words = pairing_words(challenge);
            let prefix = vstd::utf8::encode_utf8("cortexd-local-ipc-pairing-v1\0"@);
            &&& words.len() == prefix.len() + 18
            &&& words.subrange(0, prefix.len() as int) == prefix
            &&& words[prefix.len() as int] + 256 * words[prefix.len() as int + 1]
                == challenge.protocol_version
            &&& forall|i: int|
                0 <= i < 16 ==> #[trigger] words[prefix.len() as int + 2 + i] == big_endian_byte(
                    challenge.nonce,
                    i,
                )
        }),
{
    let words = pairing_words(challenge);
    let prefix = pairing_prefix();
    assert(words.subrange(0, prefix.len() as int) =~= prefix);
    let low = (challenge.protocol_version % 256) as u8;
    let high = (challenge.protocol_version / 256) as u8;
    assert(words[prefix.len() as int] == low && words[prefix.len() as int + 1] == high);
    assert forall|i: int| 0 <= i < 16 implies #[trigger] words[prefix.len() as int + 2 + i]
        == big_endian_byte(challenge.nonce, i) by {
        assert(words[prefix.len() as int + 2 + i] == big_endian_byte(challenge.nonce, i) as u8);
    }
}

/// What an envelope says stands in the members of that name, and an envelope that is written so is
/// read.
pub proof fn law_envelopes_are_read_member_by_member(document: JsonModel)
    requires
        document is Object,
    ensures
        envelope(document) matches Some(request) ==> {
            &&& get(document, "protocol_version"@) == Some(
                JsonModel::Unsigned(request.protocol_version as u64),
            )
            &&& get(document, "request_id"@) matches Some(JsonModel::Text(id)) && uuid_of_text(id)
                == Some(request.request_id)
            &&& get(document, "principal_id"@) matches Some(JsonModel::Text(id)) && uuid_of_text(id)
                == Some(request.principal_id)
            &&& get(document, "operation_id"@) matches Some(JsonModel::Text(id)) && uuid_of_text(id)
                == Some(request.operation_id)
            &&& get(document, "capability"@) == Some(JsonModel::Text(request.capability))
            &&& get(document, "payload"@) == Some(request.payload)
        },
{
    let names = envelope_names();
    assert(names[0] == "protocol_version"@ && names[1] == "request_id"@);
    assert(names[2] == "principal_id"@ && names[3] == "operation_id"@);
    assert(names[4] == "capability"@ && names[5] == "payload"@);
}

/// What every accepted request keeps: this version of the protocol, time-ordered identifiers, a
/// capability of bounded length that is not blank, and bounded frames and payloads; and nothing that
/// keeps them is refused.
pub proof fn law_requests_keep_the_protocols_bounds(
    length: usize,
    document: Option<&Json>,
    payload_bytes: Option<usize>,
)
    requires
        document is Some && envelope(document->0@) is Some,
    ensures
        ({
            let request = envelope(document->0@)->0;
            accepted_request(length, document, payload_bytes) == (if 1 <= length <= 65536
                && request.protocol_version == 2 && uuid_version(request.request_id) == 7
                && uuid_version(request.principal_id) == 7 && uuid_version(request.operation_id) == 7
                && (exists|i: int|
                0 <= i < request.capability.len() && !crate::text::white_space(
                    #[trigger] request.capability[i],
                )) && utf8_len(request.capability) <= 128 && (payload_bytes matches Some(bytes)
                && bytes <= 65536) {
                Some(request)
            } else {
                None
            })
        }),
{
}

/// A response answers its own request, with what was asked for or with the code of a failure, and
/// never with both.
pub proof fn law_responses_answer_their_request(
    response: DaemonResponse,
    request_id: u128,
    value: JsonModel,
    code: Seq<char>,
)
    ensures
        response.succeeds(request_id, value) ==> {
            &&& response.request_id == request_id
            &&& response.protocol_version == 2
            &&& response.result matches WireResult::Success { value: carried } && carried@ == value
            &&& !response.refuses(request_id, code)
        },
        response.refuses(request_id, code) ==> {
            &&& response.request_id == request_id
            &&& response.protocol_version == 2
            &&& response.result matches WireResult::Error { code: carried } && carried@ == code
        },
{
}

/// A header announces a length byte by byte, the lowest first.
pub proof fn law_headers_count_from_the_lowest_byte(header: Seq<u8>)
    requires
        header.len() == 4,
    ensures
        little_endian(header) % 256 == header[0],
        little_endian(header) / 256 % 256 == header[1],
        little_endian(header) / 65536 % 256 == header[2],
        little_endian(header) / 16777216 == header[3],
        frame_bounds(little_endian(header)) <==> 1 <= little_endian(header) <= 65536,
{
}

/// Only an agent run streams, and it does unless it says otherwise.
pub proof fn law_only_agents_stream(document: JsonModel)
    requires
        document is Object,
    ensures
        streams(document) ==> {
            &&& get(document, "capability"@) == Some(JsonModel::Text("cortex_agent_run"@))
            &&& get(document, "payload"@) matches Some(payload)
            &&& get(payload, "stream"@) != Some(JsonModel::Bool(false))
        },
        occurrences(document->Object_0, "capability"@) == 1 && occurrences(
            document->Object_0,
            "payload"@,
        ) == 1 && get(document, "capability"@) == Some(JsonModel::Text("cortex_agent_run"@)) && get(
            document,
            "payload"@,
        ) is Some ==> (streams(document) <==> get(get(document, "payload"@)->0, "stream"@) != Some(
            JsonModel::Bool(false),
        )),
{
    let names = seq!["capability"@, "payload"@];
    assert(names[0] == "capability"@ && names[1] == "payload"@);
}

/// The identifier under which a refused request is answered is the one that it carries.
pub proof fn law_refusals_answer_the_identifier_that_was_sent(document: JsonModel)
    requires
        document is Object,
    ensures
        recoverable_id(document) matches Some(id) ==> {
            &&& get(document, "request_id"@) matches Some(JsonModel::Text(written))
            &&& uuid_of_text(written) == Some(id)
            &&& uuid_version(id) == 7
        },
{
    let names = seq!["request_id"@];
    assert(names[0] == "request_id"@);
}

/// An answer to a challenge speaks this version of the protocol and is signed with the key itself, over
/// the words of this challenge; the key's own public half accepts it.
pub proof fn law_answers_are_signed_for_their_challenge(
    response: PairingResponse,
    seed: Seq<u8>,
    challenge: PairingChallenge,
)
    requires
        proves(response, seed, challenge),
    ensures
        response.protocol_version == 2,
        response.signature@ == ed25519_signature(seed, pairing_words(challenge)),
        ed25519_accepts(ed25519_public_key(seed), pairing_words(challenge), response.signature@),
{
}

/// A request is shown as it came, field by field, and a result as what it is.
pub proof fn law_messages_show_what_they_hold(request: DaemonRequest, result: WireResult)
    ensures
        request@.protocol_version == request.protocol_version,
        request@.request_id == request.request_id,
        request@.principal_id == request.principal_id,
        request@.operation_id == request.operation_id,
        request@.capability == request.capability@,
        request@.payload == request.payload@,
        result matches WireResult::Success { value } ==> result@ is Success && result@->value
            == value@,
        result matches WireResult::Error { code } ==> result@ is Error && result@->code == code@,
{
}

} // verus!
