//! The daemon's failure categories, their wire codes, and how they meet the application's own.
use vstd::prelude::*;

verus! {

/// Safe local IPC failure categories. They intentionally omit filesystem and database details.
#[derive(Clone, Copy, Debug, PartialEq, Eq, Structural)]
pub enum DaemonError {
    Unauthenticated,
    InvalidRequest,
    UnsupportedCapability,
    PermissionDenied,
    Conflict,
    NotFound,
    InvalidConfiguration,
    StartupFailed,
    TransportUnavailable,
    SecretStoreUnavailable,
    RateLimited,
    AuthenticationFailed,
    QuotaExceeded,
    ContextOverflow,
    InvalidInferenceRequest,
}

/// The failures of the application service, with the payloads that the daemon reads.
#[derive(Clone, Copy, Debug, PartialEq, Eq)]
pub enum ApplicationError {
    PolicyDenied,
    PermissionDenied,
    Validation { field: &'static str },
    InvalidInferenceRequest,
    NotFound { entity: &'static str },
    Conflict { entity: &'static str },
    InferenceUnavailable,
    InferenceTimeout,
    RateLimited { retry_after_secs: Option<u64> },
    AuthenticationFailed,
    QuotaExceeded,
    ContextOverflow,
    SecretStoreUnavailable,
    Storage,
    NoSuitableModel,
    MalformedModelOutput,
    Internal,
}

/// The wire code of a failure.
pub open spec fn code_of(error: DaemonError) -> Seq<char> {
    match error {
        DaemonError::Unauthenticated => "unauthenticated"@,
        DaemonError::InvalidRequest => "invalid_request"@,
        DaemonError::UnsupportedCapability => "unsupported_capability"@,
        DaemonError::PermissionDenied => "permission_denied"@,
        DaemonError::Conflict => "conflict"@,
        DaemonError::NotFound => "not_found"@,
        DaemonError::InvalidConfiguration | DaemonError::StartupFailed => "unavailable"@,
        DaemonError::TransportUnavailable => "transport_unavailable"@,
        DaemonError::SecretStoreUnavailable => "secret_store_unavailable"@,
        DaemonError::RateLimited => "rate_limited"@,
        DaemonError::AuthenticationFailed => "auth_failed"@,
        DaemonError::QuotaExceeded => "quota_exceeded"@,
        DaemonError::ContextOverflow => "context_overflow"@,
        DaemonError::InvalidInferenceRequest => "invalid_inference_request"@,
    }
}

/// What an application failure is to a client of the daemon.
pub open spec fn daemon_error_of(error: ApplicationError) -> DaemonError {
    match error {
        ApplicationError::PolicyDenied | ApplicationError::PermissionDenied => {
            DaemonError::PermissionDenied
        },
        ApplicationError::Validation { field: _ } | ApplicationError::InvalidInferenceRequest => {
            DaemonError::InvalidRequest
        },
        ApplicationError::NotFound { entity: _ } => DaemonError::NotFound,
        ApplicationError::Conflict { entity: _ } => DaemonError::Conflict,
        ApplicationError::InferenceUnavailable | ApplicationError::InferenceTimeout => {
            DaemonError::TransportUnavailable
        },
        ApplicationError::RateLimited { retry_after_secs: _ } => DaemonError::RateLimited,
        ApplicationError::AuthenticationFailed => DaemonError::AuthenticationFailed,
        ApplicationError::QuotaExceeded => DaemonError::QuotaExceeded,
        ApplicationError::ContextOverflow => DaemonError::ContextOverflow,
        ApplicationError::SecretStoreUnavailable => DaemonError::SecretStoreUnavailable,
        ApplicationError::Storage
        | ApplicationError::NoSuitableModel
        | ApplicationError::MalformedModelOutput
        | ApplicationError::Internal => DaemonError::StartupFailed,
    }
}

/// `error` is what the application is told of a daemon failure.
pub open spec fn stands_for(error: ApplicationError, daemon: DaemonError) -> bool {
    match daemon {
        DaemonError::PermissionDenied => error is PermissionDenied,
        DaemonError::Conflict => error matches ApplicationError::Conflict { entity } && entity@
            == "resource"@,
        DaemonError::NotFound => error matches ApplicationError::NotFound { entity } && entity@
            == "resource"@,
        DaemonError::InvalidRequest | DaemonError::InvalidInferenceRequest => {
            error matches ApplicationError::Validation { field } && field@ == "payload"@
        },
        DaemonError::RateLimited => error == ApplicationError::RateLimited { retry_after_secs: None },
        DaemonError::AuthenticationFailed => error is AuthenticationFailed,
        DaemonError::QuotaExceeded => error is QuotaExceeded,
        DaemonError::ContextOverflow => error is ContextOverflow,
        DaemonError::SecretStoreUnavailable => error is SecretStoreUnavailable,
        DaemonError::Unauthenticated
        | DaemonError::UnsupportedCapability
        | DaemonError::InvalidConfiguration
        | DaemonError::StartupFailed
        | DaemonError::TransportUnavailable => error is Internal,
    }
}

impl DaemonError {
    /// The diagnostic text of the failure.
    pub fn message(&self) -> (text: &'static str)
        ensures
            text@ == (match *self {
                DaemonError::Unauthenticated => "local client is not authenticated"@,
                DaemonError::Conflict => "the resource changed since the caller last observed it"@,
                DaemonError::NotFound => "the addressed resource does not exist"@,
                DaemonError::InvalidRequest => "invalid local IPC request"@,
                DaemonError::UnsupportedCapability => "unsupported daemon capability"@,
                DaemonError::PermissionDenied => "daemon capability is not granted"@,
                DaemonError::InvalidConfiguration => "invalid daemon configuration"@,
                DaemonError::StartupFailed => "daemon startup failed"@,
                DaemonError::TransportUnavailable => "local transport unavailable"@,
                DaemonError::SecretStoreUnavailable => "OS keyring is unavailable or locked"@,
                DaemonError::RateLimited => "provider rate limited the request"@,
                DaemonError::AuthenticationFailed => "provider rejected the credential"@,
                DaemonError::QuotaExceeded => "provider quota or billing limit reached"@,
                DaemonError::ContextOverflow => "request exceeded the model context window"@,
                DaemonError::InvalidInferenceRequest => "provider rejected the request"@,
            }),
    {
        match self {
            DaemonError::Unauthenticated => "local client is not authenticated",
            DaemonError::Conflict => "the resource changed since the caller last observed it",
            DaemonError::NotFound => "the addressed resource does not exist",
            DaemonError::InvalidRequest => "invalid local IPC request",
            DaemonError::UnsupportedCapability => "unsupported daemon capability",
            DaemonError::PermissionDenied => "daemon capability is not granted",
            DaemonError::InvalidConfiguration => "invalid daemon configuration",
            DaemonError::StartupFailed => "daemon startup failed",
            DaemonError::TransportUnavailable => "local transport unavailable",
            DaemonError::SecretStoreUnavailable => "OS keyring is unavailable or locked",
            DaemonError::RateLimited => "provider rate limited the request",
            DaemonError::AuthenticationFailed => "provider rejected the credential",
            DaemonError::QuotaExceeded => "provider quota or billing limit reached",
            DaemonError::ContextOverflow => "request exceeded the model context window",
            DaemonError::InvalidInferenceRequest => "provider rejected the request",
        }
    }

    /// The code of the failure on the wire.
    pub fn wire_code(&self) -> (code: &'static str)
        ensures
            code@ == code_of(*self),
    {
        match self {
            DaemonError::Unauthenticated => "unauthenticated",
            DaemonError::InvalidRequest => "invalid_request",
            DaemonError::UnsupportedCapability => "unsupported_capability",
            DaemonError::PermissionDenied => "permission_denied",
            DaemonError::Conflict => "conflict",
            DaemonError::NotFound => "not_found",
            DaemonError::InvalidConfiguration | DaemonError::StartupFailed => "unavailable",
            DaemonError::TransportUnavailable => "transport_unavailable",
            DaemonError::SecretStoreUnavailable => "secret_store_unavailable",
            DaemonError::RateLimited => "rate_limited",
            DaemonError::AuthenticationFailed => "auth_failed",
            DaemonError::QuotaExceeded => "quota_exceeded",
            DaemonError::ContextOverflow => "context_overflow",
            DaemonError::InvalidInferenceRequest => "invalid_inference_request",
        }
    }
}

impl From<ApplicationError> for DaemonError {
    fn from(error: ApplicationError) -> (mapped: DaemonError) {
        match error {
            ApplicationError::PolicyDenied | ApplicationError::PermissionDenied => {
                DaemonError::PermissionDenied
            },
            ApplicationError::Validation { field: _ } | ApplicationError::InvalidInferenceRequest => {
                DaemonError::InvalidRequest
            },
            ApplicationError::NotFound { entity: _ } => DaemonError::NotFound,
            ApplicationError::Conflict { entity: _ } => DaemonError::Conflict,
            ApplicationError::InferenceUnavailable | ApplicationError::InferenceTimeout => {
                DaemonError::TransportUnavailable
            },
            ApplicationError::RateLimited { retry_after_secs: _ } => DaemonError::RateLimited,
            ApplicationError::AuthenticationFailed => DaemonError::AuthenticationFailed,
            ApplicationError::QuotaExceeded => DaemonError::QuotaExceeded,
            ApplicationError::ContextOverflow => DaemonError::ContextOverflow,
            ApplicationError::SecretStoreUnavailable => DaemonError::SecretStoreUnavailable,
            ApplicationError::Storage
            | ApplicationError::NoSuitableModel
            | ApplicationError::MalformedModelOutput
            | ApplicationError::Internal => DaemonError::StartupFailed,
        }
    }
}

impl vstd::std_specs::convert::FromSpecImpl<ApplicationError> for DaemonError {
    open spec fn obeys_from_spec() -> bool {
        true
    }

    open spec fn from_spec(error: ApplicationError) -> DaemonError {
        daemon_error_of(error)
    }
}

/// What the application is told of a daemon failure.
pub fn application_error_from_daemon(error: &DaemonError) -> (mapped: ApplicationError)
    ensures
        stands_for(mapped, *error),
{
    match error {
        DaemonError::PermissionDenied => ApplicationError::PermissionDenied,
        DaemonError::Conflict => ApplicationError::Conflict { entity: "resource" },
        DaemonError::NotFound => ApplicationError::NotFound { entity: "resource" },
        DaemonError::InvalidRequest | DaemonError::InvalidInferenceRequest => {
            ApplicationError::Validation { field: "payload" }
        },
        DaemonError::RateLimited => ApplicationError::RateLimited { retry_after_secs: None },
        DaemonError::AuthenticationFailed => ApplicationError::AuthenticationFailed,
        DaemonError::QuotaExceeded => ApplicationError::QuotaExceeded,
        DaemonError::ContextOverflow => ApplicationError::ContextOverflow,
        DaemonError::SecretStoreUnavailable => ApplicationError::SecretStoreUnavailable,
        DaemonError::Unauthenticated
        | DaemonError::UnsupportedCapability
        | DaemonError::InvalidConfiguration
        | DaemonError::StartupFailed
        | DaemonError::TransportUnavailable => ApplicationError::Internal,
    }
}

/// A failure that the application can name survives the way to the application and back.
pub proof fn law_named_failures_round_trip(daemon: DaemonError, application: ApplicationError)
    requires
        stands_for(application, daemon),
        !(application is Internal),
        daemon != DaemonError::InvalidInferenceRequest,
    ensures
        daemon_error_of(application) == daemon,
{
}

/// An application failure that has a category of its own is recognised again after it crossed the
/// wire as a daemon failure: the category is the same the second time.
pub proof fn law_categories_are_stable(first: ApplicationError, second: ApplicationError)
    requires
        stands_for(second, daemon_error_of(first)),
        daemon_error_of(first) != DaemonError::TransportUnavailable,
    ensures
        daemon_error_of(second) == daemon_error_of(first),
{
}

/// A client can tell failures apart by their codes: each code stands for one failure, and only a
/// configuration that is wrong and a startup that failed share theirs.
pub proof fn law_codes_tell_failures_apart(error: DaemonError)
    ensures
        code_of(error) == "unauthenticated"@ <==> error == DaemonError::Unauthenticated,
        code_of(error) == "invalid_request"@ <==> error == DaemonError::InvalidRequest,
        code_of(error) == "unsupported_capability"@ <==> error == DaemonError::UnsupportedCapability,
        code_of(error) == "permission_denied"@ <==> error == DaemonError::PermissionDenied,
        code_of(error) == "conflict"@ <==> error == DaemonError::Conflict,
        code_of(error) == "not_found"@ <==> error == DaemonError::NotFound,
        code_of(error) == "transport_unavailable"@ <==> error == DaemonError::TransportUnavailable,
        code_of(error) == "secret_store_unavailable"@ <==> error == DaemonError::SecretStoreUnavailable,
        code_of(error) == "rate_limited"@ <==> error == DaemonError::RateLimited,
        code_of(error) == "auth_failed"@ <==> error == DaemonError::AuthenticationFailed,
        code_of(error) == "quota_exceeded"@ <==> error == DaemonError::QuotaExceeded,
        code_of(error) == "context_overflow"@ <==> error == DaemonError::ContextOverflow,
        code_of(error) == "invalid_inference_request"@ <==> error == DaemonError::InvalidInferenceRequest,
        code_of(error) == "unavailable"@ <==> error == DaemonError::InvalidConfiguration || error
            == DaemonError::StartupFailed,
{
    reveal_strlit("unauthenticated");
    reveal_strlit("invalid_request");
    reveal_strlit("unsupported_capability");
    reveal_strlit("permission_denied");
    reveal_strlit("conflict");
    reveal_strlit("not_found");
    reveal_strlit("transport_unavailable");
    reveal_strlit("secret_store_unavailable");
    reveal_strlit("rate_limited");
    reveal_strlit("auth_failed");
    reveal_strlit("quota_exceeded");
    reveal_strlit("context_overflow");
    reveal_strlit("invalid_inference_request");
    reveal_strlit("unavailable");
    assert("unauthenticated"@.len() == 15 && "invalid_request"@.len() == 15
        && "unsupported_capability"@.len() == 22 && "permission_denied"@.len() == 17
        && "conflict"@.len() == 8 && "not_found"@.len() == 9
        && "transport_unavailable"@.len() == 21 && "secret_store_unavailable"@.len() == 24
        && "rate_limited"@.len() == 12 && "auth_failed"@.len() == 11
        && "quota_exceeded"@.len() == 14 && "context_overflow"@.len() == 16
        && "invalid_inference_request"@.len() == 25 && "unavailable"@.len() == 11);
    assert("unauthenticated"@[0] != "invalid_request"@[0]);
    assert("auth_failed"@[0] != "unavailable"@[0]);
}

/// What a client learns of a failure of the application: denials are denials, what is missing is
/// missing, a lost race is a conflict, a refused input is an invalid request; of the provider's
/// failures each keeps its own name; and what concerns nobody but the daemon shows as unavailable.
pub proof fn law_failures_keep_their_meaning(error: ApplicationError)
    ensures
        daemon_error_of(error) == DaemonError::PermissionDenied <==> error is PolicyDenied || error is PermissionDenied,
        daemon_error_of(error) == DaemonError::InvalidRequest <==> error is Validation || error is InvalidInferenceRequest,
        daemon_error_of(error) == DaemonError::NotFound <==> error is NotFound,
        daemon_error_of(error) == DaemonError::Conflict <==> error is Conflict,
        daemon_error_of(error) == DaemonError::TransportUnavailable <==> error is InferenceUnavailable || error is InferenceTimeout,
        daemon_error_of(error) == DaemonError::RateLimited <==> error is RateLimited,
        daemon_error_of(error) == DaemonError::AuthenticationFailed <==> error is AuthenticationFailed,
        daemon_error_of(error) == DaemonError::QuotaExceeded <==> error is QuotaExceeded,
        daemon_error_of(error) == DaemonError::ContextOverflow <==> error is ContextOverflow,
        daemon_error_of(error) == DaemonError::SecretStoreUnavailable <==> error is SecretStoreUnavailable,
        daemon_error_of(error) == DaemonError::StartupFailed <==> error is Storage || error is NoSuitableModel
            || error is MalformedModelOutput || error is Internal,
{
}

/// The application is told the failure itself wherever it has a name for it; only what it has none
/// for is internal to it.
pub proof fn law_the_application_is_told_what_it_can_name(error: ApplicationError, daemon: DaemonError)
    requires
        stands_for(error, daemon),
    ensures
        error is PermissionDenied <==> daemon == DaemonError::PermissionDenied,
        error is Conflict <==> daemon == DaemonError::Conflict,
        error is NotFound <==> daemon == DaemonError::NotFound,
        error is Validation <==> daemon == DaemonError::InvalidRequest || daemon
            == DaemonError::InvalidInferenceRequest,
        error is RateLimited <==> daemon == DaemonError::RateLimited,
        error is AuthenticationFailed <==> daemon == DaemonError::AuthenticationFailed,
        error is QuotaExceeded <==> daemon == DaemonError::QuotaExceeded,
        error is ContextOverflow <==> daemon == DaemonError::ContextOverflow,
        error is SecretStoreUnavailable <==> daemon == DaemonError::SecretStoreUnavailable,
{
}

} // verus!
