//! The gateway's error taxonomy: what each failure is called, how it is
//! logged, and what the client is told.

use crate::logging::{record, LogLevel, LogRecord};
use crate::text::{joined, owned};
use vstd::prelude::*;

verus! {

/// A failure of the HTTP client that talks to a backend. Its content is
/// never inspected; it is carried so that callers can report it.
#[verifier::external_type_specification]
#[verifier::external_body]
pub struct ExClientError(reqwest::Error);

/// The label under which [`ErrorHandler::log_warning`] files a client
/// fault: the full name of the error type.
pub open spec fn error_type_label() -> Seq<char> {
    "rustway::errors::AppError"@
}

/// The fields of the first record of the three `log_*_with_context`
/// functions; `text_key` and `type_key` name the first and last field.
pub open spec fn context_fields(
    text_key: Seq<char>,
    text: Seq<char>,
    context: Seq<char>,
    type_key: Seq<char>,
    kind: Seq<char>,
) -> Seq<(Seq<char>, Seq<char>)> {
    seq![(text_key, text), ("context"@, context), (type_key, kind)]
}

/// The fields of the second record of [`log_error_with_context`].
pub open spec fn error_context_fields_stamped(
    error: Seq<char>,
    context: Seq<char>,
    error_type: Seq<char>,
    timestamp: Seq<char>,
) -> Seq<(Seq<char>, Seq<char>)> {
    seq![
        ("error_type"@, error_type),
        ("error_message"@, error),
        ("context"@, context),
        ("timestamp"@, timestamp),
    ]
}

/// The fields of the second record of [`log_warning_with_context`] and
/// [`log_info_with_context`]; `type_key` names the third field.
pub open spec fn message_context_fields_stamped(
    message: Seq<char>,
    context: Seq<char>,
    type_key: Seq<char>,
    kind: Seq<char>,
    timestamp: Seq<char>,
) -> Seq<(Seq<char>, Seq<char>)> {
    seq![("message"@, message), ("context"@, context), (type_key, kind), ("timestamp"@, timestamp)]
}

/// An error with its context, emitted twice: once as given and once with
/// the time at which it was recorded. `error` is the rendered failure.
pub fn log_error_with_context(error: &str, context: &str, error_type: &str, timestamp: &str) -> (r:
    (LogRecord, LogRecord))
    ensures
        r.0@ == record(
            LogLevel::Error,
            context_fields("error"@, error@, context@, "error_type"@, error_type@),
        ),
        r.1@ == record(
            LogLevel::Error,
            error_context_fields_stamped(error@, context@, error_type@, timestamp@),
        ),
{
    let plain = LogRecord::new(LogLevel::Error).with("error", error).with("context", context).with(
        "error_type",
        error_type,
    );
    let stamped = LogRecord::new(LogLevel::Error).with("error_type", error_type).with(
        "error_message",
        error,
    ).with("context", context).with("timestamp", timestamp);
    assert(plain@.fields =~= context_fields(
        "error"@,
        error@,
        context@,
        "error_type"@,
        error_type@,
    ));
    assert(stamped@.fields =~= error_context_fields_stamped(
        error@,
        context@,
        error_type@,
        timestamp@,
    ));
    (plain, stamped)
}

/// A warning with its context, emitted twice: once as given and once with
/// the time at which it was recorded.
pub fn log_warning_with_context(message: &str, context: &str, error_type: &str, timestamp: &str)
    -> (r: (LogRecord, LogRecord))
    ensures
        r.0@ == record(
            LogLevel::Warn,
            context_fields("message"@, message@, context@, "error_type"@, error_type@),
        ),
        r.1@ == record(
            LogLevel::Warn,
            message_context_fields_stamped(
                message@,
                context@,
                "error_type"@,
                error_type@,
                timestamp@,
            ),
        ),
{
    let plain = LogRecord::new(LogLevel::Warn).with("message", message).with(
        "context",
        context,
    ).with("error_type", error_type);
    let stamped = LogRecord::new(LogLevel::Warn).with("message", message).with(
        "context",
        context,
    ).with("error_type", error_type).with("timestamp", timestamp);
    assert(plain@.fields =~= context_fields(
        "message"@,
        message@,
        context@,
        "error_type"@,
        error_type@,
    ));
    assert(stamped@.fields =~= message_context_fields_stamped(
        message@,
        context@,
        "error_type"@,
        error_type@,
        timestamp@,
    ));
    (plain, stamped)
}

/// An informational event with its context, emitted twice: once as given
/// and once with the time at which it was recorded.
pub fn log_info_with_context(message: &str, context: &str, event_type: &str, timestamp: &str) -> (r:
    (LogRecord, LogRecord))
    ensures
        r.0@ == record(
            LogLevel::Info,
            context_fields("message"@, message@, context@, "event_type"@, event_type@),
        ),
        r.1@ == record(
            LogLevel::Info,
            message_context_fields_stamped(
                message@,
                context@,
                "event_type"@,
                event_type@,
                timestamp@,
            ),
        ),
{
    let plain = LogRecord::new(LogLevel::Info).with("message", message).with(
        "context",
        context,
    ).with("event_type", event_type);
    let stamped = LogRecord::new(LogLevel::Info).with("message", message).with(
        "context",
        context,
    ).with("event_type", event_type).with("timestamp", timestamp);
    assert(plain@.fields =~= context_fields(
        "message"@,
        message@,
        context@,
        "event_type"@,
        event_type@,
    ));
    assert(stamped@.fields =~= message_context_fields_stamped(
        message@,
        context@,
        "event_type"@,
        event_type@,
        timestamp@,
    ));
    (plain, stamped)
}

/// How an error presents itself to the log and to the user.
pub trait ErrorHandler {
    /// The two records that report the error in `context`.
    fn log_error(&self, context: &str, timestamp: &str) -> (r: (LogRecord, LogRecord));

    /// The two records that report the error in `context`, as a warning
    /// where the error is one that clients cause.
    fn log_warning(&self, context: &str, timestamp: &str) -> (r: (LogRecord, LogRecord));

    /// The text shown for the error.
    fn get_user_message(&self) -> (r: String);

    /// The level at which the error is reported.
    fn get_log_level(&self) -> (r: LogLevel);
}

/// How urgent a recovery suggestion is.
#[derive(Clone, Copy, PartialEq, Eq, Debug, Structural)]
pub enum ErrorSeverity {
    Critical,
    High,
    Medium,
    Low,
    Informational,
}

/// A suggestion for recovering from an error.
#[derive(Debug)]
pub struct ErrorRecovery {
    pub suggestion: String,
    pub severity: ErrorSeverity,
    pub action_required: bool,
}

impl ErrorRecovery {
    /// A suggestion that must be acted on at once.
    pub fn critical(suggestion: String) -> (r: ErrorRecovery)
        ensures
            r.suggestion == suggestion,
            r.severity == ErrorSeverity::Critical,
            r.action_required,
    {
        ErrorRecovery { suggestion, severity: ErrorSeverity::Critical, action_required: true }
    }

    /// A suggestion that must be acted on.
    pub fn high(suggestion: String) -> (r: ErrorRecovery)
        ensures
            r.suggestion == suggestion,
            r.severity == ErrorSeverity::High,
            r.action_required,
    {
        ErrorRecovery { suggestion, severity: ErrorSeverity::High, action_required: true }
    }

    /// A suggestion that may be acted on.
    pub fn medium(suggestion: String) -> (r: ErrorRecovery)
        ensures
            r.suggestion == suggestion,
            r.severity == ErrorSeverity::Medium,
            !r.action_required,
    {
        ErrorRecovery { suggestion, severity: ErrorSeverity::Medium, action_required: false }
    }
}

/// Everything that can end a request without a backend response.
#[derive(Debug)]
pub enum AppError {
    RateLimited,
    ServiceUnavailable,
    AuthFailed(String),
    MissingAuthToken,
    InvalidAuthHeader,
    InsufficientPermissions,
    TokenExpired,
    RouteNotFound,
    ProxyError(reqwest::Error),
    InvalidDestination(String),
    InternalServerError,
    HotReloadError(String),
}

/// What the client receives for an error, and the records that report it.
#[derive(Debug)]
pub struct ErrorResponse {
    pub status: u16,
    pub message: String,
    pub records: (LogRecord, LogRecord),
}

impl AppError {
    /// The level at which the error is logged: a warning for what clients
    /// cause, a failed authentication included, an error for the rest.
    pub open spec fn level(&self) -> LogLevel {
        if self.is_client_fault() || self is AuthFailed {
            LogLevel::Warn
        } else {
            LogLevel::Error
        }
    }

    /// Whether the error is a client fault that carries no detail, and is
    /// reported by a sentence alone.
    pub open spec fn is_client_fault(&self) -> bool {
        match self {
            AppError::RateLimited
            | AppError::MissingAuthToken
            | AppError::InvalidAuthHeader
            | AppError::InsufficientPermissions
            | AppError::TokenExpired
            | AppError::RouteNotFound => true,
            _ => false,
        }
    }

    /// The name of the variant, used as the error type in logs.
    pub open spec fn kind_text(&self) -> Seq<char> {
        match self {
            AppError::RateLimited => "RateLimited"@,
            AppError::ServiceUnavailable => "ServiceUnavailable"@,
            AppError::AuthFailed(_) => "AuthFailed"@,
            AppError::MissingAuthToken => "MissingAuthToken"@,
            AppError::InvalidAuthHeader => "InvalidAuthHeader"@,
            AppError::InsufficientPermissions => "InsufficientPermissions"@,
            AppError::TokenExpired => "TokenExpired"@,
            AppError::RouteNotFound => "RouteNotFound"@,
            AppError::ProxyError(_) => "ProxyError"@,
            AppError::InvalidDestination(_) => "InvalidDestination"@,
            AppError::InternalServerError => "InternalServerError"@,
            AppError::HotReloadError(_) => "HotReloadError"@,
        }
    }

    /// The error written out as a sentence.
    pub open spec fn message_text(&self) -> Seq<char> {
        match self {
            AppError::RateLimited => "Rate limited"@,
            AppError::ServiceUnavailable => "Service unavailable"@,
            AppError::AuthFailed(reason) => "Authentication failed: "@ + reason@,
            AppError::MissingAuthToken => "Missing authorization token"@,
            AppError::InvalidAuthHeader => "Invalid authorization header"@,
            AppError::InsufficientPermissions => "Insufficient permissions"@,
            AppError::TokenExpired => "Token expired"@,
            AppError::RouteNotFound => "Route not found"@,
            AppError::ProxyError(_) => "Proxy error"@,
            AppError::InvalidDestination(url) => "Invalid destination: "@ + url@,
            AppError::InternalServerError => "Internal server error"@,
            AppError::HotReloadError(msg) => "Hot reload error: "@ + msg@,
        }
    }

    /// The HTTP status that answers the error.
    pub open spec fn status(&self) -> u16 {
        match self {
            AppError::RateLimited => 429,
            AppError::ServiceUnavailable => 503,
            AppError::AuthFailed(_) => 401,
            AppError::MissingAuthToken => 401,
            AppError::InvalidAuthHeader => 401,
            AppError::InsufficientPermissions => 403,
            AppError::TokenExpired => 401,
            AppError::RouteNotFound => 404,
            AppError::ProxyError(_) => 502,
            AppError::InvalidDestination(_) => 500,
            AppError::InternalServerError => 500,
            AppError::HotReloadError(_) => 500,
        }
    }

    /// The body that answers the error. It names no internal detail but
    /// the reason of a failed authentication.
    pub open spec fn response_text(&self) -> Seq<char> {
        match self {
            AppError::RateLimited => "Too many requests"@,
            AppError::ServiceUnavailable => "Service Unavailable"@,
            AppError::AuthFailed(reason) => "Authentication failed: "@ + reason@,
            AppError::MissingAuthToken => "Missing 'Authorization' header"@,
            AppError::InvalidAuthHeader =>
                "Invalid 'Authorization' header format. Expected 'Bearer <token>'."@,
            AppError::InsufficientPermissions =>
                "You do not have permission to access this resource."@,
            AppError::TokenExpired => "Token has expired"@,
            AppError::RouteNotFound => "Route not found"@,
            AppError::ProxyError(_) => "Error proxying request"@,
            AppError::InvalidDestination(_) => "Invalid gateway configuration"@,
            AppError::InternalServerError => "An internal server error occurred"@,
            AppError::HotReloadError(_) => "Configuration reload failed"@,
        }
    }

    /// The detail that the error carries into its log records, as a field
    /// list: the reason, the URL or the message, under that name.
    pub open spec fn detail_fields(&self) -> Seq<(Seq<char>, Seq<char>)> {
        match self {
            AppError::AuthFailed(reason) => seq![("reason"@, reason@)],
            AppError::InvalidDestination(url) => seq![("url"@, url@)],
            AppError::HotReloadError(msg) => seq![("message"@, msg@)],
            _ => Seq::empty(),
        }
    }

    /// The sentence that reports a client fault in [`ErrorHandler::log_error`].
    pub open spec fn fault_text(&self) -> Seq<char> {
        match self {
            AppError::RateLimited => "Request rate limited"@,
            _ => self.message_text(),
        }
    }

    /// The two records of [`ErrorHandler::log_error`].
    pub open spec fn error_records(&self, context: Seq<char>, timestamp: Seq<char>) -> (
        crate::logging::LogRecordView,
        crate::logging::LogRecordView,
    ) {
        if self.is_client_fault() {
            (
                record(
                    LogLevel::Warn,
                    context_fields(
                        "message"@,
                        self.fault_text(),
                        context,
                        "error_type"@,
                        self.kind_text(),
                    ),
                ),
                record(
                    LogLevel::Warn,
                    message_context_fields_stamped(
                        self.fault_text(),
                        context,
                        "error_type"@,
                        self.kind_text(),
                        timestamp,
                    ),
                ),
            )
        } else {
            (
                record(
                    self.level(),
                    seq![("error"@, self.message_text()), ("context"@, context)]
                        + self.detail_fields() + seq![("error_type"@, self.kind_text())],
                ),
                record(
                    self.level(),
                    seq![
                        ("error_type"@, self.kind_text()),
                        ("error_message"@, self.message_text()),
                        ("context"@, context),
                    ] + self.detail_fields() + seq![("timestamp"@, timestamp)],
                ),
            )
        }
    }

    /// The two records of [`ErrorHandler::log_warning`].
    pub open spec fn warning_records(&self, context: Seq<char>, timestamp: Seq<char>) -> (
        crate::logging::LogRecordView,
        crate::logging::LogRecordView,
    ) {
        if self.is_client_fault() {
            (
                record(
                    LogLevel::Warn,
                    context_fields(
                        "message"@,
                        self.message_text(),
                        context,
                        "error_type"@,
                        error_type_label(),
                    ),
                ),
                record(
                    LogLevel::Warn,
                    message_context_fields_stamped(
                        self.message_text(),
                        context,
                        "error_type"@,
                        error_type_label(),
                        timestamp,
                    ),
                ),
            )
        } else {
            self.error_records(context, timestamp)
        }
    }

    /// The error written out as a sentence.
    pub fn message(&self) -> (r: String)
        ensures
            r@ == self.message_text(),
    {
        match self {
            AppError::RateLimited => owned("Rate limited"),
            AppError::ServiceUnavailable => owned("Service unavailable"),
            AppError::AuthFailed(reason) => joined("Authentication failed: ", reason.as_str()),
            AppError::MissingAuthToken => owned("Missing authorization token"),
            AppError::InvalidAuthHeader => owned("Invalid authorization header"),
            AppError::InsufficientPermissions => owned("Insufficient permissions"),
            AppError::TokenExpired => owned("Token expired"),
            AppError::RouteNotFound => owned("Route not found"),
            AppError::ProxyError(_) => owned("Proxy error"),
            AppError::InvalidDestination(url) => joined("Invalid destination: ", url.as_str()),
            AppError::InternalServerError => owned("Internal server error"),
            AppError::HotReloadError(msg) => joined("Hot reload error: ", msg.as_str()),
        }
    }

    /// The name of the variant.
    pub fn kind(&self) -> (r: &'static str)
        ensures
            r@ == self.kind_text(),
    {
        match self {
            AppError::RateLimited => "RateLimited",
            AppError::ServiceUnavailable => "ServiceUnavailable",
            AppError::AuthFailed(_) => "AuthFailed",
            AppError::MissingAuthToken => "MissingAuthToken",
            AppError::InvalidAuthHeader => "InvalidAuthHeader",
            AppError::InsufficientPermissions => "InsufficientPermissions",
            AppError::TokenExpired => "TokenExpired",
            AppError::RouteNotFound => "RouteNotFound",
            AppError::ProxyError(_) => "ProxyError",
            AppError::InvalidDestination(_) => "InvalidDestination",
            AppError::InternalServerError => "InternalServerError",
            AppError::HotReloadError(_) => "HotReloadError",
        }
    }

    /// The HTTP status that answers the error.
    pub fn status_code(&self) -> (r: u16)
        ensures
            r == self.status(),
    {
        match self {
            AppError::RateLimited => 429,
            AppError::ServiceUnavailable => 503,
            AppError::AuthFailed(_) => 401,
            AppError::MissingAuthToken => 401,
            AppError::InvalidAuthHeader => 401,
            AppError::InsufficientPermissions => 403,
            AppError::TokenExpired => 401,
            AppError::RouteNotFound => 404,
            AppError::ProxyError(_) => 502,
            AppError::InvalidDestination(_) => 500,
            AppError::InternalServerError => 500,
            AppError::HotReloadError(_) => 500,
        }
    }

    /// The body that answers the error.
    pub fn response_message(&self) -> (r: String)
        ensures
            r@ == self.response_text(),
    {
        match self {
            AppError::RateLimited => owned("Too many requests"),
            AppError::ServiceUnavailable => owned("Service Unavailable"),
            AppError::AuthFailed(reason) => joined("Authentication failed: ", reason.as_str()),
            AppError::MissingAuthToken => owned("Missing 'Authorization' header"),
            AppError::InvalidAuthHeader => owned(
                "Invalid 'Authorization' header format. Expected 'Bearer <token>'.",
            ),
            AppError::InsufficientPermissions => owned(
                "You do not have permission to access this resource.",
            ),
            AppError::TokenExpired => owned("Token has expired"),
            AppError::RouteNotFound => owned("Route not found"),
            AppError::ProxyError(_) => owned("Error proxying request"),
            AppError::InvalidDestination(_) => owned("Invalid gateway configuration"),
            AppError::InternalServerError => owned("An internal server error occurred"),
            AppError::HotReloadError(_) => owned("Configuration reload failed"),
        }
    }

    /// Turns the error into what the client receives, with the records
    /// that report it at its level.
    pub fn into_response(self, timestamp: &str) -> (r: ErrorResponse)
        ensures
            r.status == self.status(),
            r.message@ == self.response_text(),
            (r.records.0@, r.records.1@) == self.warning_records(
                "HTTP response generation"@,
                timestamp@,
            ),
    {
        let status = self.status_code();
        let message = self.response_message();
        let records = self.log_warning("HTTP response generation", timestamp);
        ErrorResponse { status, message, records }
    }
}

impl ErrorHandler for AppError {
    fn log_error(&self, context: &str, timestamp: &str) -> (r: (LogRecord, LogRecord))
        ensures
            (r.0@, r.1@) == self.error_records(context@, timestamp@),
    {
        match self {
            AppError::RateLimited => log_warning_with_context(
                "Request rate limited",
                context,
                "RateLimited",
                timestamp,
            ),
            AppError::MissingAuthToken => log_warning_with_context(
                "Missing authorization token",
                context,
                "MissingAuthToken",
                timestamp,
            ),
            AppError::InvalidAuthHeader => log_warning_with_context(
                "Invalid authorization header",
                context,
                "InvalidAuthHeader",
                timestamp,
            ),
            AppError::InsufficientPermissions => log_warning_with_context(
                "Insufficient permissions",
                context,
                "InsufficientPermissions",
                timestamp,
            ),
            AppError::TokenExpired => log_warning_with_context(
                "Token expired",
                context,
                "TokenExpired",
                timestamp,
            ),
            AppError::RouteNotFound => log_warning_with_context(
                "Route not found",
                context,
                "RouteNotFound",
                timestamp,
            ),
            AppError::AuthFailed(reason) => self.detailed_records(
                context,
                "reason",
                reason.as_str(),
                timestamp,
            ),
            AppError::InvalidDestination(url) => self.detailed_records(
                context,
                "url",
                url.as_str(),
                timestamp,
            ),
            AppError::HotReloadError(msg) => self.detailed_records(
                context,
                "message",
                msg.as_str(),
                timestamp,
            ),
            AppError::ServiceUnavailable
            | AppError::ProxyError(_)
            | AppError::InternalServerError => {
                let text = self.message();
                let r = log_error_with_context(text.as_str(), context, self.kind(), timestamp);
                assert(r.0@.fields =~= self.error_records(context@, timestamp@).0.fields);
                assert(r.1@.fields =~= self.error_records(context@, timestamp@).1.fields);
                r
            },
        }
    }

    fn log_warning(&self, context: &str, timestamp: &str) -> (r: (LogRecord, LogRecord))
        ensures
            (r.0@, r.1@) == self.warning_records(context@, timestamp@),
    {
        match self {
            AppError::RateLimited
            | AppError::MissingAuthToken
            | AppError::InvalidAuthHeader
            | AppError::InsufficientPermissions
            | AppError::TokenExpired
            | AppError::RouteNotFound => {
                let text = self.message();
                log_warning_with_context(
                    text.as_str(),
                    context,
                    "rustway::errors::AppError",
                    timestamp,
                )
            },
            _ => self.log_error(context, timestamp),
        }
    }

    fn get_user_message(&self) -> (r: String)
        ensures
            r@ == self.message_text(),
    {
        self.message()
    }

    fn get_log_level(&self) -> (r: LogLevel)
        ensures
            r == self.level(),
    {
        match self {
            AppError::RateLimited
            | AppError::AuthFailed(_)
            | AppError::MissingAuthToken
            | AppError::InvalidAuthHeader
            | AppError::InsufficientPermissions
            | AppError::TokenExpired
            | AppError::RouteNotFound => LogLevel::Warn,
            _ => LogLevel::Error,
        }
    }
}

impl AppError {
    /// The records of an error that carries one detail, `key = detail`.
    fn detailed_records(&self, context: &str, key: &str, detail: &str, timestamp: &str) -> (r: (
        LogRecord,
        LogRecord,
    ))
        requires
            !self.is_client_fault(),
            self.detail_fields() == seq![(key@, detail@)],
        ensures
            (r.0@, r.1@) == self.error_records(context@, timestamp@),
    {
        let text = self.message();
        let level = self.get_log_level();
        let plain = LogRecord::new(level).with("error", text.as_str()).with(
            "context",
            context,
        ).with(key, detail).with("error_type", self.kind());
        let stamped = LogRecord::new(level).with("error_type", self.kind()).with(
            "error_message",
            text.as_str(),
        ).with("context", context).with(key, detail).with("timestamp", timestamp);
        assert(plain@.fields =~= self.error_records(context@, timestamp@).0.fields);
        assert(stamped@.fields =~= self.error_records(context@, timestamp@).1.fields);
        (plain, stamped)
    }
}

impl From<reqwest::Error> for AppError {
    fn from(error: reqwest::Error) -> (r: AppError) {
        AppError::ProxyError(error)
    }
}

impl vstd::std_specs::convert::FromSpecImpl<reqwest::Error> for AppError {
    open spec fn obeys_from_spec() -> bool {
        true
    }

    open spec fn from_spec(error: reqwest::Error) -> AppError {
        AppError::ProxyError(error)
    }
}

} // verus!
