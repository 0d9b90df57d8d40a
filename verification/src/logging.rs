//! Structured log records.
//!
//! The gateway describes what it wants logged as plain [`LogRecord`] values:
//! a level and an ordered list of named fields, every value already rendered
//! as text. Handing a record to a subscriber is left to the caller, so each
//! function here is a pure description of one event.

use crate::text::{decimal_digits, decimal_string, opt_view, owned};
use vstd::prelude::*;

verus! {

/// Severity of a record, most severe first.
#[derive(Clone, Copy, PartialEq, Eq, Debug, Structural)]
pub enum LogLevel {
    Error,
    Warn,
    Info,
    Debug,
    Trace,
}

/// One named value of a record.
#[derive(Clone, PartialEq, Eq, Debug)]
pub struct LogField {
    pub name: String,
    pub value: String,
}

impl View for LogField {
    type V = (Seq<char>, Seq<char>);

    open spec fn view(&self) -> (Seq<char>, Seq<char>) {
        (self.name@, self.value@)
    }
}

/// One event: a level and its fields, in the order they were added.
#[derive(Clone, PartialEq, Eq, Debug)]
pub struct LogRecord {
    pub level: LogLevel,
    pub fields: Vec<LogField>,
}

/// The mathematical content of a [`LogRecord`].
pub ghost struct LogRecordView {
    pub level: LogLevel,
    pub fields: Seq<(Seq<char>, Seq<char>)>,
}

impl View for LogRecord {
    type V = LogRecordView;

    open spec fn view(&self) -> LogRecordView {
        LogRecordView {
            level: self.level,
            fields: Seq::new(self.fields@.len(), |i: int| self.fields@[i]@),
        }
    }
}

/// A record of `level` with the given fields.
pub open spec fn record(level: LogLevel, fields: Seq<(Seq<char>, Seq<char>)>) -> LogRecordView {
    LogRecordView { level, fields }
}

/// How a flag is written in a field.
pub open spec fn flag_text(b: bool) -> Seq<char> {
    if b {
        "true"@
    } else {
        "false"@
    }
}

/// The field list that an optional value contributes: one field when the
/// value is present, none when it is absent.
pub open spec fn optional_field(name: Seq<char>, value: Option<Seq<char>>) -> Seq<
    (Seq<char>, Seq<char>),
> {
    match value {
        Some(v) => seq![(name, v)],
        None => Seq::empty(),
    }
}

/// The text of an optional number.
pub open spec fn opt_decimal(value: Option<u64>) -> Option<Seq<char>> {
    match value {
        Some(n) => Some(decimal_digits(n as nat)),
        None => None,
    }
}

impl LogRecord {
    /// A record of `level` without fields.
    pub fn new(level: LogLevel) -> (r: LogRecord)
        ensures
            r@ == record(level, Seq::empty()),
    {
        let r = LogRecord { level, fields: Vec::new() };
        assert(r@.fields =~= Seq::empty());
        r
    }

    /// Adds the field `name = value`.
    pub fn with(self, name: &str, value: &str) -> (r: LogRecord)
        ensures
            r@ == record(self@.level, self@.fields.push((name@, value@))),
    {
        let mut fields = self.fields;
        fields.push(LogField { name: owned(name), value: owned(value) });
        let r = LogRecord { level: self.level, fields };
        assert(r@.fields =~= self@.fields.push((name@, value@)));
        r
    }

    /// Adds the field `name = value` when `value` is present.
    pub fn with_optional(self, name: &str, value: Option<&str>) -> (r: LogRecord)
        ensures
            r@ == record(self@.level, self@.fields + optional_field(name@, opt_view(value))),
    {
        match value {
            Some(v) => {
                let r = self.with(name, v);
                assert(r@.fields =~= self@.fields + optional_field(name@, opt_view(value)));
                r
            },
            None => {
                assert(self@.fields =~= self@.fields + optional_field(name@, opt_view(value)));
                self
            },
        }
    }

    /// Adds the field `name = value`, the number written in decimal.
    pub fn with_number(self, name: &str, value: u64) -> (r: LogRecord)
        ensures
            r@ == record(self@.level, self@.fields.push((name@, decimal_digits(value as nat)))),
    {
        let text = decimal_string(value);
        self.with(name, text.as_str())
    }

    /// Adds the field `name = value`, written in decimal, when `value` is
    /// present.
    pub fn with_optional_number(self, name: &str, value: Option<u64>) -> (r: LogRecord)
        ensures
            r@ == record(self@.level, self@.fields + optional_field(name@, opt_decimal(value))),
    {
        match value {
            Some(n) => {
                let r = self.with_number(name, n);
                assert(r@.fields =~= self@.fields + optional_field(name@, opt_decimal(value)));
                r
            },
            None => {
                assert(self@.fields =~= self@.fields + optional_field(name@, opt_decimal(value)));
                self
            },
        }
    }

    /// Adds the field `name = value`, the flag written `true` or `false`.
    pub fn with_flag(self, name: &str, value: bool) -> (r: LogRecord)
        ensures
            r@ == record(self@.level, self@.fields.push((name@, flag_text(value)))),
    {
        if value {
            self.with(name, "true")
        } else {
            self.with(name, "false")
        }
    }
}

/// The fields of the first record of [`log_info`], in order.
pub open spec fn info_fields(
    message: Seq<char>,
    context: Seq<char>,
    event_type: Seq<char>,
) -> Seq<(Seq<char>, Seq<char>)> {
    seq![("message"@, message), ("context"@, context), ("event_type"@, event_type)]
}

/// The fields of the second record of [`log_info`], in order.
pub open spec fn info_fields_stamped(
    message: Seq<char>,
    context: Seq<char>,
    event_type: Seq<char>,
    timestamp: Seq<char>,
) -> Seq<(Seq<char>, Seq<char>)> {
    seq![
        ("event_type"@, event_type),
        ("message"@, message),
        ("context"@, context),
        ("timestamp"@, timestamp),
    ]
}

/// An informational event, emitted twice: once as given and once with the
/// time at which it was recorded.
pub fn log_info(
    message: &str,
    context: &str,
    event_type: &str,
    timestamp: &str,
) -> (r: (LogRecord, LogRecord))
    ensures
        r.0@ == record(LogLevel::Info, info_fields(message@, context@, event_type@)),
        r.1@ == record(
            LogLevel::Info,
            info_fields_stamped(message@, context@, event_type@, timestamp@),
        ),
{
    let plain = LogRecord::new(LogLevel::Info)
        .with("message", message)
        .with("context", context)
        .with("event_type", event_type);
    let stamped = LogRecord::new(LogLevel::Info)
        .with("event_type", event_type)
        .with("message", message)
        .with("context", context)
        .with("timestamp", timestamp);
    assert(plain@.fields =~= info_fields(message@, context@, event_type@));
    assert(stamped@.fields =~= info_fields_stamped(message@, context@, event_type@, timestamp@));
    (plain, stamped)
}

/// The fields of the first record of [`log_warn`], in order.
pub open spec fn warn_fields(
    message: Seq<char>,
    context: Seq<char>,
    warning_type: Seq<char>,
) -> Seq<(Seq<char>, Seq<char>)> {
    seq![("message"@, message), ("context"@, context), ("warning_type"@, warning_type)]
}

/// The fields of the second record of [`log_warn`], in order.
pub open spec fn warn_fields_stamped(
    message: Seq<char>,
    context: Seq<char>,
    warning_type: Seq<char>,
    timestamp: Seq<char>,
) -> Seq<(Seq<char>, Seq<char>)> {
    seq![
        ("warning_type"@, warning_type),
        ("message"@, message),
        ("context"@, context),
        ("timestamp"@, timestamp),
    ]
}

/// A warning, emitted twice: once as given and once with the time at which
/// it was recorded.
pub fn log_warn(
    message: &str,
    context: &str,
    warning_type: &str,
    timestamp: &str,
) -> (r: (LogRecord, LogRecord))
    ensures
        r.0@ == record(LogLevel::Warn, warn_fields(message@, context@, warning_type@)),
        r.1@ == record(
            LogLevel::Warn,
            warn_fields_stamped(message@, context@, warning_type@, timestamp@),
        ),
{
    let plain = LogRecord::new(LogLevel::Warn)
        .with("message", message)
        .with("context", context)
        .with("warning_type", warning_type);
    let stamped = LogRecord::new(LogLevel::Warn)
        .with("warning_type", warning_type)
        .with("message", message)
        .with("context", context)
        .with("timestamp", timestamp);
    assert(plain@.fields =~= warn_fields(message@, context@, warning_type@));
    assert(stamped@.fields =~= warn_fields_stamped(message@, context@, warning_type@, timestamp@));
    (plain, stamped)
}

/// The fields of the first record of [`log_error`], in order.
pub open spec fn error_fields(
    error: Seq<char>,
    context: Seq<char>,
    error_type: Seq<char>,
) -> Seq<(Seq<char>, Seq<char>)> {
    seq![("error"@, error), ("context"@, context), ("error_type"@, error_type)]
}

/// The fields of the second record of [`log_error`], in order.
pub open spec fn error_fields_stamped(
    error: Seq<char>,
    context: Seq<char>,
    error_type: Seq<char>,
    timestamp: Seq<char>,
) -> Seq<(Seq<char>, Seq<char>)> {
    seq![
        ("error_type"@, error_type),
        ("error_message"@, error),
        ("context"@, context),
        ("timestamp"@, timestamp),
    ]
}

/// An error, emitted twice: once as given and once with the time at which
/// it was recorded. `error` is the rendered text of the failure.
pub fn log_error(
    error: &str,
    context: &str,
    error_type: &str,
    timestamp: &str,
) -> (r: (LogRecord, LogRecord))
    ensures
        r.0@ == record(LogLevel::Error, error_fields(error@, context@, error_type@)),
        r.1@ == record(
            LogLevel::Error,
            error_fields_stamped(error@, context@, error_type@, timestamp@),
        ),
{
    let plain = LogRecord::new(LogLevel::Error)
        .with("error", error)
        .with("context", context)
        .with("error_type", error_type);
    let stamped = LogRecord::new(LogLevel::Error)
        .with("error_type", error_type)
        .with("error_message", error)
        .with("context", context)
        .with("timestamp", timestamp);
    assert(plain@.fields =~= error_fields(error@, context@, error_type@));
    assert(stamped@.fields =~= error_fields_stamped(error@, context@, error_type@, timestamp@));
    (plain, stamped)
}

/// The fields of [`log_debug`], in order.
pub open spec fn debug_fields(
    message: Seq<char>,
    context: Seq<char>,
    debug_type: Seq<char>,
) -> Seq<(Seq<char>, Seq<char>)> {
    seq![("message"@, message), ("context"@, context), ("debug_type"@, debug_type)]
}

/// A debugging note.
pub fn log_debug(message: &str, context: &str, debug_type: &str) -> (r: LogRecord)
    ensures
        r@ == record(LogLevel::Debug, debug_fields(message@, context@, debug_type@)),
{
    let r = LogRecord::new(LogLevel::Debug)
        .with("message", message)
        .with("context", context)
        .with("debug_type", debug_type);
    assert(r@.fields =~= debug_fields(message@, context@, debug_type@));
    r
}

/// The fields of [`log_request`], in order.
pub open spec fn request_fields(
    method: Seq<char>,
    uri: Seq<char>,
    client_ip: Seq<char>,
    status_code: u16,
    response_time_ms: u64,
) -> Seq<(Seq<char>, Seq<char>)> {
    seq![
        ("method"@, method),
        ("uri"@, uri),
        ("client_ip"@, client_ip),
        ("status_code"@, decimal_digits(status_code as nat)),
        ("response_time_ms"@, decimal_digits(response_time_ms as nat)),
        ("event_type"@, "request_completed"@),
    ]
}

/// A completed request.
pub fn log_request(
    method: &str,
    uri: &str,
    client_ip: &str,
    status_code: u16,
    response_time_ms: u64,
) -> (r: LogRecord)
    ensures
        r@ == record(
            LogLevel::Info,
            request_fields(method@, uri@, client_ip@, status_code, response_time_ms),
        ),
{
    let r = LogRecord::new(LogLevel::Info)
        .with("method", method)
        .with("uri", uri)
        .with("client_ip", client_ip)
        .with_number("status_code", status_code as u64)
        .with_number("response_time_ms", response_time_ms)
        .with("event_type", "request_completed");
    assert(r@.fields =~= request_fields(method@, uri@, client_ip@, status_code, response_time_ms));
    r
}

/// The fields of [`log_auth_event`], in order.
pub open spec fn auth_event_fields(
    event: Seq<char>,
    user_id: Seq<char>,
    success: bool,
    reason: Option<Seq<char>>,
) -> Seq<(Seq<char>, Seq<char>)> {
    seq![("event"@, event), ("user_id"@, user_id), ("success"@, flag_text(success))]
    + optional_field("reason"@, reason)
    + seq![("event_type"@, "auth_event"@)]
}

/// An authentication attempt and how it ended. The reason is recorded only
/// when one is given.
pub fn log_auth_event(
    event: &str,
    user_id: &str,
    success: bool,
    reason: Option<&str>,
) -> (r: LogRecord)
    ensures
        r@ == record(
            LogLevel::Info,
            auth_event_fields(event@, user_id@, success, opt_view(reason)),
        ),
{
    let r = LogRecord::new(LogLevel::Info)
        .with("event", event)
        .with("user_id", user_id)
        .with_flag("success", success)
        .with_optional("reason", reason)
        .with("event_type", "auth_event");
    assert(r@.fields =~= auth_event_fields(event@, user_id@, success, opt_view(reason)));
    r
}

/// The fields of [`log_security_event`], in order.
pub open spec fn security_event_fields(
    event: Seq<char>,
    source_ip: Seq<char>,
    details: Seq<char>,
    severity: Seq<char>,
) -> Seq<(Seq<char>, Seq<char>)> {
    seq![
        ("security_event"@, event),
        ("source_ip"@, source_ip),
        ("details"@, details),
        ("severity"@, severity),
        ("event_type"@, "security_event"@),
    ]
}

/// A security-relevant observation.
pub fn log_security_event(
    event: &str,
    source_ip: &str,
    details: &str,
    severity: &str,
) -> (r: LogRecord)
    ensures
        r@ == record(
            LogLevel::Warn,
            security_event_fields(event@, source_ip@, details@, severity@),
        ),
{
    let r = LogRecord::new(LogLevel::Warn)
        .with("security_event", event)
        .with("source_ip", source_ip)
        .with("details", details)
        .with("severity", severity)
        .with("event_type", "security_event");
    assert(r@.fields =~= security_event_fields(event@, source_ip@, details@, severity@));
    r
}

/// The fields of [`log_config_change`], in order.
pub open spec fn config_change_fields(
    config_item: Seq<char>,
    old_value: Option<Seq<char>>,
    new_value: Seq<char>,
) -> Seq<(Seq<char>, Seq<char>)> {
    seq![("config_item"@, config_item)]
    + optional_field("old_value"@, old_value)
    + seq![("new_value"@, new_value), ("event_type"@, "config_change"@)]
}

/// A configuration item that changed. The old value is recorded only when
/// there was one.
pub fn log_config_change(
    config_item: &str,
    old_value: Option<&str>,
    new_value: &str,
) -> (r: LogRecord)
    ensures
        r@ == record(
            LogLevel::Info,
            config_change_fields(config_item@, opt_view(old_value), new_value@),
        ),
{
    let r = LogRecord::new(LogLevel::Info)
        .with("config_item", config_item)
        .with_optional("old_value", old_value)
        .with("new_value", new_value)
        .with("event_type", "config_change");
    assert(r@.fields =~= config_change_fields(config_item@, opt_view(old_value), new_value@));
    r
}

/// The fields of [`log_cache_operation`], in order.
pub open spec fn cache_operation_fields(
    operation: Seq<char>,
    key: Seq<char>,
    hit: bool,
    ttl_seconds: Option<u64>,
) -> Seq<(Seq<char>, Seq<char>)> {
    seq![("cache_operation"@, operation), ("cache_key"@, key), ("cache_hit"@, flag_text(hit))]
    + optional_field("ttl_seconds"@, opt_decimal(ttl_seconds))
    + seq![("event_type"@, "cache_operation"@)]
}

/// A cache lookup or store. The time to live is recorded only when one is
/// given.
pub fn log_cache_operation(
    operation: &str,
    key: &str,
    hit: bool,
    ttl_seconds: Option<u64>,
) -> (r: LogRecord)
    ensures
        r@ == record(LogLevel::Debug, cache_operation_fields(operation@, key@, hit, ttl_seconds)),
{
    let r = LogRecord::new(LogLevel::Debug)
        .with("cache_operation", operation)
        .with("cache_key", key)
        .with_flag("cache_hit", hit)
        .with_optional_number("ttl_seconds", ttl_seconds)
        .with("event_type", "cache_operation");
    assert(r@.fields =~= cache_operation_fields(operation@, key@, hit, ttl_seconds));
    r
}

/// The fields of [`log_circuit_breaker_event`], in order.
pub open spec fn circuit_breaker_event_fields(
    route: Seq<char>,
    old_state: Seq<char>,
    new_state: Seq<char>,
    reason: Seq<char>,
) -> Seq<(Seq<char>, Seq<char>)> {
    seq![
        ("route"@, route),
        ("old_state"@, old_state),
        ("new_state"@, new_state),
        ("reason"@, reason),
        ("event_type"@, "circuit_breaker_state_change"@),
    ]
}

/// A circuit breaker that changed state.
pub fn log_circuit_breaker_event(
    route: &str,
    old_state: &str,
    new_state: &str,
    reason: &str,
) -> (r: LogRecord)
    ensures
        r@ == record(
            LogLevel::Info,
            circuit_breaker_event_fields(route@, old_state@, new_state@, reason@),
        ),
{
    let r = LogRecord::new(LogLevel::Info)
        .with("route", route)
        .with("old_state", old_state)
        .with("new_state", new_state)
        .with("reason", reason)
        .with("event_type", "circuit_breaker_state_change");
    assert(r@.fields =~= circuit_breaker_event_fields(route@, old_state@, new_state@, reason@));
    r
}

/// The fields of [`log_rate_limit_event`], in order.
pub open spec fn rate_limit_event_fields(
    client_ip: Seq<char>,
    path: Seq<char>,
    limit_exceeded: bool,
    current_count: u64,
) -> Seq<(Seq<char>, Seq<char>)> {
    if limit_exceeded {
        seq![
            ("client_ip"@, client_ip),
            ("path"@, path),
            ("limit_exceeded"@, flag_text(limit_exceeded)),
            ("current_count"@, decimal_digits(current_count as nat)),
            ("event_type"@, "rate_limit_exceeded"@),
        ]
    } else {
        seq![
            ("client_ip"@, client_ip),
            ("path"@, path),
            ("current_count"@, decimal_digits(current_count as nat)),
            ("event_type"@, "rate_limit_check"@),
        ]
    }
}

/// A rate-limit decision: a warning when the limit was exceeded, a
/// debugging note otherwise.
pub fn log_rate_limit_event(
    client_ip: &str,
    path: &str,
    limit_exceeded: bool,
    current_count: u64,
) -> (r: LogRecord)
    ensures
        r@ == record(
            if limit_exceeded {
                LogLevel::Warn
            } else {
                LogLevel::Debug
            },
            rate_limit_event_fields(client_ip@, path@, limit_exceeded, current_count),
        ),
{
    let r = if limit_exceeded {
        LogRecord::new(LogLevel::Warn)
            .with("client_ip", client_ip)
            .with("path", path)
            .with_flag("limit_exceeded", limit_exceeded)
            .with_number("current_count", current_count)
            .with("event_type", "rate_limit_exceeded")
    } else {
        LogRecord::new(LogLevel::Debug)
            .with("client_ip", client_ip)
            .with("path", path)
            .with_number("current_count", current_count)
            .with("event_type", "rate_limit_check")
    };
    assert(r@.fields =~= rate_limit_event_fields(client_ip@, path@, limit_exceeded, current_count));
    r
}

/// The fields of [`log_hot_reload_event`], in order.
pub open spec fn hot_reload_event_fields(
    event: Seq<char>,
    file_path: Seq<char>,
    success: bool,
    error_message: Option<Seq<char>>,
) -> Seq<(Seq<char>, Seq<char>)> {
    if success {
        seq![
            ("reload_event"@, event),
            ("file_path"@, file_path),
            ("success"@, flag_text(success)),
            ("event_type"@, "hot_reload_success"@),
        ]
    } else {
        seq![("reload_event"@, event), ("file_path"@, file_path), ("success"@, flag_text(success))]
        + optional_field("error_message"@, error_message)
        + seq![("event_type"@, "hot_reload_failure"@)]
    }
}

/// A configuration reload: informational when it succeeded, an error with
/// the message, if any, when it failed.
pub fn log_hot_reload_event(
    event: &str,
    file_path: &str,
    success: bool,
    error_message: Option<&str>,
) -> (r: LogRecord)
    ensures
        r@ == record(
            if success {
                LogLevel::Info
            } else {
                LogLevel::Error
            },
            hot_reload_event_fields(event@, file_path@, success, opt_view(error_message)),
        ),
{
    let r = if success {
        LogRecord::new(LogLevel::Info)
            .with("reload_event", event)
            .with("file_path", file_path)
            .with_flag("success", success)
            .with("event_type", "hot_reload_success")
    } else {
        LogRecord::new(LogLevel::Error)
            .with("reload_event", event)
            .with("file_path", file_path)
            .with_flag("success", success)
            .with_optional("error_message", error_message)
            .with("event_type", "hot_reload_failure")
    };
    assert(r@.fields =~= hot_reload_event_fields(
        event@,
        file_path@,
        success,
        opt_view(error_message),
    ));
    r
}

/// The fields of [`log_startup`], in order.
pub open spec fn startup_fields(
    component: Seq<char>,
    status: Seq<char>,
    details: Option<Seq<char>>,
) -> Seq<(Seq<char>, Seq<char>)> {
    seq![("component"@, component), ("status"@, status)]
    + optional_field("details"@, details)
    + seq![("event_type"@, "application_startup"@)]
}

/// A component that came up. The details are recorded only when given.
pub fn log_startup(component: &str, status: &str, details: Option<&str>) -> (r: LogRecord)
    ensures
        r@ == record(LogLevel::Info, startup_fields(component@, status@, opt_view(details))),
{
    let r = LogRecord::new(LogLevel::Info)
        .with("component", component)
        .with("status", status)
        .with_optional("details", details)
        .with("event_type", "application_startup");
    assert(r@.fields =~= startup_fields(component@, status@, opt_view(details)));
    r
}

/// The fields of [`log_shutdown`], in order.
pub open spec fn shutdown_fields(
    component: Seq<char>,
    status: Seq<char>,
    duration_ms: Option<u64>,
) -> Seq<(Seq<char>, Seq<char>)> {
    seq![("component"@, component), ("status"@, status)]
    + optional_field("duration_ms"@, opt_decimal(duration_ms))
    + seq![("event_type"@, "application_shutdown"@)]
}

/// A component that went down. The duration is recorded only when given.
pub fn log_shutdown(component: &str, status: &str, duration_ms: Option<u64>) -> (r: LogRecord)
    ensures
        r@ == record(LogLevel::Info, shutdown_fields(component@, status@, duration_ms)),
{
    let r = LogRecord::new(LogLevel::Info)
        .with("component", component)
        .with("status", status)
        .with_optional_number("duration_ms", duration_ms)
        .with("event_type", "application_shutdown");
    assert(r@.fields =~= shutdown_fields(component@, status@, duration_ms));
    r
}

} // verus!
