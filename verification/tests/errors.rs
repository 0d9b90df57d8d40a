use rustway::errors::{
    log_error_with_context, log_info_with_context, log_warning_with_context, AppError,
    ErrorHandler, ErrorRecovery, ErrorSeverity,
};
use rustway::logging::{LogLevel, LogRecord};

fn fields_of(r: &LogRecord) -> Vec<(String, String)> {
    r.fields.iter().map(|f| (f.name.clone(), f.value.clone())).collect()
}

fn expected(items: &[(&str, &str)]) -> Vec<(String, String)> {
    items.iter().map(|(k, v)| (k.to_string(), v.to_string())).collect()
}

fn client_error() -> reqwest::Error {
    reqwest::Client::new().get("not a url").build().unwrap_err()
}

#[test]
fn recovery_constructors_set_severity_and_action() {
    let r = ErrorRecovery::critical("restart".to_string());
    assert_eq!(r.suggestion, "restart");
    assert_eq!(r.severity, ErrorSeverity::Critical);
    assert!(r.action_required);
    let r = ErrorRecovery::high("check".to_string());
    assert_eq!(r.suggestion, "check");
    assert_eq!(r.severity, ErrorSeverity::High);
    assert!(r.action_required);
    let r = ErrorRecovery::medium("later".to_string());
    assert_eq!(r.suggestion, "later");
    assert_eq!(r.severity, ErrorSeverity::Medium);
    assert!(!r.action_required);
}

#[test]
fn every_error_has_its_status() {
    assert_eq!(AppError::RateLimited.status_code(), 429);
    assert_eq!(AppError::ServiceUnavailable.status_code(), 503);
    assert_eq!(AppError::AuthFailed("x".to_string()).status_code(), 401);
    assert_eq!(AppError::MissingAuthToken.status_code(), 401);
    assert_eq!(AppError::InvalidAuthHeader.status_code(), 401);
    assert_eq!(AppError::InsufficientPermissions.status_code(), 403);
    assert_eq!(AppError::TokenExpired.status_code(), 401);
    assert_eq!(AppError::RouteNotFound.status_code(), 404);
    assert_eq!(AppError::ProxyError(client_error()).status_code(), 502);
    assert_eq!(AppError::InvalidDestination("u".to_string()).status_code(), 500);
    assert_eq!(AppError::InternalServerError.status_code(), 500);
    assert_eq!(AppError::HotReloadError("m".to_string()).status_code(), 500);
}

#[test]
fn every_error_has_its_message() {
    assert_eq!(AppError::RateLimited.message(), "Rate limited");
    assert_eq!(AppError::ServiceUnavailable.message(), "Service unavailable");
    assert_eq!(
        AppError::AuthFailed("bad signature".to_string()).message(),
        "Authentication failed: bad signature"
    );
    assert_eq!(AppError::MissingAuthToken.message(), "Missing authorization token");
    assert_eq!(AppError::InvalidAuthHeader.message(), "Invalid authorization header");
    assert_eq!(AppError::InsufficientPermissions.message(), "Insufficient permissions");
    assert_eq!(AppError::TokenExpired.message(), "Token expired");
    assert_eq!(AppError::RouteNotFound.message(), "Route not found");
    assert_eq!(AppError::ProxyError(client_error()).message(), "Proxy error");
    assert_eq!(
        AppError::InvalidDestination("ftp:x".to_string()).message(),
        "Invalid destination: ftp:x"
    );
    assert_eq!(AppError::InternalServerError.message(), "Internal server error");
    assert_eq!(
        AppError::HotReloadError("bad yaml".to_string()).message(),
        "Hot reload error: bad yaml"
    );
    assert_eq!(AppError::TokenExpired.get_user_message(), "Token expired");
}

#[test]
fn every_error_has_its_response_body() {
    assert_eq!(AppError::RateLimited.response_message(), "Too many requests");
    assert_eq!(AppError::ServiceUnavailable.response_message(), "Service Unavailable");
    assert_eq!(
        AppError::AuthFailed("why".to_string()).response_message(),
        "Authentication failed: why"
    );
    assert_eq!(AppError::MissingAuthToken.response_message(), "Missing 'Authorization' header");
    assert_eq!(
        AppError::InvalidAuthHeader.response_message(),
        "Invalid 'Authorization' header format. Expected 'Bearer <token>'."
    );
    assert_eq!(
        AppError::InsufficientPermissions.response_message(),
        "You do not have permission to access this resource."
    );
    assert_eq!(AppError::TokenExpired.response_message(), "Token has expired");
    assert_eq!(AppError::RouteNotFound.response_message(), "Route not found");
    assert_eq!(AppError::ProxyError(client_error()).response_message(), "Error proxying request");
    assert_eq!(
        AppError::InvalidDestination("u".to_string()).response_message(),
        "Invalid gateway configuration"
    );
    assert_eq!(
        AppError::InternalServerError.response_message(),
        "An internal server error occurred"
    );
    assert_eq!(
        AppError::HotReloadError("m".to_string()).response_message(),
        "Configuration reload failed"
    );
}

#[test]
fn client_faults_are_warnings() {
    assert_eq!(AppError::RateLimited.get_log_level(), LogLevel::Warn);
    assert_eq!(AppError::MissingAuthToken.get_log_level(), LogLevel::Warn);
    assert_eq!(AppError::InvalidAuthHeader.get_log_level(), LogLevel::Warn);
    assert_eq!(AppError::InsufficientPermissions.get_log_level(), LogLevel::Warn);
    assert_eq!(AppError::TokenExpired.get_log_level(), LogLevel::Warn);
    assert_eq!(AppError::RouteNotFound.get_log_level(), LogLevel::Warn);
    assert_eq!(AppError::AuthFailed("x".to_string()).get_log_level(), LogLevel::Warn);
    assert_eq!(AppError::ServiceUnavailable.get_log_level(), LogLevel::Error);
    assert_eq!(AppError::ProxyError(client_error()).get_log_level(), LogLevel::Error);
    assert_eq!(AppError::InvalidDestination("x".to_string()).get_log_level(), LogLevel::Error);
    assert_eq!(AppError::InternalServerError.get_log_level(), LogLevel::Error);
    assert_eq!(AppError::HotReloadError("x".to_string()).get_log_level(), LogLevel::Error);
}

#[test]
fn kind_names_the_variant() {
    assert_eq!(AppError::RateLimited.kind(), "RateLimited");
    assert_eq!(AppError::ProxyError(client_error()).kind(), "ProxyError");
    assert_eq!(AppError::HotReloadError("x".to_string()).kind(), "HotReloadError");
}

#[test]
fn from_client_error_is_a_proxy_error() {
    let e = AppError::from(client_error());
    assert!(matches!(e, AppError::ProxyError(_)));
    assert_eq!(e.status_code(), 502);
}

#[test]
fn context_loggers_emit_plain_and_stamped() {
    let (plain, stamped) = log_error_with_context("boom", "ctx", "Kind", "t0");
    assert_eq!(plain.level, LogLevel::Error);
    assert_eq!(
        fields_of(&plain),
        expected(&[("error", "boom"), ("context", "ctx"), ("error_type", "Kind")])
    );
    assert_eq!(
        fields_of(&stamped),
        expected(&[
            ("error_type", "Kind"),
            ("error_message", "boom"),
            ("context", "ctx"),
            ("timestamp", "t0"),
        ])
    );
    let (plain, stamped) = log_warning_with_context("careful", "ctx", "Kind", "t0");
    assert_eq!(plain.level, LogLevel::Warn);
    assert_eq!(stamped.level, LogLevel::Warn);
    assert_eq!(
        fields_of(&plain),
        expected(&[("message", "careful"), ("context", "ctx"), ("error_type", "Kind")])
    );
    assert_eq!(
        fields_of(&stamped),
        expected(&[
            ("message", "careful"),
            ("context", "ctx"),
            ("error_type", "Kind"),
            ("timestamp", "t0"),
        ])
    );
    let (plain, stamped) = log_info_with_context("fyi", "ctx", "Kind", "t0");
    assert_eq!(plain.level, LogLevel::Info);
    assert_eq!(stamped.level, LogLevel::Info);
    assert_eq!(
        fields_of(&plain),
        expected(&[("message", "fyi"), ("context", "ctx"), ("event_type", "Kind")])
    );
    assert_eq!(
        fields_of(&stamped),
        expected(&[
            ("message", "fyi"),
            ("context", "ctx"),
            ("event_type", "Kind"),
            ("timestamp", "t0"),
        ])
    );
}

#[test]
fn log_error_of_a_client_fault_is_a_warning_under_its_kind() {
    let (plain, stamped) = AppError::RateLimited.log_error("proxy", "t1");
    assert_eq!(plain.level, LogLevel::Warn);
    assert_eq!(
        fields_of(&plain),
        expected(&[
            ("message", "Request rate limited"),
            ("context", "proxy"),
            ("error_type", "RateLimited"),
        ])
    );
    assert_eq!(
        fields_of(&stamped),
        expected(&[
            ("message", "Request rate limited"),
            ("context", "proxy"),
            ("error_type", "RateLimited"),
            ("timestamp", "t1"),
        ])
    );
    let (plain, _) = AppError::RouteNotFound.log_error("proxy", "t1");
    assert_eq!(
        fields_of(&plain),
        expected(&[
            ("message", "Route not found"),
            ("context", "proxy"),
            ("error_type", "RouteNotFound"),
        ])
    );
}

#[test]
fn log_error_carries_the_detail_of_the_error() {
    let (plain, stamped) = AppError::AuthFailed("bad key".to_string()).log_error("auth", "t2");
    assert_eq!(plain.level, LogLevel::Warn);
    assert_eq!(stamped.level, LogLevel::Warn);
    assert_eq!(
        fields_of(&plain),
        expected(&[
            ("error", "Authentication failed: bad key"),
            ("context", "auth"),
            ("reason", "bad key"),
            ("error_type", "AuthFailed"),
        ])
    );
    assert_eq!(
        fields_of(&stamped),
        expected(&[
            ("error_type", "AuthFailed"),
            ("error_message", "Authentication failed: bad key"),
            ("context", "auth"),
            ("reason", "bad key"),
            ("timestamp", "t2"),
        ])
    );
    let (plain, _) = AppError::InvalidDestination("x://".to_string()).log_error("proxy", "t");
    assert_eq!(plain.level, LogLevel::Error);
    assert_eq!(
        fields_of(&plain),
        expected(&[
            ("error", "Invalid destination: x://"),
            ("context", "proxy"),
            ("url", "x://"),
            ("error_type", "InvalidDestination"),
        ])
    );
    let (plain, _) = AppError::HotReloadError("bad".to_string()).log_error("reload", "t");
    assert_eq!(
        fields_of(&plain),
        expected(&[
            ("error", "Hot reload error: bad"),
            ("context", "reload"),
            ("message", "bad"),
            ("error_type", "HotReloadError"),
        ])
    );
    let (plain, stamped) = AppError::ServiceUnavailable.log_error("breaker", "t");
    assert_eq!(plain.level, LogLevel::Error);
    assert_eq!(
        fields_of(&plain),
        expected(&[
            ("error", "Service unavailable"),
            ("context", "breaker"),
            ("error_type", "ServiceUnavailable"),
        ])
    );
    assert_eq!(
        fields_of(&stamped),
        expected(&[
            ("error_type", "ServiceUnavailable"),
            ("error_message", "Service unavailable"),
            ("context", "breaker"),
            ("timestamp", "t"),
        ])
    );
}

#[test]
fn log_warning_files_client_faults_under_the_type_name() {
    let (plain, stamped) = AppError::TokenExpired.log_warning("auth", "t3");
    assert_eq!(plain.level, LogLevel::Warn);
    assert_eq!(
        fields_of(&plain),
        expected(&[
            ("message", "Token expired"),
            ("context", "auth"),
            ("error_type", "rustway::errors::AppError"),
        ])
    );
    assert_eq!(
        fields_of(&stamped),
        expected(&[
            ("message", "Token expired"),
            ("context", "auth"),
            ("error_type", "rustway::errors::AppError"),
            ("timestamp", "t3"),
        ])
    );
    let (plain, _) = AppError::InternalServerError.log_warning("x", "t");
    assert_eq!(plain.level, LogLevel::Error);
    assert_eq!(
        fields_of(&plain),
        expected(&[
            ("error", "Internal server error"),
            ("context", "x"),
            ("error_type", "InternalServerError"),
        ])
    );
}

#[test]
fn into_response_gives_status_body_and_records() {
    let r = AppError::RateLimited.into_response("t4");
    assert_eq!(r.status, 429);
    assert_eq!(r.message, "Too many requests");
    assert_eq!(r.records.0.level, LogLevel::Warn);
    assert_eq!(
        fields_of(&r.records.0),
        expected(&[
            ("message", "Rate limited"),
            ("context", "HTTP response generation"),
            ("error_type", "rustway::errors::AppError"),
        ])
    );
    let r = AppError::ProxyError(client_error()).into_response("t4");
    assert_eq!(r.status, 502);
    assert_eq!(r.message, "Error proxying request");
    assert_eq!(r.records.0.level, LogLevel::Error);
    assert_eq!(
        fields_of(&r.records.1),
        expected(&[
            ("error_type", "ProxyError"),
            ("error_message", "Proxy error"),
            ("context", "HTTP response generation"),
            ("timestamp", "t4"),
        ])
    );
    let r = AppError::ServiceUnavailable.into_response("t");
    assert_eq!(r.status, 503);
    assert_eq!(r.message, "Service Unavailable");
    let r = AppError::RouteNotFound.into_response("t");
    assert_eq!(r.status, 404);
    let r = AppError::InvalidDestination("u".to_string()).into_response("t");
    assert_eq!(r.status, 500);
    assert_eq!(r.message, "Invalid gateway configuration");
}
