use rustway::cache::{CachedResponse, ResponseCache};
use rustway::circuit_breaker::{
    BackendOutcome, BreakerPolicy, CircuitBreakerStore, CircuitState,
};
use rustway::config::{GatewayConfig, PolicyDefaults, RouteConfig};
use rustway::guards::RouteGuards;
use rustway::pipeline::{Effects, Event, Guards};
use rustway::rate_limiter::{
    InMemoryRateLimiter, RateLimitPolicy, RateLimitScope, RateLimitState,
};

const BREAKER: BreakerPolicy = BreakerPolicy { failure_threshold: 3, cooldown_ms: 10_000 };
const LIMIT: RateLimitPolicy =
    RateLimitPolicy { capacity: 5, refill_per_sec: 1, scope: RateLimitScope::PerClient };

fn config() -> GatewayConfig {
    GatewayConfig {
        routes: vec![],
        defaults: PolicyDefaults {
            rate_limit: None,
            cache_ttl_ms: Some(30_000),
            circuit_breaker: Some(BREAKER),
        },
    }
}

fn limited_route(rate_limit: Option<RateLimitPolicy>) -> RouteConfig {
    RouteConfig {
        path: "/api".to_string(),
        destinations: vec!["http://backend".to_string()],
        rate_limit,
        cache_ttl_ms: None,
        circuit_breaker: None,
    }
}

fn guards(rate_limit: Option<RateLimitPolicy>) -> RouteGuards {
    RouteGuards::for_request(
        &config(),
        &limited_route(rate_limit),
        Some("10.0.0.1"),
        "GET",
        "/api/v1/users/123",
        "",
    )
}

fn reply_with(body: &str, inserted_at_ms: u64) -> CachedResponse {
    CachedResponse { status: 200, headers: vec![], body: body.as_bytes().to_vec(), inserted_at_ms }
}

/// A limiter that admits nothing, in place of the one of this crate.
struct Closed;

impl RateLimitState for Closed {
    fn try_acquire(&mut self, _key: &str, _policy: RateLimitPolicy, _now_ms: u64) -> bool {
        false
    }

    fn check(&self, _key: &str, _policy: RateLimitPolicy, _now_ms: u64) -> bool {
        false
    }
}

#[test]
fn guards_take_policies_and_keys_from_the_route() {
    let g = guards(Some(LIMIT));
    assert_eq!(g.route_path, "/api");
    assert_eq!(g.rate_key, "10.0.0.1 /api");
    assert_eq!(g.cache_key, "GET:/api/v1/users/123:");
    assert_eq!(g.rate_limit, Some(LIMIT));
    assert_eq!(g.circuit_breaker, Some(BREAKER));
    assert_eq!(g.cache_ttl_ms, Some(30_000));
    assert_eq!(g.guards(), Guards { rate_limit: true, circuit_breaker: true, cache: true });
    let g = guards(None);
    assert_eq!(g.rate_key, "/api");
    assert_eq!(g.rate_limit, None);
    assert_eq!(g.guards(), Guards { rate_limit: false, circuit_breaker: true, cache: true });
}

#[test]
fn rate_limit_check_reports_the_decision_of_the_limiter() {
    let g = guards(Some(LIMIT));
    let mut limiter = InMemoryRateLimiter::new();
    for _ in 0..5 {
        assert_eq!(g.check_rate_limit(&mut limiter, 0), Event::RateLimitChecked { admitted: true });
    }
    assert_eq!(g.check_rate_limit(&mut limiter, 0), Event::RateLimitChecked { admitted: false });
    assert_eq!(limiter.bucket("10.0.0.1 /api").unwrap().millitokens, 0);
    assert_eq!(g.check_rate_limit(&mut limiter, 1_000), Event::RateLimitChecked { admitted: true });
    assert_eq!(
        g.check_rate_limit_with(&mut limiter, 1_000),
        Event::RateLimitChecked { admitted: false }
    );
    assert_eq!(
        g.check_rate_limit_with(&mut limiter, 2_000),
        Event::RateLimitChecked { admitted: true }
    );
    assert_eq!(
        g.check_rate_limit_with(&mut Closed, 0),
        Event::RateLimitChecked { admitted: false }
    );
}

#[test]
fn route_without_rate_limit_admits_everything() {
    let g = guards(None);
    let mut limiter = InMemoryRateLimiter::new();
    assert_eq!(g.check_rate_limit(&mut limiter, 0), Event::RateLimitChecked { admitted: true });
    assert_eq!(limiter.bucket("/api"), None);
    assert_eq!(g.check_rate_limit_with(&mut Closed, 0), Event::RateLimitChecked { admitted: true });
}

#[test]
fn breaker_check_and_bookkeeping_work_on_the_breaker_of_the_route() {
    let g = guards(None);
    let mut breakers = CircuitBreakerStore::new();
    let mut cache = ResponseCache::new(4);
    let failed = Effects {
        record: Some(BackendOutcome::Status(500)),
        store_response: false,
        abandon_trial: false,
    };
    for t in 0..3 {
        assert_eq!(g.check_breaker(&mut breakers, t), Event::BreakerChecked { admitted: true });
        g.apply(failed, &mut breakers, &mut cache, None, t);
    }
    assert_eq!(breakers.entry("/api").unwrap().state, CircuitState::Open);
    assert_eq!(g.check_breaker(&mut breakers, 5_000), Event::BreakerChecked { admitted: false });
    assert_eq!(g.check_breaker(&mut breakers, 10_002), Event::BreakerChecked { admitted: true });
    assert_eq!(breakers.entry("/api").unwrap().state, CircuitState::HalfOpen);
    let gone = Effects { record: None, store_response: false, abandon_trial: true };
    g.apply(gone, &mut breakers, &mut cache, None, 10_003);
    assert_eq!(breakers.entry("/api").unwrap().state, CircuitState::Open);
    assert_eq!(cache.len(), 0);
}

#[test]
fn stored_response_is_found_until_its_ttl_has_passed() {
    let g = guards(None);
    let mut breakers = CircuitBreakerStore::new();
    let mut cache = ResponseCache::new(4);
    let (event, found) = g.lookup(&mut cache, 0);
    assert_eq!(event, Event::CacheChecked { hit: false });
    assert!(found.is_none());
    let store = Effects { record: None, store_response: true, abandon_trial: false };
    g.apply(store, &mut breakers, &mut cache, Some(reply_with("alice", 0)), 0);
    assert_eq!(cache.len(), 1);
    let (event, found) = g.lookup(&mut cache, 29_000);
    assert_eq!(event, Event::CacheChecked { hit: true });
    assert_eq!(found.unwrap().body, b"alice".to_vec());
    let (event, found) = g.lookup(&mut cache, 31_000);
    assert_eq!(event, Event::CacheChecked { hit: false });
    assert!(found.is_none());
    assert_eq!(breakers.entry("/api"), None);
}

#[test]
fn nothing_is_stored_without_the_word_or_the_response() {
    let g = guards(None);
    let mut breakers = CircuitBreakerStore::new();
    let mut cache = ResponseCache::new(4);
    let quiet = Effects { record: None, store_response: false, abandon_trial: false };
    g.apply(quiet, &mut breakers, &mut cache, Some(reply_with("x", 0)), 0);
    assert_eq!(cache.len(), 0);
    let store = Effects { record: None, store_response: true, abandon_trial: false };
    g.apply(store, &mut breakers, &mut cache, None, 0);
    assert_eq!(cache.len(), 0);
}
