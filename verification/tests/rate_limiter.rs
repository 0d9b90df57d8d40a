use rustway::rate_limiter::{
    rate_limit_key, InMemoryRateLimiter, RateLimitPolicy, RateLimitScope, RateLimitState,
    TokenBucket,
};

const POLICY: RateLimitPolicy =
    RateLimitPolicy { capacity: 5, refill_per_sec: 1, scope: RateLimitScope::PerRoute };

fn policy(capacity: u64, refill_per_sec: u64) -> RateLimitPolicy {
    RateLimitPolicy { capacity, refill_per_sec, scope: RateLimitScope::PerRoute }
}

#[test]
fn new_bucket_is_full() {
    let b = TokenBucket::new(POLICY, 42);
    assert_eq!(b.capacity, 5);
    assert_eq!(b.refill_per_sec, 1);
    assert_eq!(b.millitokens, 5_000);
    assert_eq!(b.last_refill_ms, 42);
    assert_eq!(b.available(), 5);
}

#[test]
fn five_acquisitions_succeed_and_the_sixth_fails() {
    let mut b = TokenBucket::new(POLICY, 0);
    for _ in 0..5 {
        assert!(b.try_acquire(0));
    }
    assert!(!b.try_acquire(0));
    assert_eq!(b.millitokens, 0);
}

#[test]
fn one_second_later_exactly_one_more_succeeds() {
    let mut b = TokenBucket::new(POLICY, 0);
    for _ in 0..5 {
        assert!(b.try_acquire(0));
    }
    assert!(!b.try_acquire(0));
    assert!(b.try_acquire(1_000));
    assert!(!b.try_acquire(1_000));
    assert!(!b.try_acquire(1_500));
    assert_eq!(b.millitokens, 500);
    assert!(b.try_acquire(2_000));
    assert_eq!(b.millitokens, 0);
}

#[test]
fn refill_is_continuous() {
    let mut b = TokenBucket::new(policy(2, 4), 0);
    assert!(b.try_acquire(0));
    assert!(b.try_acquire(0));
    assert!(!b.try_acquire(249));
    assert_eq!(b.millitokens, 996);
    assert!(b.try_acquire(250));
    assert_eq!(b.millitokens, 0);
    assert_eq!(b.last_refill_ms, 250);
}

#[test]
fn refill_stops_at_the_capacity() {
    let mut b = TokenBucket::new(POLICY, 0);
    assert!(b.try_acquire(0));
    assert!(b.try_acquire(1_000_000));
    assert_eq!(b.millitokens, 4_000);
    let mut big = TokenBucket::new(
        policy(u64::MAX, u64::MAX),
        0,
    );
    assert!(big.try_acquire(u64::MAX));
    assert_eq!(big.millitokens, u64::MAX as u128 * 1000 - 1000);
}

#[test]
fn bucket_never_holds_more_than_its_capacity() {
    let mut b = TokenBucket {
        capacity: 2,
        refill_per_sec: 1,
        millitokens: 9_000_000,
        last_refill_ms: 0,
    };
    assert!(b.check(0));
    assert!(b.try_acquire(0));
    assert_eq!(b.millitokens, 1_000);
}

#[test]
fn check_takes_nothing() {
    let mut b = TokenBucket::new(policy(1, 1), 0);
    assert!(b.check(0));
    assert!(b.check(0));
    assert!(b.try_acquire(0));
    assert!(!b.check(999));
    assert!(b.check(1_000));
    assert_eq!(b.millitokens, 0);
}

#[test]
fn clock_that_runs_backwards_refills_nothing() {
    let mut b = TokenBucket::new(policy(1, 1000), 1_000);
    assert!(b.try_acquire(1_000));
    assert!(!b.try_acquire(500));
    assert_eq!(b.last_refill_ms, 1_000);
}

#[test]
fn bucket_of_capacity_zero_admits_nothing() {
    let mut b = TokenBucket::new(policy(0, 10), 0);
    assert!(!b.try_acquire(0));
    assert!(!b.try_acquire(10_000));
}

#[test]
fn reconfigure_cuts_the_level_to_the_new_capacity() {
    let mut b = TokenBucket::new(POLICY, 0);
    b.reconfigure(policy(2, 3));
    assert_eq!(b.capacity, 2);
    assert_eq!(b.refill_per_sec, 3);
    assert_eq!(b.millitokens, 2_000);
    b.reconfigure(policy(10, 3));
    assert_eq!(b.millitokens, 2_000);
}

#[test]
fn limiter_keeps_one_bucket_per_key() {
    let mut limiter = InMemoryRateLimiter::new();
    assert_eq!(limiter.bucket("a"), None);
    let one = policy(1, 1);
    assert!(limiter.check("a", one, 0));
    assert_eq!(limiter.bucket("a"), None);
    assert!(limiter.try_acquire("a", one, 0));
    assert!(!limiter.try_acquire("a", one, 0));
    assert!(!limiter.check("a", one, 999));
    assert!(limiter.try_acquire("b", one, 0));
    assert!(limiter.try_acquire("a", one, 1_000));
    assert_eq!(limiter.bucket("a").unwrap().millitokens, 0);
    assert_eq!(limiter.bucket("b").unwrap().last_refill_ms, 0);
}

#[test]
fn limiter_holds_buckets_to_the_current_policy() {
    let mut limiter = InMemoryRateLimiter::new();
    assert!(limiter.try_acquire("k", POLICY, 0));
    let small = policy(1, 1);
    assert!(limiter.try_acquire("k", small, 0));
    assert!(!limiter.try_acquire("k", small, 0));
    assert_eq!(limiter.bucket("k").unwrap().capacity, 1);
}

#[test]
fn key_is_the_route_or_the_client_and_the_route() {
    assert_eq!(rate_limit_key("/api", None, RateLimitScope::PerRoute), "/api");
    assert_eq!(rate_limit_key("/api", Some("10.0.0.1"), RateLimitScope::PerRoute), "/api");
    assert_eq!(
        rate_limit_key("/api", Some("10.0.0.1"), RateLimitScope::PerClient),
        "10.0.0.1 /api"
    );
    assert_eq!(rate_limit_key("/api", None, RateLimitScope::PerClient), "/api");
}

#[test]
fn clients_have_buckets_of_their_own() {
    let mut limiter = InMemoryRateLimiter::new();
    let one = RateLimitPolicy { capacity: 1, refill_per_sec: 1, scope: RateLimitScope::PerClient };
    let a = rate_limit_key("/api", Some("a"), one.scope);
    let b = rate_limit_key("/api", Some("b"), one.scope);
    assert!(limiter.try_acquire(&a, one, 0));
    assert!(!limiter.try_acquire(&a, one, 0));
    assert!(limiter.try_acquire(&b, one, 0));
}
