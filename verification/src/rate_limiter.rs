//! Token-bucket admission control.
//!
//! A bucket holds up to `capacity` tokens and gains `refill_per_sec` tokens
//! every second, continuously. A request is admitted when at least one
//! whole token is there, and takes exactly one.
//!
//! To keep the continuous refill exact, a bucket counts thousandths of a
//! token: in one millisecond it gains `refill_per_sec` of them, so no
//! fraction is ever rounded away. Time is a count of milliseconds that the
//! caller supplies; a reading earlier than the last refill counts as no
//! time having passed.

use crate::keyed::KeyedTable;
use crate::text::opt_view;
use vstd::prelude::*;
use vstd::string::*;

verus! {

/// Who shares a bucket.
#[derive(Clone, Copy, PartialEq, Eq, Debug, Structural)]
pub enum RateLimitScope {
    /// All requests on the route.
    PerRoute,
    /// The requests of one client on the route.
    PerClient,
}

/// The size and refill rate of the buckets of one route, and who shares
/// them.
#[derive(Clone, Copy, PartialEq, Eq, Debug, Structural)]
pub struct RateLimitPolicy {
    /// The most tokens a bucket holds.
    pub capacity: u64,
    /// Tokens gained per second.
    pub refill_per_sec: u64,
    pub scope: RateLimitScope,
}

/// The bucket of one key.
#[derive(Clone, Copy, PartialEq, Eq, Debug, Structural)]
pub struct TokenBucket {
    pub capacity: u64,
    pub refill_per_sec: u64,
    /// The tokens in the bucket, in thousandths of a token.
    pub millitokens: u128,
    /// When the level was last brought up to date.
    pub last_refill_ms: u64,
}

/// The lesser of two integers.
pub open spec fn lesser(a: int, b: int) -> int {
    if a <= b {
        a
    } else {
        b
    }
}

impl TokenBucket {
    /// A full bucket.
    pub open spec fn full(policy: RateLimitPolicy, now_ms: u64) -> TokenBucket {
        TokenBucket {
            capacity: policy.capacity,
            refill_per_sec: policy.refill_per_sec,
            millitokens: (policy.capacity * 1000) as u128,
            last_refill_ms: now_ms,
        }
    }

    /// The bucket holds no more than its capacity.
    pub open spec fn within_capacity(self) -> bool {
        self.millitokens <= self.capacity * 1000
    }

    /// The whole tokens in the bucket.
    pub open spec fn tokens(self) -> int {
        self.millitokens as int / 1000
    }

    /// Milliseconds from the last refill to `now_ms`.
    pub open spec fn elapsed_ms(self, now_ms: u64) -> int {
        if now_ms > self.last_refill_ms {
            now_ms - self.last_refill_ms
        } else {
            0
        }
    }

    /// The level at `now_ms`, in thousandths: what was there plus what has
    /// accumulated since, capped at the capacity.
    pub open spec fn level_at(self, now_ms: u64) -> int {
        lesser(
            self.capacity * 1000,
            self.millitokens + self.elapsed_ms(now_ms) * self.refill_per_sec,
        )
    }

    /// The bucket brought up to date at `now_ms`.
    pub open spec fn refilled(self, now_ms: u64) -> TokenBucket {
        TokenBucket {
            millitokens: self.level_at(now_ms) as u128,
            last_refill_ms: if now_ms > self.last_refill_ms {
                now_ms
            } else {
                self.last_refill_ms
            },
            ..self
        }
    }

    /// Whether a request at `now_ms` finds a whole token.
    pub open spec fn acquires(self, now_ms: u64) -> bool {
        self.level_at(now_ms) >= 1000
    }

    /// The bucket after a request at `now_ms`: brought up to date, and one
    /// token lighter if the request was admitted.
    pub open spec fn after_acquire(self, now_ms: u64) -> TokenBucket {
        if self.acquires(now_ms) {
            TokenBucket {
                millitokens: (self.level_at(now_ms) - 1000) as u128,
                ..self.refilled(now_ms)
            }
        } else {
            self.refilled(now_ms)
        }
    }

    /// The bucket after one request at each of `times`, in order.
    pub open spec fn after_acquisitions(self, times: Seq<u64>) -> TokenBucket
        decreases times.len(),
    {
        if times.len() == 0 {
            self
        } else {
            self.after_acquisitions(times.drop_last()).after_acquire(times.last())
        }
    }

    /// The bucket held to `policy`: its size and rate are the policy's, and
    /// what exceeds the new capacity is lost.
    pub open spec fn under(self, policy: RateLimitPolicy) -> TokenBucket {
        TokenBucket {
            capacity: policy.capacity,
            refill_per_sec: policy.refill_per_sec,
            millitokens: lesser(self.millitokens as int, policy.capacity * 1000) as u128,
            last_refill_ms: self.last_refill_ms,
        }
    }

    /// A full bucket.
    pub fn new(policy: RateLimitPolicy, now_ms: u64) -> (r: TokenBucket)
        ensures
            r == TokenBucket::full(policy, now_ms),
            r.within_capacity(),
    {
        TokenBucket {
            capacity: policy.capacity,
            refill_per_sec: policy.refill_per_sec,
            millitokens: policy.capacity as u128 * 1000,
            last_refill_ms: now_ms,
        }
    }

    /// The level at `now_ms`, in thousandths of a token.
    fn level(&self, now_ms: u64) -> (r: u128)
        ensures
            r == self.level_at(now_ms),
            r <= self.capacity * 1000,
    {
        let full: u128 = self.capacity as u128 * 1000;
        if self.millitokens >= full {
            return full;
        }
        let elapsed: u64 = if now_ms > self.last_refill_ms {
            now_ms - self.last_refill_ms
        } else {
            0
        };
        assert(elapsed * self.refill_per_sec <= 0xffff_ffff_ffff_ffff * 0xffff_ffff_ffff_ffff)
            by (nonlinear_arith)
            requires
                0 <= elapsed <= 0xffff_ffff_ffff_ffff,
                0 <= self.refill_per_sec <= 0xffff_ffff_ffff_ffff,
        ;
        let gained: u128 = elapsed as u128 * self.refill_per_sec as u128;
        if gained >= full - self.millitokens {
            full
        } else {
            self.millitokens + gained
        }
    }

    /// Whether a request at `now_ms` would be admitted. Nothing changes.
    pub fn check(&self, now_ms: u64) -> (would_admit: bool)
        ensures
            would_admit == self.acquires(now_ms),
    {
        self.level(now_ms) >= 1000
    }

    /// Admits a request at `now_ms` if a whole token is there, and takes
    /// that token.
    pub fn try_acquire(&mut self, now_ms: u64) -> (admitted: bool)
        ensures
            admitted == old(self).acquires(now_ms),
            *final(self) == old(self).after_acquire(now_ms),
            final(self).within_capacity(),
    {
        let level = self.level(now_ms);
        if now_ms > self.last_refill_ms {
            self.last_refill_ms = now_ms;
        }
        if level >= 1000 {
            self.millitokens = level - 1000;
            true
        } else {
            self.millitokens = level;
            false
        }
    }

    /// Holds the bucket to `policy`.
    pub fn reconfigure(&mut self, policy: RateLimitPolicy)
        ensures
            *final(self) == old(self).under(policy),
            final(self).within_capacity(),
    {
        let full: u128 = policy.capacity as u128 * 1000;
        self.capacity = policy.capacity;
        self.refill_per_sec = policy.refill_per_sec;
        if self.millitokens > full {
            self.millitokens = full;
        }
    }

    /// The whole tokens in the bucket, as of the last refill.
    pub fn available(&self) -> (r: u128)
        ensures
            r == self.tokens(),
    {
        self.millitokens / 1000
    }
}

/// The key under which requests are counted: the route alone, or, where
/// buckets are per client and the client is known, the client and the
/// route, separated by a space.
pub open spec fn rate_limit_key_text(
    route_path: Seq<char>,
    client: Option<Seq<char>>,
    scope: RateLimitScope,
) -> Seq<char> {
    match (scope, client) {
        (RateLimitScope::PerClient, Some(c)) => c + " "@ + route_path,
        _ => route_path,
    }
}

/// The key under which a request on `route_path` is counted.
pub fn rate_limit_key(route_path: &str, client: Option<&str>, scope: RateLimitScope) -> (r: String)
    ensures
        r@ == rate_limit_key_text(route_path@, opt_view(client), scope),
{
    let mut out = String::new();
    match (scope, client) {
        (RateLimitScope::PerClient, Some(c)) => {
            out.append(c);
            out.append(" ");
        },
        _ => {},
    }
    out.append(route_path);
    assert(out@ =~= rate_limit_key_text(route_path@, opt_view(client), scope));
    out
}

/// The capability that the gateway asks of a rate-limit store: to admit a
/// request under a key, and to say whether it would. An in-process store is
/// [`InMemoryRateLimiter`]; a store shared between processes can stand in
/// its place.
pub trait RateLimitState {
    /// Admits or rejects one request under `key` at `now_ms`, and takes
    /// its token if it admits it.
    fn try_acquire(&mut self, key: &str, policy: RateLimitPolicy, now_ms: u64) -> (admitted: bool);

    /// Whether a request under `key` at `now_ms` would be admitted.
    /// Nothing changes.
    fn check(&self, key: &str, policy: RateLimitPolicy, now_ms: u64) -> (would_admit: bool);
}

/// The buckets of one process, by key. A key gets its bucket, full, with
/// the first request under it.
pub struct InMemoryRateLimiter {
    buckets: KeyedTable<TokenBucket>,
}

impl View for InMemoryRateLimiter {
    type V = Map<Seq<char>, TokenBucket>;

    closed spec fn view(&self) -> Map<Seq<char>, TokenBucket> {
        self.buckets@
    }
}

/// The bucket that stands for `key` in `store`: the stored one, held to the
/// current `policy`, or a full one.
pub open spec fn bucket_of(
    store: Map<Seq<char>, TokenBucket>,
    key: Seq<char>,
    policy: RateLimitPolicy,
    now_ms: u64,
) -> TokenBucket {
    if store.contains_key(key) {
        store[key].under(policy)
    } else {
        TokenBucket::full(policy, now_ms)
    }
}

impl InMemoryRateLimiter {
    /// A store without buckets.
    pub fn new() -> (r: InMemoryRateLimiter)
        ensures
            r@ == Map::<Seq<char>, TokenBucket>::empty(),
    {
        InMemoryRateLimiter { buckets: KeyedTable::new() }
    }

    /// The bucket of `key`, if it has one.
    pub fn bucket(&self, key: &str) -> (r: Option<TokenBucket>)
        ensures
            r == if self@.contains_key(key@) {
                Some(self@[key@])
            } else {
                None
            },
    {
        match self.buckets.get(key) {
            Some(b) => Some(*b),
            None => None,
        }
    }

    fn current(&self, key: &str, policy: RateLimitPolicy, now_ms: u64) -> (r: TokenBucket)
        ensures
            r == bucket_of(self@, key@, policy, now_ms),
    {
        match self.buckets.get(key) {
            Some(b) => {
                let mut b = *b;
                b.reconfigure(policy);
                b
            },
            None => TokenBucket::new(policy, now_ms),
        }
    }
}

impl RateLimitState for InMemoryRateLimiter {
    /// Only the bucket of `key` changes.
    fn try_acquire(&mut self, key: &str, policy: RateLimitPolicy, now_ms: u64) -> (admitted: bool)
        ensures
            admitted == bucket_of(old(self)@, key@, policy, now_ms).acquires(now_ms),
            final(self)@ == old(self)@.insert(
                key@,
                bucket_of(old(self)@, key@, policy, now_ms).after_acquire(now_ms),
            ),
    {
        let mut b = self.current(key, policy, now_ms);
        let admitted = b.try_acquire(now_ms);
        self.buckets.insert(key, b);
        admitted
    }

    fn check(&self, key: &str, policy: RateLimitPolicy, now_ms: u64) -> (would_admit: bool)
        ensures
            would_admit == bucket_of(self@, key@, policy, now_ms).acquires(now_ms),
    {
        self.current(key, policy, now_ms).check(now_ms)
    }
}

/// Whatever the bucket held before, after any request it holds no more than
/// its capacity.
pub proof fn lemma_acquire_within_capacity(b: TokenBucket, now_ms: u64)
    ensures
        b.after_acquire(now_ms).within_capacity(),
        b.after_acquire(now_ms).millitokens >= 0,
{
}

/// Through any sequence of requests, a bucket that starts within its
/// capacity stays within it: its level is never negative and never above
/// the capacity.
pub proof fn lemma_tokens_stay_bounded(b: TokenBucket, times: Seq<u64>)
    requires
        b.within_capacity(),
    ensures
        b.after_acquisitions(times).within_capacity(),
        0 <= b.after_acquisitions(times).tokens() <= b.capacity,
        b.after_acquisitions(times).capacity == b.capacity,
    decreases times.len(),
{
    if times.len() > 0 {
        lemma_tokens_stay_bounded(b, times.drop_last());
        lemma_acquire_within_capacity(b.after_acquisitions(times.drop_last()), times.last());
    }
}

/// A request is admitted exactly when a whole token is there, and then
/// takes exactly one token from the level that the refill had reached.
pub proof fn lemma_acquire_takes_one(b: TokenBucket, now_ms: u64)
    requires
        b.within_capacity(),
    ensures
        b.acquires(now_ms) ==> b.after_acquire(now_ms).millitokens == b.level_at(now_ms) - 1000,
        !b.acquires(now_ms) ==> b.after_acquire(now_ms).millitokens == b.level_at(now_ms),
        b.acquires(now_ms) <==> b.refilled(now_ms).tokens() >= 1,
{
}

} // verus!
