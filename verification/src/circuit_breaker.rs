//! The per-route circuit breaker.
//!
//! A breaker watches the outcomes of backend calls. While it is closed,
//! calls go through and consecutive failures are counted; at the configured
//! threshold it opens and turns every call away. Once the cooldown has
//! passed, the next call is let through as a trial, and its outcome alone
//! decides whether the breaker closes again or opens for another cooldown.
//!
//! Time is a count of milliseconds that the caller supplies; it is expected
//! not to run backwards, and a reading earlier than the last transition
//! counts as no time having passed.

use crate::keyed::KeyedTable;
use vstd::prelude::*;

verus! {

/// The three states of a breaker.
#[derive(Clone, Copy, PartialEq, Eq, Debug, Structural)]
pub enum CircuitState {
    /// Calls are permitted; failures are counted.
    Closed,
    /// Calls are turned away until the cooldown has passed.
    Open,
    /// One trial call is under way; all others are turned away.
    HalfOpen,
}

/// How a backend call ended.
#[derive(Clone, Copy, PartialEq, Eq, Debug, Structural)]
pub enum BackendOutcome {
    /// The backend answered with this HTTP status.
    Status(u16),
    /// No connection could be made, or it broke during the transfer.
    ConnectionError,
    /// The backend did not answer in time.
    Timeout,
}

/// When a breaker opens and for how long.
#[derive(Clone, Copy, PartialEq, Eq, Debug, Structural)]
pub struct BreakerPolicy {
    /// Consecutive failures at which the breaker opens.
    pub failure_threshold: u32,
    /// Milliseconds for which it stays open.
    pub cooldown_ms: u64,
}

/// The breaker of one route.
#[derive(Clone, Copy, PartialEq, Eq, Debug, Structural)]
pub struct CircuitBreakerEntry {
    pub state: CircuitState,
    /// Failures since the last success, while closed.
    pub failure_count: u32,
    /// When the breaker last changed state.
    pub last_transition_ms: u64,
    pub failure_threshold: u32,
    pub cooldown_ms: u64,
}

/// Whether an outcome counts against the backend: a connection error, a
/// timeout or a 5xx status. Any other status, 4xx included, shows a backend
/// that is reachable and working.
pub open spec fn is_failure(outcome: BackendOutcome) -> bool {
    match outcome {
        BackendOutcome::Status(code) => 500 <= code <= 599,
        BackendOutcome::ConnectionError => true,
        BackendOutcome::Timeout => true,
    }
}

/// A failure count one higher, or unchanged at the top of its range.
pub open spec fn bumped(count: u32) -> u32 {
    if count == u32::MAX {
        count
    } else {
        (count + 1) as u32
    }
}

/// Whether an outcome counts against the backend, as [`is_failure`] says.
pub fn classify(outcome: BackendOutcome) -> (r: bool)
    ensures
        r == is_failure(outcome),
{
    match outcome {
        BackendOutcome::Status(code) => 500 <= code && code <= 599,
        BackendOutcome::ConnectionError => true,
        BackendOutcome::Timeout => true,
    }
}

impl CircuitBreakerEntry {
    /// A closed breaker without failures.
    pub open spec fn fresh(policy: BreakerPolicy, now_ms: u64) -> CircuitBreakerEntry {
        CircuitBreakerEntry {
            state: CircuitState::Closed,
            failure_count: 0,
            last_transition_ms: now_ms,
            failure_threshold: policy.failure_threshold,
            cooldown_ms: policy.cooldown_ms,
        }
    }

    /// Whether the cooldown has passed at `now_ms`.
    pub open spec fn cooled_down(self, now_ms: u64) -> bool {
        now_ms >= self.last_transition_ms && now_ms - self.last_transition_ms >= self.cooldown_ms
    }

    /// Whether a call arriving at `now_ms` is let through.
    pub open spec fn admits(self, now_ms: u64) -> bool {
        match self.state {
            CircuitState::Closed => true,
            CircuitState::Open => self.cooled_down(now_ms),
            CircuitState::HalfOpen => false,
        }
    }

    /// The breaker after a call arrived at `now_ms`: an open breaker whose
    /// cooldown has passed starts its trial; nothing else changes.
    pub open spec fn after_request(self, now_ms: u64) -> CircuitBreakerEntry {
        if self.state == CircuitState::Open && self.cooled_down(now_ms) {
            CircuitBreakerEntry {
                state: CircuitState::HalfOpen,
                last_transition_ms: now_ms,
                ..self
            }
        } else {
            self
        }
    }

    /// The breaker after a call succeeded. A success reported while the
    /// breaker is open belongs to a call admitted earlier and is ignored.
    pub open spec fn after_success(self, now_ms: u64) -> CircuitBreakerEntry {
        match self.state {
            CircuitState::Closed => CircuitBreakerEntry { failure_count: 0, ..self },
            CircuitState::HalfOpen => CircuitBreakerEntry {
                state: CircuitState::Closed,
                failure_count: 0,
                last_transition_ms: now_ms,
                ..self
            },
            CircuitState::Open => self,
        }
    }

    /// The breaker after a call failed. A failure reported while the
    /// breaker is open belongs to a call admitted earlier and is ignored.
    pub open spec fn after_failure(self, now_ms: u64) -> CircuitBreakerEntry {
        match self.state {
            CircuitState::Closed => if bumped(self.failure_count) >= self.failure_threshold {
                CircuitBreakerEntry {
                    state: CircuitState::Open,
                    failure_count: bumped(self.failure_count),
                    last_transition_ms: now_ms,
                    ..self
                }
            } else {
                CircuitBreakerEntry { failure_count: bumped(self.failure_count), ..self }
            },
            CircuitState::HalfOpen => CircuitBreakerEntry {
                state: CircuitState::Open,
                last_transition_ms: now_ms,
                ..self
            },
            CircuitState::Open => self,
        }
    }

    /// The breaker after a call ended with `outcome`.
    pub open spec fn after_outcome(self, outcome: BackendOutcome, now_ms: u64)
        -> CircuitBreakerEntry {
        if is_failure(outcome) {
            self.after_failure(now_ms)
        } else {
            self.after_success(now_ms)
        }
    }

    /// The breaker after a trial was given up without an outcome: it is
    /// open again, as it was before the trial began.
    pub open spec fn after_abandoned_trial(self) -> CircuitBreakerEntry {
        if self.state == CircuitState::HalfOpen {
            CircuitBreakerEntry { state: CircuitState::Open, ..self }
        } else {
            self
        }
    }

    /// The breaker after `n` failures in a row, each at `now_ms`.
    pub open spec fn after_failures(self, n: nat, now_ms: u64) -> CircuitBreakerEntry
        decreases n,
    {
        if n == 0 {
            self
        } else {
            self.after_failures((n - 1) as nat, now_ms).after_failure(now_ms)
        }
    }

    /// A closed breaker without failures.
    pub fn new(policy: BreakerPolicy, now_ms: u64) -> (r: CircuitBreakerEntry)
        ensures
            r == CircuitBreakerEntry::fresh(policy, now_ms),
    {
        CircuitBreakerEntry {
            state: CircuitState::Closed,
            failure_count: 0,
            last_transition_ms: now_ms,
            failure_threshold: policy.failure_threshold,
            cooldown_ms: policy.cooldown_ms,
        }
    }

    /// Decides whether a call arriving at `now_ms` may reach the backend,
    /// and starts the trial if this call is it.
    pub fn allow_request(&mut self, now_ms: u64) -> (allowed: bool)
        ensures
            allowed == old(self).admits(now_ms),
            *final(self) == old(self).after_request(now_ms),
    {
        match self.state {
            CircuitState::Closed => true,
            CircuitState::HalfOpen => false,
            CircuitState::Open => {
                if now_ms >= self.last_transition_ms && now_ms - self.last_transition_ms
                    >= self.cooldown_ms {
                    self.state = CircuitState::HalfOpen;
                    self.last_transition_ms = now_ms;
                    true
                } else {
                    false
                }
            },
        }
    }

    /// Records that a call succeeded.
    pub fn record_success(&mut self, now_ms: u64)
        ensures
            *final(self) == old(self).after_success(now_ms),
    {
        match self.state {
            CircuitState::Closed => {
                self.failure_count = 0;
            },
            CircuitState::HalfOpen => {
                self.state = CircuitState::Closed;
                self.failure_count = 0;
                self.last_transition_ms = now_ms;
            },
            CircuitState::Open => {},
        }
    }

    /// Records that a call failed.
    pub fn record_failure(&mut self, now_ms: u64)
        ensures
            *final(self) == old(self).after_failure(now_ms),
    {
        match self.state {
            CircuitState::Closed => {
                if self.failure_count < u32::MAX {
                    self.failure_count = self.failure_count + 1;
                }
                if self.failure_count >= self.failure_threshold {
                    self.state = CircuitState::Open;
                    self.last_transition_ms = now_ms;
                }
            },
            CircuitState::HalfOpen => {
                self.state = CircuitState::Open;
                self.last_transition_ms = now_ms;
            },
            CircuitState::Open => {},
        }
    }

    /// Records how a call ended.
    pub fn record_outcome(&mut self, outcome: BackendOutcome, now_ms: u64)
        ensures
            *final(self) == old(self).after_outcome(outcome, now_ms),
    {
        if classify(outcome) {
            self.record_failure(now_ms);
        } else {
            self.record_success(now_ms);
        }
    }

    /// Gives up a trial whose call ended without an outcome, so that the
    /// next cooldown can bring another.
    pub fn abandon_trial(&mut self)
        ensures
            *final(self) == old(self).after_abandoned_trial(),
    {
        if self.state == CircuitState::HalfOpen {
            self.state = CircuitState::Open;
        }
    }
}

/// The breakers of all routes, by route path. A route gets its breaker,
/// closed, with the first call that asks for it.
pub struct CircuitBreakerStore {
    entries: KeyedTable<CircuitBreakerEntry>,
}

impl View for CircuitBreakerStore {
    type V = Map<Seq<char>, CircuitBreakerEntry>;

    closed spec fn view(&self) -> Map<Seq<char>, CircuitBreakerEntry> {
        self.entries@
    }
}

/// The breaker that stands for `route` in `store`: the stored one, held to
/// the current `policy`, or a fresh one.
pub open spec fn breaker_of(
    store: Map<Seq<char>, CircuitBreakerEntry>,
    route: Seq<char>,
    policy: BreakerPolicy,
    now_ms: u64,
) -> CircuitBreakerEntry {
    if store.contains_key(route) {
        CircuitBreakerEntry {
            failure_threshold: policy.failure_threshold,
            cooldown_ms: policy.cooldown_ms,
            ..store[route]
        }
    } else {
        CircuitBreakerEntry::fresh(policy, now_ms)
    }
}

impl CircuitBreakerStore {
    /// A store without breakers.
    pub fn new() -> (r: CircuitBreakerStore)
        ensures
            r@ == Map::<Seq<char>, CircuitBreakerEntry>::empty(),
    {
        CircuitBreakerStore { entries: KeyedTable::new() }
    }

    /// The breaker of `route`, if it has one.
    pub fn entry(&self, route: &str) -> (r: Option<CircuitBreakerEntry>)
        ensures
            r == if self@.contains_key(route@) {
                Some(self@[route@])
            } else {
                None
            },
    {
        match self.entries.get(route) {
            Some(e) => Some(*e),
            None => None,
        }
    }

    /// Decides whether a call to `route` arriving at `now_ms` may reach the
    /// backend. Only the breaker of `route` changes.
    pub fn allow_request(&mut self, route: &str, policy: BreakerPolicy, now_ms: u64) -> (allowed:
        bool)
        ensures
            allowed == breaker_of(old(self)@, route@, policy, now_ms).admits(now_ms),
            final(self)@ == old(self)@.insert(
                route@,
                breaker_of(old(self)@, route@, policy, now_ms).after_request(now_ms),
            ),
    {
        let mut e = match self.entries.get(route) {
            Some(e) => CircuitBreakerEntry {
                state: e.state,
                failure_count: e.failure_count,
                last_transition_ms: e.last_transition_ms,
                failure_threshold: policy.failure_threshold,
                cooldown_ms: policy.cooldown_ms,
            },
            None => CircuitBreakerEntry::new(policy, now_ms),
        };
        let allowed = e.allow_request(now_ms);
        self.entries.insert(route, e);
        allowed
    }

    /// Records how a call to `route` ended. Only the breaker of `route`
    /// changes; a route without a breaker stays without one.
    pub fn record_outcome(&mut self, route: &str, outcome: BackendOutcome, now_ms: u64)
        ensures
            final(self)@ == if old(self)@.contains_key(route@) {
                old(self)@.insert(route@, old(self)@[route@].after_outcome(outcome, now_ms))
            } else {
                old(self)@
            },
    {
        let found = match self.entries.get(route) {
            Some(e) => Some(*e),
            None => None,
        };
        match found {
            Some(mut e) => {
                e.record_outcome(outcome, now_ms);
                self.entries.insert(route, e);
            },
            None => {},
        }
    }

    /// Gives up the trial of `route`, if one is under way.
    pub fn abandon_trial(&mut self, route: &str)
        ensures
            final(self)@ == if old(self)@.contains_key(route@) {
                old(self)@.insert(route@, old(self)@[route@].after_abandoned_trial())
            } else {
                old(self)@
            },
    {
        let found = match self.entries.get(route) {
            Some(e) => Some(*e),
            None => None,
        };
        match found {
            Some(mut e) => {
                e.abandon_trial();
                self.entries.insert(route, e);
            },
            None => {},
        }
    }
}

/// From a closed breaker without failures, `failure_threshold` failures in
/// a row open it, and no fewer do.
pub proof fn lemma_threshold_failures_open(
    policy: BreakerPolicy,
    start_ms: u64,
    now_ms: u64,
    n: nat,
)
    requires
        policy.failure_threshold >= 1,
        n <= policy.failure_threshold,
    ensures
        ({
            let b = CircuitBreakerEntry::fresh(policy, start_ms).after_failures(n, now_ms);
            &&& b.failure_threshold == policy.failure_threshold
            &&& b.cooldown_ms == policy.cooldown_ms
            &&& n < policy.failure_threshold ==> b.state == CircuitState::Closed && b.failure_count
                == n
            &&& n == policy.failure_threshold ==> b.state == CircuitState::Open
                && b.last_transition_ms == now_ms
        }),
    decreases n,
{
    let fresh = CircuitBreakerEntry::fresh(policy, start_ms);
    if n > 0 {
        lemma_threshold_failures_open(policy, start_ms, now_ms, (n - 1) as nat);
        let before = fresh.after_failures((n - 1) as nat, now_ms);
        assert(fresh.after_failures(n, now_ms) == before.after_failure(now_ms));
        assert(before.state == CircuitState::Closed && before.failure_count == n - 1);
        assert(before.failure_threshold == policy.failure_threshold);
    } else {
        assert(fresh.after_failures(n, now_ms) == fresh);
    }
}

/// While a breaker is open and its cooldown has not passed, every call is
/// turned away and the breaker does not change.
pub proof fn lemma_open_turns_away(b: CircuitBreakerEntry, now_ms: u64)
    requires
        b.state == CircuitState::Open,
        !b.cooled_down(now_ms),
    ensures
        !b.admits(now_ms),
        b.after_request(now_ms) == b,
{
}

/// Once the cooldown has passed, the next call is the trial: it is let
/// through and the breaker is half open. If the trial succeeds the breaker
/// is closed with no failures counted; if it fails the breaker is open and
/// a full cooldown starts at the time of the failure. While the trial is
/// under way every other call is turned away.
pub proof fn lemma_trial_decides(b: CircuitBreakerEntry, now_ms: u64, later_ms: u64)
    requires
        b.state == CircuitState::Open,
        b.cooled_down(now_ms),
    ensures
        b.admits(now_ms),
        b.after_request(now_ms).state == CircuitState::HalfOpen,
        !b.after_request(now_ms).admits(later_ms),
        b.after_request(now_ms).after_success(later_ms).state == CircuitState::Closed,
        b.after_request(now_ms).after_success(later_ms).failure_count == 0,
        b.after_request(now_ms).after_failure(later_ms).state == CircuitState::Open,
        b.after_request(now_ms).after_failure(later_ms).last_transition_ms == later_ms,
        forall|t: u64|
            t < later_ms + b.cooldown_ms ==> !#[trigger] b.after_request(now_ms).after_failure(
                later_ms,
            ).admits(t),
{
}

/// Whenever a breaker becomes closed, its failure count is zero.
pub proof fn lemma_closing_resets(b: CircuitBreakerEntry, outcome: BackendOutcome, now_ms: u64)
    requires
        b.state != CircuitState::Closed,
        b.after_outcome(outcome, now_ms).state == CircuitState::Closed,
    ensures
        b.after_outcome(outcome, now_ms).failure_count == 0,
{
}

} // verus!
