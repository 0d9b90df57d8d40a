//! The guards of a route, put to work.
//!
//! The pipeline asks for a check and waits for an event; the limiter, the
//! breaker and the cache each know how to decide. The functions here stand
//! between them: they put the pipeline's question to the store that
//! answers it and hand back the event, and they carry out the bookkeeping
//! that a turn of the pipeline asks for.

use crate::cache::{
    answer, cache_key, cache_key_text, looked_up, stored, CachedResponse, EntrySpec, ResponseCache,
};
use crate::circuit_breaker::{
    breaker_of, BreakerPolicy, CircuitBreakerEntry, CircuitBreakerStore, CircuitState,
};
use crate::config::{in_force, GatewayConfig, RouteConfig};
use crate::pipeline::{Action, Effects, Event, Guards, PipelineState, Refusal, Reply};
use crate::plugins::RegistrationSpec;
use crate::rate_limiter::{
    bucket_of, rate_limit_key, rate_limit_key_text, InMemoryRateLimiter, RateLimitPolicy,
    RateLimitState, TokenBucket,
};
use crate::text::{opt_view, owned};
use std::sync::Arc;
use vstd::prelude::*;

verus! {

/// What a request needs to know to pass the guards of its route.
#[derive(Debug)]
pub struct RouteGuards {
    /// The path of the route, under which its breaker is kept.
    pub route_path: String,
    /// The key under which the request is counted by the rate limiter.
    pub rate_key: String,
    /// The key under which its response is cached.
    pub cache_key: String,
    pub rate_limit: Option<RateLimitPolicy>,
    pub circuit_breaker: Option<BreakerPolicy>,
    pub cache_ttl_ms: Option<u64>,
}

impl RouteGuards {
    /// The guards for a request of `method` for `request_path` and `query`
    /// by `client`, on `route`: the policies that `config` puts in force,
    /// and the keys under which the request is counted and cached.
    pub fn for_request(
        config: &GatewayConfig,
        route: &RouteConfig,
        client: Option<&str>,
        method: &str,
        request_path: &str,
        query: &str,
    ) -> (r: RouteGuards)
        ensures
            r.route_path@ == route@.path,
            r.rate_limit == in_force(route@.rate_limit, config@.defaults.rate_limit),
            r.circuit_breaker == in_force(route@.circuit_breaker, config@.defaults.circuit_breaker),
            r.cache_ttl_ms == in_force(route@.cache_ttl_ms, config@.defaults.cache_ttl_ms),
            r.cache_key@ == cache_key_text(method@, request_path@, query@),
            r.rate_key@ == match r.rate_limit {
                Some(policy) => rate_limit_key_text(route@.path, opt_view(client), policy.scope),
                None => route@.path,
            },
    {
        let rate_limit = config.rate_limit_for(route);
        let rate_key = match rate_limit {
            Some(policy) => rate_limit_key(route.path.as_str(), client, policy.scope),
            None => owned(route.path.as_str()),
        };
        RouteGuards {
            route_path: owned(route.path.as_str()),
            rate_key,
            cache_key: cache_key(method, request_path, query),
            rate_limit,
            circuit_breaker: config.breaker_for(route),
            cache_ttl_ms: config.cache_ttl_for(route),
        }
    }

    /// Which guards are in force.
    pub open spec fn in_force(&self) -> Guards {
        Guards {
            rate_limit: self.rate_limit is Some,
            circuit_breaker: self.circuit_breaker is Some,
            cache: self.cache_ttl_ms is Some,
        }
    }

    /// Which guards are in force.
    pub fn guards(&self) -> (r: Guards)
        ensures
            r == self.in_force(),
    {
        Guards {
            rate_limit: self.rate_limit.is_some(),
            circuit_breaker: self.circuit_breaker.is_some(),
            cache: self.cache_ttl_ms.is_some(),
        }
    }

    /// The event that reports the decision of the rate limiter of this
    /// crate. A route without a rate limit admits every request.
    pub open spec fn rate_limit_event(&self, buckets: Map<Seq<char>, TokenBucket>, now_ms: u64)
        -> Event {
        match self.rate_limit {
            Some(policy) => Event::RateLimitChecked {
                admitted: bucket_of(buckets, self.rate_key@, policy, now_ms).acquires(now_ms),
            },
            None => Event::RateLimitChecked { admitted: true },
        }
    }

    /// The event that reports the breaker's decision. A route without a
    /// breaker admits every request and leaves the breakers alone.
    pub open spec fn breaker_event(
        &self,
        breakers: Map<Seq<char>, CircuitBreakerEntry>,
        now_ms: u64,
    ) -> Event {
        match self.circuit_breaker {
            Some(policy) => Event::BreakerChecked {
                admitted: breaker_of(breakers, self.route_path@, policy, now_ms).admits(now_ms),
            },
            None => Event::BreakerChecked { admitted: true },
        }
    }

    /// The event that reports the cache lookup: a hit where the cache
    /// answers the key.
    pub open spec fn cache_event(&self, entries: Seq<EntrySpec>, now_ms: u64) -> Event {
        Event::CacheChecked { hit: answer(entries, self.cache_key@, now_ms) is Some }
    }

    /// Asks the rate limiter of this crate for a token and reports its
    /// decision. A route without a rate limit leaves the limiter alone.
    pub fn check_rate_limit(&self, limiter: &mut InMemoryRateLimiter, now_ms: u64) -> (e: Event)
        ensures
            e == self.rate_limit_event(old(limiter)@, now_ms),
            final(limiter)@ == match self.rate_limit {
                Some(policy) => old(limiter)@.insert(
                    self.rate_key@,
                    bucket_of(old(limiter)@, self.rate_key@, policy, now_ms).after_acquire(now_ms),
                ),
                None => old(limiter)@,
            },
    {
        match self.rate_limit {
            Some(policy) => Event::RateLimitChecked {
                admitted: limiter.try_acquire(self.rate_key.as_str(), policy, now_ms),
            },
            None => Event::RateLimitChecked { admitted: true },
        }
    }

    /// Asks any rate limiter for a token and reports its decision. What
    /// the limiter decides is its own affair; a route without a rate limit
    /// admits the request and leaves the limiter alone.
    pub fn check_rate_limit_with<L: RateLimitState>(&self, limiter: &mut L, now_ms: u64) -> (e:
        Event)
        ensures
            e is RateLimitChecked,
            self.rate_limit is None ==> e == (Event::RateLimitChecked { admitted: true })
                && *final(limiter) == *old(limiter),
    {
        match self.rate_limit {
            Some(policy) => Event::RateLimitChecked {
                admitted: limiter.try_acquire(self.rate_key.as_str(), policy, now_ms),
            },
            None => Event::RateLimitChecked { admitted: true },
        }
    }

    /// Asks the breaker of the route whether the request may pass and
    /// reports its decision.
    pub fn check_breaker(&self, breakers: &mut CircuitBreakerStore, now_ms: u64) -> (e: Event)
        ensures
            e == self.breaker_event(old(breakers)@, now_ms),
            final(breakers)@ == match self.circuit_breaker {
                Some(policy) => old(breakers)@.insert(
                    self.route_path@,
                    breaker_of(old(breakers)@, self.route_path@, policy, now_ms).after_request(
                        now_ms,
                    ),
                ),
                None => old(breakers)@,
            },
    {
        match self.circuit_breaker {
            Some(policy) => Event::BreakerChecked {
                admitted: breakers.allow_request(self.route_path.as_str(), policy, now_ms),
            },
            None => Event::BreakerChecked { admitted: true },
        }
    }

    /// Looks the request up in the cache and reports whether it was found,
    /// with the response to replay if it was.
    pub fn lookup(&self, cache: &mut ResponseCache, now_ms: u64) -> (r: (
        Event,
        Option<Arc<CachedResponse>>,
    ))
        ensures
            r.0 == self.cache_event(old(cache)@, now_ms),
            match r.1 {
                Some(response) => answer(old(cache)@, self.cache_key@, now_ms) == Some(response@),
                None => answer(old(cache)@, self.cache_key@, now_ms) is None,
            },
            final(cache)@ == looked_up(old(cache)@, self.cache_key@, now_ms),
            final(cache).capacity() == old(cache).capacity(),
            final(cache).within_bounds(),
    {
        let found = cache.get(self.cache_key.as_str(), now_ms);
        let hit = found.is_some();
        (Event::CacheChecked { hit }, found)
    }

    /// The breakers after the bookkeeping of a turn: the outcome recorded,
    /// or the trial given up, with the breaker of the route.
    pub open spec fn breakers_after(
        &self,
        effects: Effects,
        breakers: Map<Seq<char>, CircuitBreakerEntry>,
        now_ms: u64,
    ) -> Map<Seq<char>, CircuitBreakerEntry> {
        let route = self.route_path@;
        let recorded = match effects.record {
            Some(outcome) if breakers.contains_key(route) => breakers.insert(
                route,
                breakers[route].after_outcome(outcome, now_ms),
            ),
            _ => breakers,
        };
        if effects.abandon_trial && recorded.contains_key(route) {
            recorded.insert(route, recorded[route].after_abandoned_trial())
        } else {
            recorded
        }
    }

    /// The cache after the bookkeeping of a turn: the response stored
    /// under the key of the request, for the lifetime that the route gives
    /// it, if the turn asks for it and there is a response to store.
    pub open spec fn cache_after(
        &self,
        effects: Effects,
        entries: Seq<EntrySpec>,
        capacity: usize,
        fresh: Option<CachedResponse>,
    ) -> Seq<EntrySpec> {
        match (effects.store_response, self.cache_ttl_ms, fresh) {
            (true, Some(ttl_ms), Some(response)) => stored(
                entries,
                capacity,
                EntrySpec { key: self.cache_key@, response: response@, ttl_ms },
            ),
            _ => entries,
        }
    }

    /// Carries out the bookkeeping of a turn. `fresh` is the response of
    /// the backend, if there is one.
    pub fn apply(
        &self,
        effects: Effects,
        breakers: &mut CircuitBreakerStore,
        cache: &mut ResponseCache,
        fresh: Option<CachedResponse>,
        now_ms: u64,
    )
        ensures
            final(breakers)@ == self.breakers_after(effects, old(breakers)@, now_ms),
            final(cache)@ == self.cache_after(effects, old(cache)@, old(cache).capacity(), fresh),
            final(cache).capacity() == old(cache).capacity(),
    {
        match effects.record {
            Some(outcome) => {
                breakers.record_outcome(self.route_path.as_str(), outcome, now_ms);
            },
            None => {},
        }
        if effects.abandon_trial {
            breakers.abandon_trial(self.route_path.as_str());
        }
        if effects.store_response {
            match (self.cache_ttl_ms, fresh) {
                (Some(ttl_ms), Some(response)) => {
                    cache.put(self.cache_key.as_str(), response, ttl_ms);
                },
                _ => {},
            }
        }
    }
}

/// A request that meets an open breaker before its cooldown has passed is
/// refused with 503: the breaker turns it away, the pipeline ends the
/// request, and the backend is not called.
pub proof fn lemma_open_breaker_refuses(
    guards: RouteGuards,
    breakers: Map<Seq<char>, CircuitBreakerEntry>,
    state: PipelineState,
    plugins: Seq<RegistrationSpec>,
    now_ms: u64,
)
    requires
        guards.circuit_breaker is Some,
        state.stage is Breaker,
        breakers.contains_key(guards.route_path@),
        breakers[guards.route_path@].state == CircuitState::Open,
        now_ms < breakers[guards.route_path@].last_transition_ms
            + guards.circuit_breaker->0.cooldown_ms,
    ensures
        ({
            let next = state.next_step(
                plugins,
                guards.route_path@,
                guards.breaker_event(breakers, now_ms),
            );
            &&& next.action == Action::Respond(Reply::Refused(Refusal::CircuitOpen))
            &&& next.state.stage is Finished
            &&& next.effects.record is None
            &&& Refusal::CircuitOpen.status() == 503
        }),
{
}

/// A request that finds its bucket without a whole token is refused with
/// 429.
pub proof fn lemma_empty_bucket_refuses(
    guards: RouteGuards,
    buckets: Map<Seq<char>, TokenBucket>,
    state: PipelineState,
    plugins: Seq<RegistrationSpec>,
    now_ms: u64,
)
    requires
        guards.rate_limit is Some,
        state.stage is RateLimit,
        !bucket_of(buckets, guards.rate_key@, guards.rate_limit->0, now_ms).acquires(now_ms),
    ensures
        ({
            let next = state.next_step(
                plugins,
                guards.route_path@,
                guards.rate_limit_event(buckets, now_ms),
            );
            &&& next.action == Action::Respond(Reply::Refused(Refusal::RateLimited))
            &&& next.state.stage is Finished
            &&& Refusal::RateLimited.status() == 429
        }),
{
}

/// A response that was stored for a request is replayed to the same
/// request while `now < inserted_at + ttl`, without a backend call; once
/// that time has passed the lookup misses and the request goes on towards
/// the backend.
pub proof fn lemma_stored_response_is_replayed(
    guards: RouteGuards,
    entries: Seq<EntrySpec>,
    capacity: usize,
    response: CachedResponse,
    state: PipelineState,
    plugins: Seq<RegistrationSpec>,
    now_ms: u64,
)
    requires
        guards.cache_ttl_ms is Some,
        state.stage is CacheLookup,
        crate::cache::distinct_keys(entries),
        entries.len() <= capacity,
        capacity > 0,
    ensures
        ({
            let effects = Effects {
                record: None,
                store_response: true,
                abandon_trial: false,
            };
            let after = guards.cache_after(effects, entries, capacity, Some(response));
            let next = state.next_step(
                plugins,
                guards.route_path@,
                guards.cache_event(after, now_ms),
            );
            let ttl_ms = guards.cache_ttl_ms->0;
            &&& now_ms < response.inserted_at_ms + ttl_ms ==> {
                &&& answer(after, guards.cache_key@, now_ms) == Some(response@)
                &&& next.state.reply == Some(Reply::Cached)
                &&& crate::pipeline::answered(next.state)
                &&& crate::pipeline::only_responds(next.action)
            }
            &&& now_ms >= response.inserted_at_ms + ttl_ms ==> {
                &&& answer(after, guards.cache_key@, now_ms) is None
                &&& !crate::pipeline::answered(next.state)
            }
        }),
{
    let ttl_ms = guards.cache_ttl_ms->0;
    let entry = EntrySpec { key: guards.cache_key@, response: response@, ttl_ms };
    crate::cache::lemma_stored_answers_while_fresh(entries, capacity, entry, now_ms);
}

} // verus!
