//! The routing table, how a request path is resolved against it, and the
//! store that holds the active table and swaps it as a whole.

use crate::circuit_breaker::BreakerPolicy;
use crate::errors::AppError;
use crate::rate_limiter::RateLimitPolicy;
use crate::shared::share;
use crate::text::{char_len, decimal_digits, decimal_string, joined, starts_with, str_eq};
use std::sync::Arc;
use vstd::prelude::*;
use vstd::string::*;

verus! {

/// One route: a path prefix, where its requests go, and the policies that
/// guard it. A policy that is absent falls back to the table's default.
#[derive(Debug)]
pub struct RouteConfig {
    /// The prefix that request paths are matched against.
    pub path: String,
    /// Base URLs of the backends; the first is the one used.
    pub destinations: Vec<String>,
    pub rate_limit: Option<RateLimitPolicy>,
    /// How long a cached response stays valid, in milliseconds.
    pub cache_ttl_ms: Option<u64>,
    pub circuit_breaker: Option<BreakerPolicy>,
}

/// The mathematical content of a [`RouteConfig`].
pub ghost struct RouteSpec {
    pub path: Seq<char>,
    pub destinations: Seq<Seq<char>>,
    pub rate_limit: Option<RateLimitPolicy>,
    pub cache_ttl_ms: Option<u64>,
    pub circuit_breaker: Option<BreakerPolicy>,
}

impl View for RouteConfig {
    type V = RouteSpec;

    open spec fn view(&self) -> RouteSpec {
        RouteSpec {
            path: self.path@,
            destinations: Seq::new(self.destinations@.len(), |i: int| self.destinations@[i]@),
            rate_limit: self.rate_limit,
            cache_ttl_ms: self.cache_ttl_ms,
            circuit_breaker: self.circuit_breaker,
        }
    }
}

/// Policies for the routes that name none of their own.
#[derive(Clone, Copy, PartialEq, Eq, Debug, Structural)]
pub struct PolicyDefaults {
    pub rate_limit: Option<RateLimitPolicy>,
    pub cache_ttl_ms: Option<u64>,
    pub circuit_breaker: Option<BreakerPolicy>,
}

/// A routing table: routes in their configured order, and the defaults.
#[derive(Debug)]
pub struct GatewayConfig {
    pub routes: Vec<Arc<RouteConfig>>,
    pub defaults: PolicyDefaults,
}

/// The mathematical content of a [`GatewayConfig`].
pub ghost struct GatewaySpec {
    pub routes: Seq<RouteSpec>,
    pub defaults: PolicyDefaults,
}

impl View for GatewayConfig {
    type V = GatewaySpec;

    open spec fn view(&self) -> GatewaySpec {
        GatewaySpec {
            routes: Seq::new(self.routes@.len(), |i: int| self.routes@[i]@),
            defaults: self.defaults,
        }
    }
}

/// Why a routing table is refused. `route` is the position of the first
/// route at fault.
#[derive(Clone, Copy, PartialEq, Eq, Debug, Structural)]
pub enum ConfigError {
    /// The path is empty or does not begin with `/`.
    InvalidPath { route: usize },
    /// There is no destination, or one of them is empty.
    MissingDestination { route: usize },
    /// An earlier route has the same path.
    DuplicatePath { route: usize },
    /// A bucket of capacity zero, or a breaker that opens at zero failures.
    InvalidPolicy { route: usize },
    /// The same fault in the defaults.
    InvalidDefaults,
}

/// A route matches a request path when its own path is a prefix of it.
pub open spec fn route_matches(route: RouteSpec, path: Seq<char>) -> bool {
    route.path.is_prefix_of(path)
}

/// Route `i` is the one that `path` resolves to: it matches, no matching
/// route has a longer path, and among those of equal length it comes first.
pub open spec fn is_resolution(routes: Seq<RouteSpec>, path: Seq<char>, i: int) -> bool {
    &&& 0 <= i < routes.len()
    &&& route_matches(routes[i], path)
    &&& forall|j: int|
        0 <= j < routes.len() && route_matches(#[trigger] routes[j], path) ==> routes[j].path.len()
            < routes[i].path.len() || (routes[j].path.len() == routes[i].path.len() && i <= j)
}

/// No route matches `path`.
pub open spec fn unmatched(routes: Seq<RouteSpec>, path: Seq<char>) -> bool {
    forall|j: int| 0 <= j < routes.len() ==> !route_matches(#[trigger] routes[j], path)
}

/// A path must begin with `/`.
pub open spec fn path_ok(path: Seq<char>) -> bool {
    path.len() > 0 && path[0] == '/'
}

/// There must be a destination, and none may be empty.
pub open spec fn destinations_ok(destinations: Seq<Seq<char>>) -> bool {
    &&& destinations.len() > 0
    &&& forall|i: int| 0 <= i < destinations.len() ==> (#[trigger] destinations[i]).len() > 0
}

/// A bucket must hold a token, and a breaker must allow a failure.
pub open spec fn policies_ok(rate_limit: Option<RateLimitPolicy>, breaker: Option<BreakerPolicy>)
    -> bool {
    &&& rate_limit matches Some(p) ==> p.capacity > 0
    &&& breaker matches Some(b) ==> b.failure_threshold > 0
}

/// An earlier route has the path of route `i`.
pub open spec fn repeats_earlier(routes: Seq<RouteSpec>, i: int) -> bool {
    exists|j: int| 0 <= j < i && (#[trigger] routes[j]).path == routes[i].path
}

/// What is wrong with route `i`, the first fault if there are several.
pub open spec fn route_error(routes: Seq<RouteSpec>, i: int) -> Option<ConfigError> {
    if !path_ok(routes[i].path) {
        Some(ConfigError::InvalidPath { route: i as usize })
    } else if !destinations_ok(routes[i].destinations) {
        Some(ConfigError::MissingDestination { route: i as usize })
    } else if repeats_earlier(routes, i) {
        Some(ConfigError::DuplicatePath { route: i as usize })
    } else if !policies_ok(routes[i].rate_limit, routes[i].circuit_breaker) {
        Some(ConfigError::InvalidPolicy { route: i as usize })
    } else {
        None
    }
}

/// The fault of the first faulty route at or after position `from`.
pub open spec fn first_error_from(routes: Seq<RouteSpec>, from: int) -> Option<ConfigError>
    decreases routes.len() - from,
{
    if from < 0 || from >= routes.len() {
        None
    } else if route_error(routes, from) is Some {
        route_error(routes, from)
    } else {
        first_error_from(routes, from + 1)
    }
}

/// Why a table is refused, or `None` for a table that is accepted.
pub open spec fn config_error(config: GatewaySpec) -> Option<ConfigError> {
    if !policies_ok(config.defaults.rate_limit, config.defaults.circuit_breaker) {
        Some(ConfigError::InvalidDefaults)
    } else {
        first_error_from(config.routes, 0)
    }
}

/// The table that is active after a reload with `new`: `new` if it is
/// accepted, the table as it was if not.
pub open spec fn after_reload(active: GatewaySpec, new: GatewaySpec) -> GatewaySpec {
    if config_error(new) is None {
        new
    } else {
        active
    }
}

/// The policy in force: the route's own, or else the default.
pub open spec fn in_force<T>(own: Option<T>, default: Option<T>) -> Option<T> {
    if own is Some {
        own
    } else {
        default
    }
}

fn policies_valid(rate_limit: Option<RateLimitPolicy>, breaker: Option<BreakerPolicy>) -> (r: bool)
    ensures
        r == policies_ok(rate_limit, breaker),
{
    let rate_ok = match rate_limit {
        Some(p) => p.capacity > 0,
        None => true,
    };
    let breaker_ok = match breaker {
        Some(b) => b.failure_threshold > 0,
        None => true,
    };
    rate_ok && breaker_ok
}

impl RouteConfig {
    /// Where the route's requests go: its first destination.
    pub fn primary_destination(&self) -> (r: Option<&String>)
        ensures
            match r {
                Some(d) => self@.destinations.len() > 0 && d@ == self@.destinations[0],
                None => self@.destinations.len() == 0,
            },
    {
        if self.destinations.len() > 0 {
            Some(&self.destinations[0])
        } else {
            None
        }
    }

    fn path_valid(&self) -> (r: bool)
        ensures
            r == path_ok(self@.path),
    {
        let r = starts_with(self.path.as_str(), "/");
        proof {
            reveal_strlit("/");
            let slash = "/"@;
            assert(slash.len() == 1 && slash[0] == '/');
            if self@.path.len() > 0 {
                let head = self@.path.subrange(0, 1);
                assert(head[0] == self@.path[0]);
                if self@.path[0] == '/' {
                    assert(slash =~= head);
                }
            }
        }
        r
    }

    fn destinations_valid(&self) -> (r: bool)
        ensures
            r == destinations_ok(self@.destinations),
    {
        if self.destinations.len() == 0 {
            return false;
        }
        let mut i: usize = 0;
        while i < self.destinations.len()
            invariant
                0 <= i <= self.destinations@.len(),
                self@.destinations.len() == self.destinations@.len(),
                forall|j: int| 0 <= j < i ==> (#[trigger] self@.destinations[j]).len() > 0,
            decreases self.destinations@.len() - i,
        {
            if char_len(self.destinations[i].as_str()) == 0 {
                assert(self@.destinations[i as int].len() == 0);
                return false;
            }
            i = i + 1;
        }
        true
    }
}

impl ConfigError {
    /// The error written out as a sentence.
    pub open spec fn message_text(self) -> Seq<char> {
        match self {
            ConfigError::InvalidPath { route } => "route "@ + decimal_digits(route as nat)
                + ": path must begin with '/'"@,
            ConfigError::MissingDestination { route } => "route "@ + decimal_digits(route as nat)
                + ": a non-empty destination is required"@,
            ConfigError::DuplicatePath { route } => "route "@ + decimal_digits(route as nat)
                + ": path repeats an earlier route"@,
            ConfigError::InvalidPolicy { route } => "route "@ + decimal_digits(route as nat)
                + ": capacity and failure threshold must be positive"@,
            ConfigError::InvalidDefaults =>
                "defaults: capacity and failure threshold must be positive"@,
        }
    }

    /// The error written out as a sentence.
    pub fn message(&self) -> (r: String)
        ensures
            r@ == self.message_text(),
    {
        match self {
            ConfigError::InvalidPath { route } => route_sentence(
                *route,
                ": path must begin with '/'",
            ),
            ConfigError::MissingDestination { route } => route_sentence(
                *route,
                ": a non-empty destination is required",
            ),
            ConfigError::DuplicatePath { route } => route_sentence(
                *route,
                ": path repeats an earlier route",
            ),
            ConfigError::InvalidPolicy { route } => route_sentence(
                *route,
                ": capacity and failure threshold must be positive",
            ),
            ConfigError::InvalidDefaults => crate::text::owned(
                "defaults: capacity and failure threshold must be positive",
            ),
        }
    }

    /// The error as the gateway reports a failed reload.
    pub fn into_app_error(self) -> (r: AppError)
        ensures
            r matches AppError::HotReloadError(msg) && msg@ == self.message_text(),
    {
        AppError::HotReloadError(self.message())
    }
}

fn route_sentence(route: usize, what: &str) -> (r: String)
    ensures
        r@ == "route "@ + decimal_digits(route as nat) + what@,
{
    let number = decimal_string(route as u64);
    let head = joined("route ", number.as_str());
    joined(head.as_str(), what)
}

impl GatewayConfig {
    /// The position of the route that `path` resolves to: the matching
    /// route with the longest path, the first of them if several are as
    /// long.
    pub fn match_index(&self, path: &str) -> (r: Option<usize>)
        ensures
            match r {
                Some(i) => is_resolution(self@.routes, path@, i as int),
                None => unmatched(self@.routes, path@),
            },
    {
        let mut best: Option<usize> = None;
        let mut best_len: usize = 0;
        let mut i: usize = 0;
        while i < self.routes.len()
            invariant
                0 <= i <= self.routes@.len(),
                self@.routes.len() == self.routes@.len(),
                match best {
                    Some(b) => {
                        &&& b < i
                        &&& route_matches(self@.routes[b as int], path@)
                        &&& best_len == self@.routes[b as int].path.len()
                        &&& forall|j: int|
                            0 <= j < i && route_matches(#[trigger] self@.routes[j], path@)
                                ==> self@.routes[j].path.len() < best_len || (
                            self@.routes[j].path.len() == best_len && b <= j)
                    },
                    None => forall|j: int|
                        0 <= j < i ==> !route_matches(#[trigger] self@.routes[j], path@),
                },
            decreases self.routes@.len() - i,
        {
            assert(self@.routes[i as int] == self.routes@[i as int]@);
            if starts_with(path, self.routes[i].path.as_str()) {
                let n = char_len(self.routes[i].path.as_str());
                if best.is_none() || n > best_len {
                    best = Some(i);
                    best_len = n;
                }
            }
            i = i + 1;
        }
        best
    }

    /// The route that `path` resolves to, if any route matches.
    pub fn find_route_for_path(&self, path: &str) -> (r: Option<Arc<RouteConfig>>)
        ensures
            match r {
                Some(route) => exists|i: int|
                    is_resolution(self@.routes, path@, i) && route@ == self@.routes[i],
                None => unmatched(self@.routes, path@),
            },
    {
        match self.match_index(path) {
            Some(i) => {
                let route = share(&self.routes[i]);
                assert(is_resolution(self@.routes, path@, i as int) && route@
                    == self@.routes[i as int]);
                Some(route)
            },
            None => None,
        }
    }

    /// The rate limit in force for `route`.
    pub fn rate_limit_for(&self, route: &RouteConfig) -> (r: Option<RateLimitPolicy>)
        ensures
            r == in_force(route@.rate_limit, self@.defaults.rate_limit),
    {
        match route.rate_limit {
            Some(p) => Some(p),
            None => self.defaults.rate_limit,
        }
    }

    /// The cache lifetime in force for `route`, in milliseconds.
    pub fn cache_ttl_for(&self, route: &RouteConfig) -> (r: Option<u64>)
        ensures
            r == in_force(route@.cache_ttl_ms, self@.defaults.cache_ttl_ms),
    {
        match route.cache_ttl_ms {
            Some(t) => Some(t),
            None => self.defaults.cache_ttl_ms,
        }
    }

    /// The breaker policy in force for `route`.
    pub fn breaker_for(&self, route: &RouteConfig) -> (r: Option<BreakerPolicy>)
        ensures
            r == in_force(route@.circuit_breaker, self@.defaults.circuit_breaker),
    {
        match route.circuit_breaker {
            Some(b) => Some(b),
            None => self.defaults.circuit_breaker,
        }
    }

    fn repeats_earlier_path(&self, i: usize) -> (r: bool)
        requires
            i < self.routes@.len(),
        ensures
            r == repeats_earlier(self@.routes, i as int),
    {
        let mut j: usize = 0;
        while j < i
            invariant
                0 <= j <= i < self.routes@.len(),
                self@.routes.len() == self.routes@.len(),
                forall|k: int|
                    0 <= k < j ==> (#[trigger] self@.routes[k]).path != self@.routes[i as int].path,
            decreases i - j,
        {
            assert(self@.routes[j as int] == self.routes@[j as int]@);
            assert(self@.routes[i as int] == self.routes@[i as int]@);
            if str_eq(self.routes[j].path.as_str(), self.routes[i].path.as_str()) {
                return true;
            }
            j = j + 1;
        }
        false
    }

    fn check_route(&self, i: usize) -> (r: Option<ConfigError>)
        requires
            i < self.routes@.len(),
        ensures
            r == route_error(self@.routes, i as int),
    {
        assert(self@.routes[i as int] == self.routes@[i as int]@);
        if !self.routes[i].path_valid() {
            Some(ConfigError::InvalidPath { route: i })
        } else if !self.routes[i].destinations_valid() {
            Some(ConfigError::MissingDestination { route: i })
        } else if self.repeats_earlier_path(i) {
            Some(ConfigError::DuplicatePath { route: i })
        } else if !policies_valid(self.routes[i].rate_limit, self.routes[i].circuit_breaker) {
            Some(ConfigError::InvalidPolicy { route: i })
        } else {
            None
        }
    }

    /// Checks the table: `Ok` if it is accepted, else the first fault.
    pub fn validate(&self) -> (r: Result<(), ConfigError>)
        ensures
            match r {
                Ok(_) => config_error(self@) is None,
                Err(e) => config_error(self@) == Some(e),
            },
    {
        if !policies_valid(self.defaults.rate_limit, self.defaults.circuit_breaker) {
            return Err(ConfigError::InvalidDefaults);
        }
        let mut i: usize = 0;
        while i < self.routes.len()
            invariant
                0 <= i <= self.routes@.len(),
                self@.routes.len() == self.routes@.len(),
                policies_ok(self@.defaults.rate_limit, self@.defaults.circuit_breaker),
                first_error_from(self@.routes, 0) == first_error_from(self@.routes, i as int),
            decreases self.routes@.len() - i,
        {
            assert(first_error_from(self@.routes, i as int) == if route_error(
                self@.routes,
                i as int,
            ) is Some {
                route_error(self@.routes, i as int)
            } else {
                first_error_from(self@.routes, i + 1)
            });
            match self.check_route(i) {
                Some(e) => {
                    return Err(e);
                },
                None => {},
            }
            i = i + 1;
        }
        Ok(())
    }
}

/// The holder of the active routing table.
///
/// Readers take a [`ConfigStore::snapshot`] once per request and resolve
/// against it; a reload puts a new table in place of the old one and never
/// changes a table that has been handed out.
pub struct ConfigStore {
    active: Arc<GatewayConfig>,
}

impl View for ConfigStore {
    type V = GatewaySpec;

    closed spec fn view(&self) -> GatewaySpec {
        self.active@
    }
}

impl ConfigStore {
    /// The active table is one that was accepted.
    #[verifier::type_invariant]
    spec fn holds_accepted_table(&self) -> bool {
        config_error(self.active@) is None
    }

    /// A store that holds `config`, if the table is accepted.
    pub fn new(config: GatewayConfig) -> (r: Result<ConfigStore, ConfigError>)
        ensures
            match r {
                Ok(store) => config_error(config@) is None && store@ == config@,
                Err(e) => config_error(config@) == Some(e),
            },
    {
        match config.validate() {
            Ok(_) => Ok(ConfigStore { active: Arc::new(config) }),
            Err(e) => Err(e),
        }
    }

    /// The active table. The handle keeps the table it was given, whatever
    /// is reloaded afterwards.
    pub fn snapshot(&self) -> (r: Arc<GatewayConfig>)
        ensures
            r@ == self@,
            config_error(r@) is None,
    {
        proof {
            use_type_invariant(self);
        }
        share(&self.active)
    }

    /// The route that `path` resolves to in the active table.
    pub fn resolve(&self, path: &str) -> (r: Option<Arc<RouteConfig>>)
        ensures
            match r {
                Some(route) => exists|i: int|
                    is_resolution(self@.routes, path@, i) && route@ == self@.routes[i],
                None => unmatched(self@.routes, path@),
            },
    {
        self.active.find_route_for_path(path)
    }

    /// Puts `new_config` in place of the active table, if it is accepted.
    /// A table that is refused leaves the active one as it was.
    pub fn reload(&mut self, new_config: GatewayConfig) -> (r: Result<(), ConfigError>)
        ensures
            final(self)@ == after_reload(old(self)@, new_config@),
            match r {
                Ok(_) => config_error(new_config@) is None,
                Err(e) => config_error(new_config@) == Some(e),
            },
    {
        proof {
            use_type_invariant(&*self);
        }
        match new_config.validate() {
            Ok(_) => {
                self.active = Arc::new(new_config);
                Ok(())
            },
            Err(e) => Err(e),
        }
    }
}

/// At most one route is the resolution of a path.
pub proof fn lemma_resolution_is_unique(routes: Seq<RouteSpec>, path: Seq<char>, i: int, j: int)
    requires
        is_resolution(routes, path, i),
        is_resolution(routes, path, j),
    ensures
        i == j,
{
}

/// A more specific route wins: where two routes match a path, the one with
/// the shorter path is not its resolution.
pub proof fn lemma_longest_prefix_wins(routes: Seq<RouteSpec>, path: Seq<char>, i: int, j: int)
    requires
        0 <= i < routes.len(),
        0 <= j < routes.len(),
        route_matches(routes[i], path),
        route_matches(routes[j], path),
        routes[i].path.len() < routes[j].path.len(),
    ensures
        !is_resolution(routes, path, i),
{
}

/// A reload swaps the table as a whole or not at all: afterwards the active
/// table is the new one or the old one, never a mixture of their routes.
pub proof fn lemma_reload_is_all_or_nothing(active: GatewaySpec, new: GatewaySpec)
    ensures
        after_reload(active, new) == new || after_reload(active, new) == active,
        config_error(new) is None ==> after_reload(active, new) == new,
        config_error(new) is Some ==> after_reload(active, new) == active,
{
}

/// Reloading the same table twice is the same as reloading it once: the
/// second reload changes nothing, and it fails or succeeds as the first.
pub proof fn lemma_reload_is_idempotent(active: GatewaySpec, new: GatewaySpec)
    ensures
        after_reload(after_reload(active, new), new) == after_reload(active, new),
{
}

} // verus!
