//! The order in which a request passes through the gateway.
//!
//! The pipeline is a state machine. It does no work of its own: at every
//! turn it names the one thing to be done next, an [`Action`], and waits
//! for the [`Event`] that reports how that went. The caller does the work,
//! against the rate limiter, the breaker, the cache, the plugins and the
//! backend, and comes back with the event. A request
//!
//! 1. is resolved to a route, or refused as not found;
//! 2. runs the pre-authentication plugins;
//! 3. is authenticated, or refused;
//! 4. runs the post-authentication plugins;
//! 5. passes the rate limiter, or is refused;
//! 6. passes the circuit breaker, or is refused without a backend call;
//! 7. is answered from the cache on a hit, which skips the next two steps;
//! 8. runs the pre-proxy plugins;
//! 9. is forwarded to the backend;
//! 10. has its outcome recorded with the breaker and, if it succeeded, its
//!     response stored in the cache;
//! 11. has its response passed through the post-proxy plugins;
//! 12. is answered.
//!
//! A plugin that returns a response of its own, or rejects the request,
//! ends the request part of the pipeline at once: no later request plugin,
//! no check and no backend call follows. Its response still passes through
//! the post-proxy plugins. A WebSocket upgrade takes steps 1, 5 and 6 and
//! then relays frames in place of step 9.

use crate::circuit_breaker::{is_failure, BackendOutcome};
use crate::errors::AppError;
use crate::plugins::{
    next_running, runs, PluginError, PluginPhase, PluginRegistry, RegistrationSpec,
};
use vstd::prelude::*;

verus! {

/// What kind of request is served.
#[derive(Clone, Copy, PartialEq, Eq, Debug, Structural)]
pub enum RequestKind {
    Http,
    WebSocket,
}

/// Which guards the route has in force.
#[derive(Clone, Copy, PartialEq, Eq, Debug, Structural)]
pub struct Guards {
    pub rate_limit: bool,
    pub circuit_breaker: bool,
    pub cache: bool,
}

/// Why the gateway itself refuses a request.
#[derive(Clone, Copy, PartialEq, Eq, Debug, Structural)]
pub enum Refusal {
    RouteNotFound,
    Unauthenticated,
    RateLimited,
    CircuitOpen,
    BackendFailed,
    Internal,
}

/// What the client is answered with.
#[derive(Clone, Copy, PartialEq, Eq, Debug, Structural)]
pub enum Reply {
    /// The gateway's own refusal.
    Refused(Refusal),
    /// The response that a plugin returned in place of the backend's.
    Terminal,
    /// The rejection of a plugin, with its reason.
    Rejected,
    /// The cached response, replayed.
    Cached,
    /// The backend's response.
    Backend,
    /// Nothing more: the WebSocket relay has run and ended.
    Relayed,
    /// Nothing: the client has gone.
    Abandoned,
}

/// How a plugin hook ended.
#[derive(Clone, Copy, PartialEq, Eq, Debug, Structural)]
pub enum HookVerdict {
    /// The hook passed the request or response on, changed or not.
    Continue,
    /// A request hook returned a response of its own.
    Terminal,
    /// The hook rejected the request.
    Rejected,
    /// The hook failed otherwise. It counts as having done nothing.
    Failed,
}

/// Where a request stands: what the pipeline is waiting for.
#[derive(Clone, Copy, PartialEq, Eq, Debug, Structural)]
pub enum Stage {
    /// The request hook of the plugin at position `at`, which runs in
    /// `phase`.
    RequestPlugin { phase: PluginPhase, at: usize },
    Auth,
    RateLimit,
    Breaker,
    CacheLookup,
    Backend,
    Relay,
    /// The response hook of the post-proxy plugin at position `at`.
    ResponsePlugin { at: usize },
    Finished,
}

/// The state of one request.
#[derive(Clone, Copy, PartialEq, Eq, Debug, Structural)]
pub struct PipelineState {
    pub kind: RequestKind,
    pub guards: Guards,
    pub stage: Stage,
    /// The answer, once there is one.
    pub reply: Option<Reply>,
    /// The breaker has let the request through and has not yet been told
    /// how the call ended.
    pub breaker_admitted: bool,
}

/// What the caller is asked to do next.
#[derive(Clone, Copy, PartialEq, Eq, Debug, Structural)]
pub enum Action {
    RunRequestHook { at: usize },
    Authenticate,
    CheckRateLimit,
    CheckBreaker,
    LookupCache,
    Forward,
    Relay,
    RunResponseHook { at: usize },
    Respond(Reply),
}

/// How the last action went.
#[derive(Clone, Copy, PartialEq, Eq, Debug, Structural)]
pub enum Event {
    HookFinished(HookVerdict),
    AuthFinished { granted: bool },
    RateLimitChecked { admitted: bool },
    BreakerChecked { admitted: bool },
    CacheChecked { hit: bool },
    BackendFinished(BackendOutcome),
    /// The request could not be made ready to send: nothing reached the
    /// backend.
    RequestNotSent,
    RelayFinished { connected: bool },
    /// The client has gone. May come at any time.
    Cancelled,
}

/// Bookkeeping that the caller does before the next action.
#[derive(Clone, Copy, PartialEq, Eq, Debug, Structural)]
pub struct Effects {
    /// Tell the breaker of the route that a call ended like this.
    pub record: Option<BackendOutcome>,
    /// Store the backend's response in the cache.
    pub store_response: bool,
    /// Tell the breaker of the route that the call it let through will
    /// have no outcome.
    pub abandon_trial: bool,
}

/// One turn of the pipeline.
#[derive(Clone, Copy, PartialEq, Eq, Debug, Structural)]
pub struct Step {
    pub state: PipelineState,
    pub effects: Effects,
    pub action: Action,
}

/// The outcome that is recorded for a relay: a connection that was made
/// counts as the backend having answered the upgrade.
pub open spec fn relay_outcome(connected: bool) -> BackendOutcome {
    if connected {
        BackendOutcome::Status(101)
    } else {
        BackendOutcome::ConnectionError
    }
}

impl Refusal {
    /// The HTTP status of the refusal. For a failed authentication it is
    /// the status of the class; the error that the collaborator gave may
    /// name another of that class.
    pub open spec fn status(self) -> u16 {
        match self {
            Refusal::RouteNotFound => 404,
            Refusal::Unauthenticated => 401,
            Refusal::RateLimited => 429,
            Refusal::CircuitOpen => 503,
            Refusal::BackendFailed => 502,
            Refusal::Internal => 500,
        }
    }

    /// The HTTP status of the refusal.
    pub fn status_code(self) -> (r: u16)
        ensures
            r == self.status(),
    {
        match self {
            Refusal::RouteNotFound => 404,
            Refusal::Unauthenticated => 401,
            Refusal::RateLimited => 429,
            Refusal::CircuitOpen => 503,
            Refusal::BackendFailed => 502,
            Refusal::Internal => 500,
        }
    }

    /// The error that reports the refusal, where the refusal says it all.
    /// A failed authentication and a failed backend call are reported by
    /// the error that the collaborator gave.
    pub fn to_error(self) -> (r: Option<AppError>)
        ensures
            match self {
                Refusal::RouteNotFound => r matches Some(AppError::RouteNotFound),
                Refusal::RateLimited => r matches Some(AppError::RateLimited),
                Refusal::CircuitOpen => r matches Some(AppError::ServiceUnavailable),
                Refusal::Internal => r matches Some(AppError::InternalServerError),
                Refusal::Unauthenticated => r is None,
                Refusal::BackendFailed => r is None,
            },
            r matches Some(e) ==> e.status() == self.status(),
    {
        match self {
            Refusal::RouteNotFound => Some(AppError::RouteNotFound),
            Refusal::RateLimited => Some(AppError::RateLimited),
            Refusal::CircuitOpen => Some(AppError::ServiceUnavailable),
            Refusal::Internal => Some(AppError::InternalServerError),
            Refusal::Unauthenticated => None,
            Refusal::BackendFailed => None,
        }
    }
}

/// The status with which the rejection of a plugin is answered.
pub const REJECTION_STATUS: u16 = 403;

/// How the result of a hook is read: an error ends the request if it is a
/// rejection and counts for nothing otherwise; a hook that succeeds ends
/// the request part of the pipeline if it returned a response.
pub open spec fn verdict(result: Result<bool, PluginError>) -> HookVerdict {
    match result {
        Ok(true) => HookVerdict::Terminal,
        Ok(false) => HookVerdict::Continue,
        Err(e) => if e.rejects() {
            HookVerdict::Rejected
        } else {
            HookVerdict::Failed
        },
    }
}

/// Reads the result of a hook. `Ok(true)` stands for a hook that returned
/// a response of its own.
pub fn read_hook_result(result: &Result<bool, PluginError>) -> (r: HookVerdict)
    ensures
        r == verdict(*result),
{
    match result {
        Ok(true) => HookVerdict::Terminal,
        Ok(false) => HookVerdict::Continue,
        Err(e) => if e.is_rejection() {
            HookVerdict::Rejected
        } else {
            HookVerdict::Failed
        },
    }
}

/// No bookkeeping.
pub open spec fn no_effects() -> Effects {
    Effects { record: None, store_response: false, abandon_trial: false }
}

impl PipelineState {
    /// The turn that moves to `stage` and asks for `action`.
    pub open spec fn turn(self, stage: Stage, action: Action) -> Step {
        Step { state: PipelineState { stage, ..self }, effects: no_effects(), action }
    }

    /// The turn that ends the request with `reply`. A breaker that was
    /// waiting for an outcome is told that none will come.
    pub open spec fn finish(self, reply: Reply) -> Step {
        Step {
            state: PipelineState {
                stage: Stage::Finished,
                reply: Some(reply),
                breaker_admitted: false,
                ..self
            },
            effects: Effects {
                record: None,
                store_response: false,
                abandon_trial: self.breaker_admitted,
            },
            action: Action::Respond(reply),
        }
    }

    /// The turn that passes `reply` to the first post-proxy plugin at or
    /// after `from`, or ends the request if there is none.
    pub open spec fn answer(
        self,
        plugins: Seq<RegistrationSpec>,
        route: Seq<char>,
        from: int,
        reply: Reply,
    ) -> Step {
        match next_running(plugins, PluginPhase::PostProxy, route, from) {
            Some(at) => Step {
                state: PipelineState {
                    stage: Stage::ResponsePlugin { at: at as usize },
                    reply: Some(reply),
                    breaker_admitted: false,
                    ..self
                },
                effects: Effects {
                    record: None,
                    store_response: false,
                    abandon_trial: self.breaker_admitted,
                },
                action: Action::RunResponseHook { at: at as usize },
            },
            None => self.finish(reply),
        }
    }

    /// Step 9: the backend call.
    pub open spec fn enter_forward(self) -> Step {
        self.turn(Stage::Backend, Action::Forward)
    }

    /// Step 8, from the plugin at `from` on.
    pub open spec fn enter_pre_proxy(
        self,
        plugins: Seq<RegistrationSpec>,
        route: Seq<char>,
        from: int,
    ) -> Step {
        match next_running(plugins, PluginPhase::PreProxy, route, from) {
            Some(at) => self.turn(
                Stage::RequestPlugin { phase: PluginPhase::PreProxy, at: at as usize },
                Action::RunRequestHook { at: at as usize },
            ),
            None => self.enter_forward(),
        }
    }

    /// What follows the breaker: the relay for a WebSocket upgrade, else
    /// step 7 if the route is cached, else step 8.
    pub open spec fn enter_backend_side(self, plugins: Seq<RegistrationSpec>, route: Seq<char>)
        -> Step {
        if self.kind == RequestKind::WebSocket {
            self.turn(Stage::Relay, Action::Relay)
        } else if self.guards.cache {
            self.turn(Stage::CacheLookup, Action::LookupCache)
        } else {
            self.enter_pre_proxy(plugins, route, 0)
        }
    }

    /// Step 6, if the route has a breaker.
    pub open spec fn enter_breaker(self, plugins: Seq<RegistrationSpec>, route: Seq<char>) -> Step {
        if self.guards.circuit_breaker {
            self.turn(Stage::Breaker, Action::CheckBreaker)
        } else {
            self.enter_backend_side(plugins, route)
        }
    }

    /// Step 5, if the route has a rate limit.
    pub open spec fn enter_rate_limit(self, plugins: Seq<RegistrationSpec>, route: Seq<char>)
        -> Step {
        if self.guards.rate_limit {
            self.turn(Stage::RateLimit, Action::CheckRateLimit)
        } else {
            self.enter_breaker(plugins, route)
        }
    }

    /// Step 4, from the plugin at `from` on.
    pub open spec fn enter_post_auth(
        self,
        plugins: Seq<RegistrationSpec>,
        route: Seq<char>,
        from: int,
    ) -> Step {
        match next_running(plugins, PluginPhase::PostAuth, route, from) {
            Some(at) => self.turn(
                Stage::RequestPlugin { phase: PluginPhase::PostAuth, at: at as usize },
                Action::RunRequestHook { at: at as usize },
            ),
            None => self.enter_rate_limit(plugins, route),
        }
    }

    /// Step 2, from the plugin at `from` on, and then step 3.
    pub open spec fn enter_pre_auth(
        self,
        plugins: Seq<RegistrationSpec>,
        route: Seq<char>,
        from: int,
    ) -> Step {
        match next_running(plugins, PluginPhase::PreAuth, route, from) {
            Some(at) => self.turn(
                Stage::RequestPlugin { phase: PluginPhase::PreAuth, at: at as usize },
                Action::RunRequestHook { at: at as usize },
            ),
            None => self.turn(Stage::Auth, Action::Authenticate),
        }
    }

    /// The turn after the request hook at `at` passed the request on.
    pub open spec fn resume_after_hook(
        self,
        plugins: Seq<RegistrationSpec>,
        route: Seq<char>,
        phase: PluginPhase,
        at: usize,
    ) -> Step {
        match phase {
            PluginPhase::PreAuth => self.enter_pre_auth(plugins, route, at + 1),
            PluginPhase::PostAuth => self.enter_post_auth(plugins, route, at + 1),
            PluginPhase::PreProxy => self.enter_pre_proxy(plugins, route, at + 1),
            PluginPhase::PostProxy => self.finish(Reply::Refused(Refusal::Internal)),
        }
    }

    /// The turn after the backend call ended with `outcome`: the outcome
    /// is recorded if the route has a breaker; a response is stored if the
    /// route is cached and the call did not fail; a call that brought no
    /// response ends the request.
    pub open spec fn after_backend(
        self,
        plugins: Seq<RegistrationSpec>,
        route: Seq<char>,
        outcome: BackendOutcome,
    ) -> Step {
        let settled = PipelineState { breaker_admitted: false, ..self };
        let onward = if outcome is Status {
            settled.answer(plugins, route, 0, Reply::Backend)
        } else {
            settled.finish(Reply::Refused(Refusal::BackendFailed))
        };
        Step {
            effects: Effects {
                record: if self.guards.circuit_breaker {
                    Some(outcome)
                } else {
                    None
                },
                store_response: self.guards.cache && outcome is Status && !is_failure(outcome),
                abandon_trial: false,
            },
            ..onward
        }
    }

    /// The turn after the relay ended.
    pub open spec fn after_relay(self, connected: bool) -> Step {
        let settled = PipelineState { breaker_admitted: false, ..self };
        let onward = settled.finish(
            if connected {
                Reply::Relayed
            } else {
                Reply::Refused(Refusal::BackendFailed)
            },
        );
        Step {
            effects: Effects {
                record: if self.guards.circuit_breaker {
                    Some(relay_outcome(connected))
                } else {
                    None
                },
                store_response: false,
                abandon_trial: false,
            },
            ..onward
        }
    }

    /// The answer that the state holds.
    pub open spec fn held_reply(self) -> Reply {
        match self.reply {
            Some(r) => r,
            None => Reply::Refused(Refusal::Internal),
        }
    }

    /// The turn that `event` brings about. An event that does not answer
    /// what the pipeline was waiting for ends the request as an internal
    /// error; a finished request stays finished.
    pub open spec fn next_step(self, plugins: Seq<RegistrationSpec>, route: Seq<char>, event: Event)
        -> Step {
        if self.stage is Finished {
            Step { state: self, effects: no_effects(), action: Action::Respond(self.held_reply()) }
        } else if event is Cancelled {
            self.finish(Reply::Abandoned)
        } else {
            match (self.stage, event) {
                (Stage::RequestPlugin { phase, at }, Event::HookFinished(v)) => match v {
                    HookVerdict::Continue => self.resume_after_hook(plugins, route, phase, at),
                    HookVerdict::Failed => self.resume_after_hook(plugins, route, phase, at),
                    HookVerdict::Terminal => self.answer(plugins, route, 0, Reply::Terminal),
                    HookVerdict::Rejected => self.answer(plugins, route, 0, Reply::Rejected),
                },
                (Stage::Auth, Event::AuthFinished { granted }) => if granted {
                    self.enter_post_auth(plugins, route, 0)
                } else {
                    self.finish(Reply::Refused(Refusal::Unauthenticated))
                },
                (Stage::RateLimit, Event::RateLimitChecked { admitted }) => if admitted {
                    self.enter_breaker(plugins, route)
                } else {
                    self.finish(Reply::Refused(Refusal::RateLimited))
                },
                (Stage::Breaker, Event::BreakerChecked { admitted }) => if admitted {
                    (PipelineState { breaker_admitted: true, ..self }).enter_backend_side(
                        plugins,
                        route,
                    )
                } else {
                    self.finish(Reply::Refused(Refusal::CircuitOpen))
                },
                (Stage::CacheLookup, Event::CacheChecked { hit }) => if hit {
                    self.answer(plugins, route, 0, Reply::Cached)
                } else {
                    self.enter_pre_proxy(plugins, route, 0)
                },
                (Stage::Backend, Event::BackendFinished(outcome)) => self.after_backend(
                    plugins,
                    route,
                    outcome,
                ),
                (Stage::Backend, Event::RequestNotSent) => self.finish(
                    Reply::Refused(Refusal::Internal),
                ),
                (Stage::Relay, Event::RelayFinished { connected }) => self.after_relay(connected),
                (Stage::ResponsePlugin { at }, Event::HookFinished(v)) => if v is Rejected {
                    self.finish(Reply::Rejected)
                } else {
                    self.answer(plugins, route, at + 1, self.held_reply())
                },
                _ => self.finish(Reply::Refused(Refusal::Internal)),
            }
        }
    }

    /// The state in which every request starts.
    pub open spec fn initial(kind: RequestKind, guards: Guards) -> PipelineState {
        PipelineState { kind, guards, stage: Stage::Auth, reply: None, breaker_admitted: false }
    }

    /// The first turn of a request: a request without a route is refused;
    /// a WebSocket upgrade goes to step 5, any other request to step 2.
    pub open spec fn first_step(
        kind: RequestKind,
        guards: Guards,
        route_found: bool,
        plugins: Seq<RegistrationSpec>,
        route: Seq<char>,
    ) -> Step {
        let start = PipelineState::initial(kind, guards);
        if !route_found {
            start.finish(Reply::Refused(Refusal::RouteNotFound))
        } else if kind == RequestKind::WebSocket {
            start.enter_rate_limit(plugins, route)
        } else {
            start.enter_pre_auth(plugins, route, 0)
        }
    }

    fn make_turn(self, stage: Stage, action: Action) -> (r: Step)
        ensures
            r == self.turn(stage, action),
    {
        Step {
            state: PipelineState {
                kind: self.kind,
                guards: self.guards,
                stage,
                reply: self.reply,
                breaker_admitted: self.breaker_admitted,
            },
            effects: Effects { record: None, store_response: false, abandon_trial: false },
            action,
        }
    }

    fn make_finish(self, reply: Reply) -> (r: Step)
        ensures
            r == self.finish(reply),
    {
        Step {
            state: PipelineState {
                kind: self.kind,
                guards: self.guards,
                stage: Stage::Finished,
                reply: Some(reply),
                breaker_admitted: false,
            },
            effects: Effects {
                record: None,
                store_response: false,
                abandon_trial: self.breaker_admitted,
            },
            action: Action::Respond(reply),
        }
    }

    fn make_answer(
        self,
        registry: &PluginRegistry,
        route_path: &str,
        from: Option<usize>,
        reply: Reply,
    ) -> (r: Step)
        ensures
            r == self.answer(registry@, route_path@, position(from, registry@), reply),
    {
        match find_from(registry, PluginPhase::PostProxy, route_path, from) {
            Some(at) => Step {
                state: PipelineState {
                    kind: self.kind,
                    guards: self.guards,
                    stage: Stage::ResponsePlugin { at },
                    reply: Some(reply),
                    breaker_admitted: false,
                },
                effects: Effects {
                    record: None,
                    store_response: false,
                    abandon_trial: self.breaker_admitted,
                },
                action: Action::RunResponseHook { at },
            },
            None => self.make_finish(reply),
        }
    }

    fn go_pre_proxy(self, registry: &PluginRegistry, route_path: &str, from: Option<usize>) -> (r:
        Step)
        ensures
            r == self.enter_pre_proxy(registry@, route_path@, position(from, registry@)),
    {
        match find_from(registry, PluginPhase::PreProxy, route_path, from) {
            Some(at) => self.make_turn(
                Stage::RequestPlugin { phase: PluginPhase::PreProxy, at },
                Action::RunRequestHook { at },
            ),
            None => self.make_turn(Stage::Backend, Action::Forward),
        }
    }

    fn go_backend_side(self, registry: &PluginRegistry, route_path: &str) -> (r: Step)
        ensures
            r == self.enter_backend_side(registry@, route_path@),
    {
        if self.kind == RequestKind::WebSocket {
            self.make_turn(Stage::Relay, Action::Relay)
        } else if self.guards.cache {
            self.make_turn(Stage::CacheLookup, Action::LookupCache)
        } else {
            self.go_pre_proxy(registry, route_path, Some(0))
        }
    }

    fn go_breaker(self, registry: &PluginRegistry, route_path: &str) -> (r: Step)
        ensures
            r == self.enter_breaker(registry@, route_path@),
    {
        if self.guards.circuit_breaker {
            self.make_turn(Stage::Breaker, Action::CheckBreaker)
        } else {
            self.go_backend_side(registry, route_path)
        }
    }

    fn go_rate_limit(self, registry: &PluginRegistry, route_path: &str) -> (r: Step)
        ensures
            r == self.enter_rate_limit(registry@, route_path@),
    {
        if self.guards.rate_limit {
            self.make_turn(Stage::RateLimit, Action::CheckRateLimit)
        } else {
            self.go_breaker(registry, route_path)
        }
    }

    fn go_post_auth(self, registry: &PluginRegistry, route_path: &str, from: Option<usize>) -> (r:
        Step)
        ensures
            r == self.enter_post_auth(registry@, route_path@, position(from, registry@)),
    {
        match find_from(registry, PluginPhase::PostAuth, route_path, from) {
            Some(at) => self.make_turn(
                Stage::RequestPlugin { phase: PluginPhase::PostAuth, at },
                Action::RunRequestHook { at },
            ),
            None => self.go_rate_limit(registry, route_path),
        }
    }

    fn go_pre_auth(self, registry: &PluginRegistry, route_path: &str, from: Option<usize>) -> (r:
        Step)
        ensures
            r == self.enter_pre_auth(registry@, route_path@, position(from, registry@)),
    {
        match find_from(registry, PluginPhase::PreAuth, route_path, from) {
            Some(at) => self.make_turn(
                Stage::RequestPlugin { phase: PluginPhase::PreAuth, at },
                Action::RunRequestHook { at },
            ),
            None => self.make_turn(Stage::Auth, Action::Authenticate),
        }
    }

    fn held(self) -> (r: Reply)
        ensures
            r == self.held_reply(),
    {
        match self.reply {
            Some(r) => r,
            None => Reply::Refused(Refusal::Internal),
        }
    }

    fn settle_backend(self, registry: &PluginRegistry, route_path: &str, outcome: BackendOutcome)
        -> (r: Step)
        ensures
            r == self.after_backend(registry@, route_path@, outcome),
    {
        let settled = PipelineState {
            kind: self.kind,
            guards: self.guards,
            stage: self.stage,
            reply: self.reply,
            breaker_admitted: false,
        };
        let (onward, answered) = match outcome {
            BackendOutcome::Status(_) => (
                settled.make_answer(registry, route_path, Some(0), Reply::Backend),
                true,
            ),
            _ => (settled.make_finish(Reply::Refused(Refusal::BackendFailed)), false),
        };
        Step {
            state: onward.state,
            effects: Effects {
                record: if self.guards.circuit_breaker {
                    Some(outcome)
                } else {
                    None
                },
                store_response: self.guards.cache && answered && !crate::circuit_breaker::classify(
                    outcome,
                ),
                abandon_trial: false,
            },
            action: onward.action,
        }
    }

    fn settle_relay(self, connected: bool) -> (r: Step)
        ensures
            r == self.after_relay(connected),
    {
        let settled = PipelineState {
            kind: self.kind,
            guards: self.guards,
            stage: self.stage,
            reply: self.reply,
            breaker_admitted: false,
        };
        let onward = settled.make_finish(
            if connected {
                Reply::Relayed
            } else {
                Reply::Refused(Refusal::BackendFailed)
            },
        );
        let outcome = if connected {
            BackendOutcome::Status(101)
        } else {
            BackendOutcome::ConnectionError
        };
        Step {
            state: onward.state,
            effects: Effects {
                record: if self.guards.circuit_breaker {
                    Some(outcome)
                } else {
                    None
                },
                store_response: false,
                abandon_trial: false,
            },
            action: onward.action,
        }
    }

    /// Starts a request of `kind` on the route `route_path`, or on no
    /// route if `route_found` is false, and says what to do first.
    pub fn begin(
        kind: RequestKind,
        guards: Guards,
        route_found: bool,
        registry: &PluginRegistry,
        route_path: &str,
    ) -> (r: Step)
        ensures
            r == PipelineState::first_step(kind, guards, route_found, registry@, route_path@),
    {
        let start = PipelineState {
            kind,
            guards,
            stage: Stage::Auth,
            reply: None,
            breaker_admitted: false,
        };
        if !route_found {
            start.make_finish(Reply::Refused(Refusal::RouteNotFound))
        } else if kind == RequestKind::WebSocket {
            start.go_rate_limit(registry, route_path)
        } else {
            start.go_pre_auth(registry, route_path, Some(0))
        }
    }

    /// Takes the event that reports on the last action and says what to
    /// do next.
    pub fn step(self, registry: &PluginRegistry, route_path: &str, event: Event) -> (r: Step)
        ensures
            r == self.next_step(registry@, route_path@, event),
    {
        if self.stage == Stage::Finished {
            return Step {
                state: self,
                effects: Effects { record: None, store_response: false, abandon_trial: false },
                action: Action::Respond(self.held()),
            };
        }
        if event == Event::Cancelled {
            return self.make_finish(Reply::Abandoned);
        }
        let count = registry.len();
        proof {
            // Past the last plugin nothing runs, wherever the search starts.
            assert forall|phase: PluginPhase, from: int| from >= count implies next_running(
                registry@,
                phase,
                route_path@,
                from,
            ) is None by {}
        }
        match (self.stage, event) {
            (Stage::RequestPlugin { phase, at }, Event::HookFinished(v)) => match v {
                HookVerdict::Continue | HookVerdict::Failed => match phase {
                    PluginPhase::PreAuth => self.go_pre_auth(registry, route_path, after(at)),
                    PluginPhase::PostAuth => self.go_post_auth(registry, route_path, after(at)),
                    PluginPhase::PreProxy => self.go_pre_proxy(registry, route_path, after(at)),
                    PluginPhase::PostProxy => self.make_finish(Reply::Refused(Refusal::Internal)),
                },
                HookVerdict::Terminal => self.make_answer(
                    registry,
                    route_path,
                    Some(0),
                    Reply::Terminal,
                ),
                HookVerdict::Rejected => self.make_answer(
                    registry,
                    route_path,
                    Some(0),
                    Reply::Rejected,
                ),
            },
            (Stage::Auth, Event::AuthFinished { granted }) => if granted {
                self.go_post_auth(registry, route_path, Some(0))
            } else {
                self.make_finish(Reply::Refused(Refusal::Unauthenticated))
            },
            (Stage::RateLimit, Event::RateLimitChecked { admitted }) => if admitted {
                self.go_breaker(registry, route_path)
            } else {
                self.make_finish(Reply::Refused(Refusal::RateLimited))
            },
            (Stage::Breaker, Event::BreakerChecked { admitted }) => if admitted {
                let admitted_state = PipelineState {
                    kind: self.kind,
                    guards: self.guards,
                    stage: self.stage,
                    reply: self.reply,
                    breaker_admitted: true,
                };
                admitted_state.go_backend_side(registry, route_path)
            } else {
                self.make_finish(Reply::Refused(Refusal::CircuitOpen))
            },
            (Stage::CacheLookup, Event::CacheChecked { hit }) => if hit {
                self.make_answer(registry, route_path, Some(0), Reply::Cached)
            } else {
                self.go_pre_proxy(registry, route_path, Some(0))
            },
            (Stage::Backend, Event::BackendFinished(outcome)) => self.settle_backend(
                registry,
                route_path,
                outcome,
            ),
            (Stage::Backend, Event::RequestNotSent) => self.make_finish(
                Reply::Refused(Refusal::Internal),
            ),
            (Stage::Relay, Event::RelayFinished { connected }) => self.settle_relay(connected),
            (Stage::ResponsePlugin { at }, Event::HookFinished(v)) => if v
                == HookVerdict::Rejected {
                self.make_finish(Reply::Rejected)
            } else {
                self.make_answer(registry, route_path, after(at), self.held())
            },
            _ => self.make_finish(Reply::Refused(Refusal::Internal)),
        }
    }
}

/// The position that an optional start stands for: itself, or the end of
/// the plugins where there is none.
pub open spec fn position(from: Option<usize>, plugins: Seq<RegistrationSpec>) -> int {
    match from {
        Some(i) => i as int,
        None => plugins.len() as int,
    }
}

/// The position after `at`, if the machine can count that far.
fn after(at: usize) -> (r: Option<usize>)
    ensures
        match r {
            Some(i) => i == at + 1,
            None => at == usize::MAX,
        },
{
    if at < usize::MAX {
        Some(at + 1)
    } else {
        None
    }
}

/// The first plugin at or after `from` that runs in `phase` on the route.
fn find_from(registry: &PluginRegistry, phase: PluginPhase, route_path: &str, from: Option<usize>)
    -> (r: Option<usize>)
    ensures
        match r {
            Some(at) => next_running(registry@, phase, route_path@, position(from, registry@))
                == Some(at as int),
            None => next_running(registry@, phase, route_path@, position(from, registry@))
                is None,
        },
{
    match from {
        Some(i) => registry.next_plugin(phase, route_path, i),
        None => None,
    }
}

/// The request has its answer: only post-proxy plugins and the response
/// are left.
pub open spec fn answered(state: PipelineState) -> bool {
    state.stage is Finished || state.stage is ResponsePlugin
}

/// The action is part of answering: a response hook or the response.
pub open spec fn only_responds(action: Action) -> bool {
    action is RunResponseHook || action is Respond
}

/// The place of a stage in the pipeline.
pub open spec fn stage_rank(stage: Stage) -> int {
    match stage {
        Stage::RequestPlugin { phase: PluginPhase::PreAuth, .. } => 2,
        Stage::Auth => 3,
        Stage::RequestPlugin { phase: PluginPhase::PostAuth, .. } => 4,
        Stage::RateLimit => 5,
        Stage::Breaker => 6,
        Stage::CacheLookup => 7,
        Stage::RequestPlugin { phase: PluginPhase::PreProxy, .. } => 8,
        Stage::Backend => 9,
        Stage::Relay => 9,
        // No request hook runs in the post-proxy phase: a stage never entered.
        Stage::RequestPlugin { phase: PluginPhase::PostProxy, .. } => 0,
        Stage::ResponsePlugin { .. } => 11,
        Stage::Finished => 12,
    }
}

/// The phase of the plugin that a stage waits for.
pub open spec fn stage_phase(stage: Stage) -> PluginPhase {
    match stage {
        Stage::RequestPlugin { phase, .. } => phase,
        _ => PluginPhase::PostProxy,
    }
}

/// The position of the plugin that a stage waits for.
pub open spec fn stage_position(stage: Stage) -> int {
    match stage {
        Stage::RequestPlugin { at, .. } => at as int,
        Stage::ResponsePlugin { at } => at as int,
        _ => 0,
    }
}

/// A state that lies behind the breaker of a guarded route has been let
/// through by it.
pub open spec fn passed_breaker(state: PipelineState) -> bool {
    state.guards.circuit_breaker && (state.stage is CacheLookup || state.stage is Backend
        || state.stage is Relay || state.stage matches Stage::RequestPlugin {
        phase: PluginPhase::PreProxy,
        ..
    }) ==> state.breaker_admitted
}

/// A state that lies behind the rate limiter of a guarded route is not
/// the start of a request.
pub open spec fn behind_rate_limit(stage: Stage) -> bool {
    stage_rank(stage) > 5 && !(stage is Finished)
}

/// A finished request stays finished: every further event is answered
/// with the same response, and nothing more is done.
pub proof fn lemma_finished_is_final(
    state: PipelineState,
    plugins: Seq<RegistrationSpec>,
    route: Seq<char>,
    event: Event,
)
    requires
        state.stage is Finished,
    ensures
        state.next_step(plugins, route, event).state == state,
        state.next_step(plugins, route, event).action == Action::Respond(state.held_reply()),
        state.next_step(plugins, route, event).effects == no_effects(),
{
}

/// Once a request has its answer, nothing but answering follows: no
/// request hook, no check, no backend call, no relay; nothing is recorded
/// with the breaker and nothing is stored in the cache.
pub proof fn lemma_answered_stays_answered(
    state: PipelineState,
    plugins: Seq<RegistrationSpec>,
    route: Seq<char>,
    event: Event,
)
    requires
        answered(state),
    ensures
        answered(state.next_step(plugins, route, event).state),
        only_responds(state.next_step(plugins, route, event).action),
        state.next_step(plugins, route, event).effects.record is None,
        !state.next_step(plugins, route, event).effects.store_response,
{
}

/// No response hook brings a request back: whatever a post-proxy plugin
/// does with the response, short of rejecting it, the request stays
/// answered in the way it was, be that a rejection or anything else.
pub proof fn lemma_reply_is_kept(
    state: PipelineState,
    plugins: Seq<RegistrationSpec>,
    route: Seq<char>,
    v: HookVerdict,
)
    requires
        state.stage is ResponsePlugin,
        state.reply is Some,
        !(v is Rejected),
    ensures
        state.next_step(plugins, route, Event::HookFinished(v)).state.reply == state.reply,
        answered(state.next_step(plugins, route, Event::HookFinished(v)).state),
{
}

/// A request hook that returns a response of its own, or rejects the
/// request, ends the request part of the pipeline: the next action is the
/// response hook of the first post-proxy plugin that runs on the route,
/// or the response itself if there is none, and the request has its
/// answer. By [`lemma_answered_stays_answered`] no later request hook and
/// no backend call follows.
pub proof fn lemma_short_circuit(
    state: PipelineState,
    plugins: Seq<RegistrationSpec>,
    route: Seq<char>,
    v: HookVerdict,
)
    requires
        state.stage is RequestPlugin,
        v is Terminal || v is Rejected,
        plugins.len() <= usize::MAX,
    ensures
        ({
            let next = state.next_step(plugins, route, Event::HookFinished(v));
            let reply = if v is Terminal {
                Reply::Terminal
            } else {
                Reply::Rejected
            };
            &&& answered(next.state)
            &&& next.state.reply == Some(reply)
            &&& next.effects.record is None
            &&& !next.effects.store_response
            &&& match next_running(plugins, PluginPhase::PostProxy, route, 0) {
                Some(at) => next.action == (Action::RunResponseHook { at: at as usize }) && runs(
                    plugins,
                    at,
                    PluginPhase::PostProxy,
                    route,
                ),
                None => next.action == Action::Respond(reply),
            }
        }),
{
    crate::plugins::lemma_next_running_is_first(plugins, PluginPhase::PostProxy, route, 0);
}

/// What the gateway refuses, it refuses at once and with the status of
/// the refusal: a request without a route with 404, a failed
/// authentication with 401, a request over the rate limit with 429, a
/// request that meets an open breaker with 503. The request is finished,
/// so by [`lemma_finished_is_final`] the backend is never called.
pub proof fn lemma_refusals_end_the_request(
    state: PipelineState,
    plugins: Seq<RegistrationSpec>,
    route: Seq<char>,
)
    ensures
        ({
            let first = PipelineState::first_step(state.kind, state.guards, false, plugins, route);
            first.state.stage is Finished && first.action == Action::Respond(
                Reply::Refused(Refusal::RouteNotFound),
            )
        }),
        state.stage is Auth ==> ({
            let next = state.next_step(plugins, route, Event::AuthFinished { granted: false });
            next.state.stage is Finished && next.action == Action::Respond(
                Reply::Refused(Refusal::Unauthenticated),
            )
        }),
        state.stage is RateLimit ==> ({
            let next = state.next_step(plugins, route, Event::RateLimitChecked { admitted: false });
            next.state.stage is Finished && next.action == Action::Respond(
                Reply::Refused(Refusal::RateLimited),
            )
        }),
        state.stage is Breaker ==> ({
            let next = state.next_step(plugins, route, Event::BreakerChecked { admitted: false });
            next.state.stage is Finished && next.action == Action::Respond(
                Reply::Refused(Refusal::CircuitOpen),
            ) && next.effects.record is None
        }),
        Refusal::RouteNotFound.status() == 404,
        Refusal::Unauthenticated.status() == 401,
        Refusal::RateLimited.status() == 429,
        Refusal::CircuitOpen.status() == 503,
        Refusal::BackendFailed.status() == 502,
{
}

/// A cache hit is the answer: the pre-proxy plugins and the backend call
/// are passed over, no outcome is recorded and nothing is stored.
pub proof fn lemma_cache_hit_bypasses_backend(
    state: PipelineState,
    plugins: Seq<RegistrationSpec>,
    route: Seq<char>,
)
    requires
        state.stage is CacheLookup,
    ensures
        ({
            let next = state.next_step(plugins, route, Event::CacheChecked { hit: true });
            &&& answered(next.state)
            &&& only_responds(next.action)
            &&& next.state.reply == Some(Reply::Cached)
            &&& next.effects.record is None
            &&& !next.effects.store_response
        }),
{
}

/// The stages of a request follow the order of the pipeline: a turn never
/// leads to an earlier stage, and where it stays within a plugin phase it
/// leads to a later plugin.
pub proof fn lemma_stages_in_order(
    state: PipelineState,
    plugins: Seq<RegistrationSpec>,
    route: Seq<char>,
    event: Event,
)
    requires
        plugins.len() <= usize::MAX,
    ensures
        ({
            let next = state.next_step(plugins, route, event).state;
            ||| stage_rank(next.stage) > stage_rank(state.stage)
            ||| next.stage is Finished
            ||| (stage_rank(next.stage) == stage_rank(state.stage) && stage_position(next.stage)
                > stage_position(state.stage))
        }),
{
    match state.stage {
        Stage::RequestPlugin { phase, at } => {
            crate::plugins::lemma_next_running_is_first(plugins, phase, route, at + 1);
        },
        Stage::ResponsePlugin { at } => {
            crate::plugins::lemma_next_running_is_first(
                plugins,
                PluginPhase::PostProxy,
                route,
                at + 1,
            );
        },
        _ => {},
    }
}

/// Every hook that the pipeline asks for is due: the plugin exists, it
/// belongs to the phase that the request is in, and its filter accepts
/// the route.
pub proof fn lemma_hooks_are_due(
    state: PipelineState,
    plugins: Seq<RegistrationSpec>,
    route: Seq<char>,
    event: Event,
)
    requires
        plugins.len() <= usize::MAX,
    ensures
        ({
            let next = state.next_step(plugins, route, event);
            &&& next.action matches Action::RunRequestHook { at } ==> {
                &&& at < plugins.len()
                &&& next.state.stage == (Stage::RequestPlugin {
                    phase: stage_phase(next.state.stage),
                    at,
                })
                &&& stage_phase(next.state.stage) != PluginPhase::PostProxy
                &&& runs(plugins, at as int, stage_phase(next.state.stage), route)
            }
            &&& next.action matches Action::RunResponseHook { at } ==> at < plugins.len() && runs(
                plugins,
                at as int,
                PluginPhase::PostProxy,
                route,
            )
        }),
{
    crate::plugins::lemma_next_running_is_first(plugins, PluginPhase::PreAuth, route, 0);
    crate::plugins::lemma_next_running_is_first(plugins, PluginPhase::PostAuth, route, 0);
    crate::plugins::lemma_next_running_is_first(plugins, PluginPhase::PreProxy, route, 0);
    crate::plugins::lemma_next_running_is_first(plugins, PluginPhase::PostProxy, route, 0);
    match state.stage {
        Stage::RequestPlugin { phase, at } => {
            crate::plugins::lemma_next_running_is_first(plugins, phase, route, at + 1);
        },
        Stage::ResponsePlugin { at } => {
            crate::plugins::lemma_next_running_is_first(
                plugins,
                PluginPhase::PostProxy,
                route,
                at + 1,
            );
        },
        _ => {},
    }
}

/// Within a phase, hooks are asked for by ascending priority: the hook
/// that follows another in the same phase belongs to a plugin of no lower
/// priority, and at equal priority to one that was registered later.
pub proof fn lemma_hooks_by_priority(
    state: PipelineState,
    plugins: Seq<RegistrationSpec>,
    route: Seq<char>,
    v: HookVerdict,
)
    requires
        crate::plugins::in_running_order(plugins),
        plugins.len() <= usize::MAX,
        v is Continue || v is Failed,
        state.stage matches Stage::RequestPlugin { phase, at } && at < plugins.len()
            && plugins[at as int].phase == phase,
    ensures
        ({
            let next = state.next_step(plugins, route, Event::HookFinished(v));
            let first = stage_position(state.stage);
            let second = stage_position(next.state.stage);
            next.action is RunRequestHook && stage_rank(next.state.stage) == stage_rank(
                state.stage,
            ) ==> {
                &&& next.action == (Action::RunRequestHook { at: second as usize })
                &&& first < second < plugins.len()
                &&& plugins[first].priority <= plugins[second].priority
                &&& plugins[first].priority == plugins[second].priority ==> plugins[first].id
                    < plugins[second].id
            }
        }),
{
    match state.stage {
        Stage::RequestPlugin { phase, at } => {
            crate::plugins::lemma_next_running_is_first(plugins, phase, route, at + 1);
            crate::plugins::lemma_next_running_is_first(
                plugins,
                PluginPhase::PostAuth,
                route,
                0,
            );
            crate::plugins::lemma_next_running_is_first(plugins, PluginPhase::PreProxy, route, 0);
        },
        _ => {},
    }
}

/// On a route with a breaker, the backend is called, and the relay
/// opened, only for a request that the breaker has let through: a request
/// starts in front of the breaker, every turn keeps it there or takes it
/// past with the breaker's leave, and the backend lies behind the breaker.
pub proof fn lemma_backend_only_past_breaker(
    state: PipelineState,
    plugins: Seq<RegistrationSpec>,
    route: Seq<char>,
    event: Event,
    route_found: bool,
)
    ensures
        passed_breaker(
            PipelineState::first_step(state.kind, state.guards, route_found, plugins, route).state,
        ),
        passed_breaker(state) ==> passed_breaker(state.next_step(plugins, route, event).state),
        ({
            let next = state.next_step(plugins, route, event);
            passed_breaker(state) && state.guards.circuit_breaker && (next.action is Forward
                || next.action is Relay) ==> next.state.breaker_admitted
        }),
{
}

/// The outcome of a backend call is recorded exactly once, on the turn
/// that it is reported, and only on a route with a breaker; a response is
/// stored only on a cached route and only if the call did not fail.
pub proof fn lemma_outcome_is_recorded(
    state: PipelineState,
    plugins: Seq<RegistrationSpec>,
    route: Seq<char>,
    outcome: BackendOutcome,
)
    requires
        state.stage is Backend,
    ensures
        ({
            let next = state.next_step(plugins, route, Event::BackendFinished(outcome));
            &&& next.effects.record == if state.guards.circuit_breaker {
                Some(outcome)
            } else {
                None
            }
            &&& next.effects.store_response ==> state.guards.cache && !is_failure(outcome)
            &&& !next.effects.abandon_trial
            &&& !next.state.breaker_admitted
            &&& answered(next.state)
            &&& outcome is Status ==> next.state.reply == Some(Reply::Backend)
            &&& !(outcome is Status) ==> next.action == Action::Respond(
                Reply::Refused(Refusal::BackendFailed),
            )
        }),
{
}

} // verus!
