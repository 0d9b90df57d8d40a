use rustway::circuit_breaker::BackendOutcome;
use rustway::errors::AppError;
use rustway::pipeline::{
    read_hook_result, Action, Effects, Event, Guards, HookVerdict, PipelineState, Refusal, Reply,
    RequestKind, Stage, Step, REJECTION_STATUS,
};
use rustway::plugins::{PluginError, PluginPhase, PluginRegistry, RouteFilter};

const ALL: Guards = Guards { rate_limit: true, circuit_breaker: true, cache: true };
const NONE: Guards = Guards { rate_limit: false, circuit_breaker: false, cache: false };
const QUIET: Effects = Effects { record: None, store_response: false, abandon_trial: false };

fn begin(guards: Guards, registry: &PluginRegistry) -> Step {
    PipelineState::begin(RequestKind::Http, guards, true, registry, "/api")
}

fn next(step: Step, registry: &PluginRegistry, event: Event) -> Step {
    step.state.step(registry, "/api", event)
}

/// Plays the events in order and returns the actions that they brought.
fn play(first: Step, registry: &PluginRegistry, events: &[Event]) -> (Vec<Action>, Step) {
    let mut actions = vec![first.action];
    let mut step = first;
    for e in events {
        step = next(step, registry, *e);
        actions.push(step.action);
    }
    (actions, step)
}

fn two_pre_proxy_and_a_stamp() -> PluginRegistry {
    let mut registry = PluginRegistry::new();
    registry.register("twenty", PluginPhase::PreProxy, 20, RouteFilter::All);
    registry.register("ten", PluginPhase::PreProxy, 10, RouteFilter::All);
    registry.register("stamp", PluginPhase::PostProxy, 1, RouteFilter::All);
    registry
}

#[test]
fn request_without_route_is_refused_with_404() {
    let registry = PluginRegistry::new();
    let step = PipelineState::begin(RequestKind::Http, ALL, false, &registry, "");
    assert_eq!(step.action, Action::Respond(Reply::Refused(Refusal::RouteNotFound)));
    assert_eq!(step.state.stage, Stage::Finished);
    assert_eq!(step.effects, QUIET);
    assert_eq!(Refusal::RouteNotFound.status_code(), 404);
    assert!(matches!(Refusal::RouteNotFound.to_error(), Some(AppError::RouteNotFound)));
}

#[test]
fn stages_follow_the_order_of_the_pipeline() {
    let mut registry = PluginRegistry::new();
    registry.register("pre-auth", PluginPhase::PreAuth, 1, RouteFilter::All);
    registry.register("post-auth", PluginPhase::PostAuth, 1, RouteFilter::All);
    registry.register("pre-proxy", PluginPhase::PreProxy, 1, RouteFilter::All);
    registry.register("post-proxy", PluginPhase::PostProxy, 1, RouteFilter::All);
    let (actions, last) = play(
        begin(ALL, &registry),
        &registry,
        &[
            Event::HookFinished(HookVerdict::Continue),
            Event::AuthFinished { granted: true },
            Event::HookFinished(HookVerdict::Continue),
            Event::RateLimitChecked { admitted: true },
            Event::BreakerChecked { admitted: true },
            Event::CacheChecked { hit: false },
            Event::HookFinished(HookVerdict::Continue),
            Event::BackendFinished(BackendOutcome::Status(200)),
            Event::HookFinished(HookVerdict::Continue),
        ],
    );
    assert_eq!(
        actions,
        vec![
            Action::RunRequestHook { at: 0 },
            Action::Authenticate,
            Action::RunRequestHook { at: 1 },
            Action::CheckRateLimit,
            Action::CheckBreaker,
            Action::LookupCache,
            Action::RunRequestHook { at: 2 },
            Action::Forward,
            Action::RunResponseHook { at: 3 },
            Action::Respond(Reply::Backend),
        ]
    );
    assert_eq!(last.state.stage, Stage::Finished);
    assert_eq!(last.state.reply, Some(Reply::Backend));
}

#[test]
fn route_without_guards_goes_straight_to_the_backend() {
    let registry = PluginRegistry::new();
    let (actions, last) = play(
        begin(NONE, &registry),
        &registry,
        &[
            Event::AuthFinished { granted: true },
            Event::BackendFinished(BackendOutcome::Status(204)),
        ],
    );
    assert_eq!(
        actions,
        vec![Action::Authenticate, Action::Forward, Action::Respond(Reply::Backend)]
    );
    assert_eq!(last.effects, QUIET);
}

#[test]
fn terminal_response_skips_later_plugins_and_the_backend() {
    let registry = two_pre_proxy_and_a_stamp();
    assert_eq!(registry.plugin_at(0).unwrap().name, "ten");
    assert_eq!(registry.plugin_at(1).unwrap().name, "twenty");
    let (actions, at_ten) = play(
        begin(NONE, &registry),
        &registry,
        &[Event::AuthFinished { granted: true }],
    );
    assert_eq!(actions, vec![Action::Authenticate, Action::RunRequestHook { at: 0 }]);
    let (actions, last) = play(
        at_ten,
        &registry,
        &[
            Event::HookFinished(HookVerdict::Terminal),
            Event::HookFinished(HookVerdict::Continue),
        ],
    );
    assert_eq!(
        actions,
        vec![
            Action::RunRequestHook { at: 0 },
            Action::RunResponseHook { at: 2 },
            Action::Respond(Reply::Terminal),
        ]
    );
    assert!(!actions.contains(&Action::RunRequestHook { at: 1 }));
    assert!(!actions.contains(&Action::Forward));
    assert_eq!(last.state.reply, Some(Reply::Terminal));
}

#[test]
fn without_terminal_response_both_plugins_run_in_priority_order() {
    let registry = two_pre_proxy_and_a_stamp();
    let (actions, _) = play(
        begin(NONE, &registry),
        &registry,
        &[
            Event::AuthFinished { granted: true },
            Event::HookFinished(HookVerdict::Continue),
            Event::HookFinished(HookVerdict::Continue),
            Event::BackendFinished(BackendOutcome::Status(200)),
            Event::HookFinished(HookVerdict::Continue),
        ],
    );
    assert_eq!(
        actions,
        vec![
            Action::Authenticate,
            Action::RunRequestHook { at: 0 },
            Action::RunRequestHook { at: 1 },
            Action::Forward,
            Action::RunResponseHook { at: 2 },
            Action::Respond(Reply::Backend),
        ]
    );
}

#[test]
fn rejection_is_a_short_circuit_with_a_reason() {
    let registry = two_pre_proxy_and_a_stamp();
    let (actions, last) = play(
        begin(NONE, &registry),
        &registry,
        &[
            Event::AuthFinished { granted: true },
            Event::HookFinished(HookVerdict::Rejected),
            Event::HookFinished(HookVerdict::Continue),
        ],
    );
    assert_eq!(
        actions,
        vec![
            Action::Authenticate,
            Action::RunRequestHook { at: 0 },
            Action::RunResponseHook { at: 2 },
            Action::Respond(Reply::Rejected),
        ]
    );
    assert_eq!(last.state.stage, Stage::Finished);
    assert_eq!(REJECTION_STATUS, 403);
}

#[test]
fn failed_hook_counts_for_nothing() {
    let registry = two_pre_proxy_and_a_stamp();
    let (actions, _) = play(
        begin(NONE, &registry),
        &registry,
        &[
            Event::AuthFinished { granted: true },
            Event::HookFinished(HookVerdict::Failed),
            Event::HookFinished(HookVerdict::Failed),
            Event::BackendFinished(BackendOutcome::Status(200)),
            Event::HookFinished(HookVerdict::Failed),
        ],
    );
    assert_eq!(
        actions,
        vec![
            Action::Authenticate,
            Action::RunRequestHook { at: 0 },
            Action::RunRequestHook { at: 1 },
            Action::Forward,
            Action::RunResponseHook { at: 2 },
            Action::Respond(Reply::Backend),
        ]
    );
}

#[test]
fn rejection_by_a_response_hook_ends_the_chain() {
    let mut registry = PluginRegistry::new();
    registry.register("one", PluginPhase::PostProxy, 1, RouteFilter::All);
    registry.register("two", PluginPhase::PostProxy, 2, RouteFilter::All);
    let (actions, _) = play(
        begin(NONE, &registry),
        &registry,
        &[
            Event::AuthFinished { granted: true },
            Event::BackendFinished(BackendOutcome::Status(200)),
            Event::HookFinished(HookVerdict::Rejected),
        ],
    );
    assert_eq!(
        actions,
        vec![
            Action::Authenticate,
            Action::Forward,
            Action::RunResponseHook { at: 0 },
            Action::Respond(Reply::Rejected),
        ]
    );
}

#[test]
fn plugins_filtered_out_are_skipped() {
    let mut registry = PluginRegistry::new();
    registry.register("admin", PluginPhase::PreProxy, 1, RouteFilter::Prefix("/admin".to_string()));
    registry.register("all", PluginPhase::PreProxy, 2, RouteFilter::All);
    let (actions, _) = play(
        begin(NONE, &registry),
        &registry,
        &[Event::AuthFinished { granted: true }, Event::HookFinished(HookVerdict::Continue)],
    );
    assert_eq!(
        actions,
        vec![Action::Authenticate, Action::RunRequestHook { at: 1 }, Action::Forward]
    );
}

#[test]
fn failed_authentication_is_refused() {
    let registry = PluginRegistry::new();
    let step = next(begin(ALL, &registry), &registry, Event::AuthFinished { granted: false });
    assert_eq!(step.action, Action::Respond(Reply::Refused(Refusal::Unauthenticated)));
    assert_eq!(step.state.stage, Stage::Finished);
    assert_eq!(Refusal::Unauthenticated.status_code(), 401);
    assert!(Refusal::Unauthenticated.to_error().is_none());
}

#[test]
fn rate_limited_request_is_refused_with_429() {
    let registry = PluginRegistry::new();
    let (actions, last) = play(
        begin(ALL, &registry),
        &registry,
        &[Event::AuthFinished { granted: true }, Event::RateLimitChecked { admitted: false }],
    );
    assert_eq!(
        actions,
        vec![
            Action::Authenticate,
            Action::CheckRateLimit,
            Action::Respond(Reply::Refused(Refusal::RateLimited)),
        ]
    );
    assert_eq!(last.effects, QUIET);
    assert_eq!(Refusal::RateLimited.status_code(), 429);
    assert!(matches!(Refusal::RateLimited.to_error(), Some(AppError::RateLimited)));
}

#[test]
fn open_breaker_refuses_with_503_and_no_backend_call() {
    let registry = PluginRegistry::new();
    let (actions, last) = play(
        begin(ALL, &registry),
        &registry,
        &[
            Event::AuthFinished { granted: true },
            Event::RateLimitChecked { admitted: true },
            Event::BreakerChecked { admitted: false },
            Event::BackendFinished(BackendOutcome::Status(200)),
        ],
    );
    assert_eq!(
        actions,
        vec![
            Action::Authenticate,
            Action::CheckRateLimit,
            Action::CheckBreaker,
            Action::Respond(Reply::Refused(Refusal::CircuitOpen)),
            Action::Respond(Reply::Refused(Refusal::CircuitOpen)),
        ]
    );
    assert_eq!(last.effects, QUIET);
    assert_eq!(Refusal::CircuitOpen.status_code(), 503);
    assert!(matches!(Refusal::CircuitOpen.to_error(), Some(AppError::ServiceUnavailable)));
}

#[test]
fn cache_hit_replays_without_a_backend_call() {
    let registry = two_pre_proxy_and_a_stamp();
    let (actions, last) = play(
        begin(Guards { rate_limit: false, circuit_breaker: false, cache: true }, &registry),
        &registry,
        &[
            Event::AuthFinished { granted: true },
            Event::CacheChecked { hit: true },
            Event::HookFinished(HookVerdict::Continue),
        ],
    );
    assert_eq!(
        actions,
        vec![
            Action::Authenticate,
            Action::LookupCache,
            Action::RunResponseHook { at: 2 },
            Action::Respond(Reply::Cached),
        ]
    );
    assert!(!last.effects.store_response);
    assert_eq!(last.effects.record, None);
}

#[test]
fn cache_hit_gives_up_the_trial_that_the_breaker_started() {
    let registry = PluginRegistry::new();
    let (_, at_cache) = play(
        begin(ALL, &registry),
        &registry,
        &[
            Event::AuthFinished { granted: true },
            Event::RateLimitChecked { admitted: true },
            Event::BreakerChecked { admitted: true },
        ],
    );
    assert_eq!(at_cache.action, Action::LookupCache);
    assert!(at_cache.state.breaker_admitted);
    let hit = next(at_cache, &registry, Event::CacheChecked { hit: true });
    assert_eq!(hit.action, Action::Respond(Reply::Cached));
    assert_eq!(hit.effects, Effects { record: None, store_response: false, abandon_trial: true });
    assert!(!hit.state.breaker_admitted);
}

#[test]
fn successful_backend_call_is_recorded_and_stored() {
    let registry = PluginRegistry::new();
    let (_, at_backend) = play(
        begin(ALL, &registry),
        &registry,
        &[
            Event::AuthFinished { granted: true },
            Event::RateLimitChecked { admitted: true },
            Event::BreakerChecked { admitted: true },
            Event::CacheChecked { hit: false },
        ],
    );
    assert_eq!(at_backend.action, Action::Forward);
    let ok = next(at_backend, &registry, Event::BackendFinished(BackendOutcome::Status(200)));
    assert_eq!(ok.action, Action::Respond(Reply::Backend));
    assert_eq!(
        ok.effects,
        Effects {
            record: Some(BackendOutcome::Status(200)),
            store_response: true,
            abandon_trial: false,
        }
    );
    let not_found =
        next(at_backend, &registry, Event::BackendFinished(BackendOutcome::Status(404)));
    assert_eq!(not_found.effects.record, Some(BackendOutcome::Status(404)));
    assert!(not_found.effects.store_response);
    let broken = next(at_backend, &registry, Event::BackendFinished(BackendOutcome::Status(503)));
    assert_eq!(broken.action, Action::Respond(Reply::Backend));
    assert_eq!(broken.effects.record, Some(BackendOutcome::Status(503)));
    assert!(!broken.effects.store_response);
}

#[test]
fn lost_backend_is_a_502_and_a_recorded_failure() {
    let registry = two_pre_proxy_and_a_stamp();
    let (_, at_backend) = play(
        begin(ALL, &registry),
        &registry,
        &[
            Event::AuthFinished { granted: true },
            Event::RateLimitChecked { admitted: true },
            Event::BreakerChecked { admitted: true },
            Event::CacheChecked { hit: false },
            Event::HookFinished(HookVerdict::Continue),
            Event::HookFinished(HookVerdict::Continue),
        ],
    );
    assert_eq!(at_backend.action, Action::Forward);
    for outcome in [BackendOutcome::ConnectionError, BackendOutcome::Timeout] {
        let step = next(at_backend, &registry, Event::BackendFinished(outcome));
        assert_eq!(step.action, Action::Respond(Reply::Refused(Refusal::BackendFailed)));
        assert_eq!(
            step.effects,
            Effects { record: Some(outcome), store_response: false, abandon_trial: false }
        );
        assert_eq!(step.state.stage, Stage::Finished);
    }
    assert_eq!(Refusal::BackendFailed.status_code(), 502);
    assert!(Refusal::BackendFailed.to_error().is_none());
}

#[test]
fn websocket_upgrade_takes_the_guards_and_then_relays() {
    let registry = two_pre_proxy_and_a_stamp();
    let first = PipelineState::begin(RequestKind::WebSocket, ALL, true, &registry, "/ws");
    let (actions, last) = play(
        first,
        &registry,
        &[
            Event::RateLimitChecked { admitted: true },
            Event::BreakerChecked { admitted: true },
            Event::RelayFinished { connected: true },
        ],
    );
    assert_eq!(
        actions,
        vec![
            Action::CheckRateLimit,
            Action::CheckBreaker,
            Action::Relay,
            Action::Respond(Reply::Relayed),
        ]
    );
    assert_eq!(
        last.effects,
        Effects {
            record: Some(BackendOutcome::Status(101)),
            store_response: false,
            abandon_trial: false,
        }
    );
    let unguarded = PipelineState::begin(RequestKind::WebSocket, NONE, true, &registry, "/ws");
    assert_eq!(unguarded.action, Action::Relay);
    let failed = unguarded.state.step(&registry, "/ws", Event::RelayFinished { connected: false });
    assert_eq!(failed.action, Action::Respond(Reply::Refused(Refusal::BackendFailed)));
    assert_eq!(failed.effects, QUIET);
}

#[test]
fn cancelled_request_ends_with_nothing_recorded() {
    let registry = PluginRegistry::new();
    let (_, at_backend) = play(
        begin(ALL, &registry),
        &registry,
        &[
            Event::AuthFinished { granted: true },
            Event::RateLimitChecked { admitted: true },
            Event::BreakerChecked { admitted: true },
            Event::CacheChecked { hit: false },
        ],
    );
    let gone = next(at_backend, &registry, Event::Cancelled);
    assert_eq!(gone.action, Action::Respond(Reply::Abandoned));
    assert_eq!(gone.effects, Effects { record: None, store_response: false, abandon_trial: true });
    assert_eq!(gone.state.stage, Stage::Finished);
    let early = next(begin(ALL, &registry), &registry, Event::Cancelled);
    assert_eq!(early.effects, QUIET);
    let after = next(gone, &registry, Event::BackendFinished(BackendOutcome::Status(200)));
    assert_eq!(after.action, Action::Respond(Reply::Abandoned));
    assert_eq!(after.effects, QUIET);
}

#[test]
fn event_out_of_turn_is_an_internal_error() {
    let registry = PluginRegistry::new();
    let step = next(begin(ALL, &registry), &registry, Event::CacheChecked { hit: true });
    assert_eq!(step.action, Action::Respond(Reply::Refused(Refusal::Internal)));
    assert_eq!(step.state.stage, Stage::Finished);
    assert_eq!(Refusal::Internal.status_code(), 500);
    assert!(matches!(Refusal::Internal.to_error(), Some(AppError::InternalServerError)));
}

#[test]
fn hook_results_are_read() {
    assert_eq!(read_hook_result(&Ok(false)), HookVerdict::Continue);
    assert_eq!(read_hook_result(&Ok(true)), HookVerdict::Terminal);
    assert_eq!(
        read_hook_result(&Err(PluginError::Rejected("no".to_string()))),
        HookVerdict::Rejected
    );
    assert_eq!(
        read_hook_result(&Err(PluginError::Execution("io".to_string()))),
        HookVerdict::Failed
    );
    assert_eq!(read_hook_result(&Err(PluginError::Config("x".to_string()))), HookVerdict::Failed);
}

#[test]
fn request_that_cannot_be_sent_is_an_internal_error() {
    let registry = PluginRegistry::new();
    let (_, at_backend) = play(
        begin(ALL, &registry),
        &registry,
        &[
            Event::AuthFinished { granted: true },
            Event::RateLimitChecked { admitted: true },
            Event::BreakerChecked { admitted: true },
            Event::CacheChecked { hit: false },
        ],
    );
    let step = next(at_backend, &registry, Event::RequestNotSent);
    assert_eq!(step.action, Action::Respond(Reply::Refused(Refusal::Internal)));
    assert_eq!(step.effects, Effects { record: None, store_response: false, abandon_trial: true });
}

#[test]
fn short_circuit_behind_the_breaker_gives_up_the_trial() {
    let registry = two_pre_proxy_and_a_stamp();
    let (_, at_ten) = play(
        begin(Guards { rate_limit: false, circuit_breaker: true, cache: false }, &registry),
        &registry,
        &[Event::AuthFinished { granted: true }, Event::BreakerChecked { admitted: true }],
    );
    assert_eq!(at_ten.action, Action::RunRequestHook { at: 0 });
    assert!(at_ten.state.breaker_admitted);
    let ended = next(at_ten, &registry, Event::HookFinished(HookVerdict::Terminal));
    assert_eq!(ended.action, Action::RunResponseHook { at: 2 });
    assert_eq!(ended.effects, Effects { record: None, store_response: false, abandon_trial: true });
    let last = next(ended, &registry, Event::HookFinished(HookVerdict::Continue));
    assert_eq!(last.action, Action::Respond(Reply::Terminal));
    assert_eq!(last.effects, QUIET);
}

#[test]
fn rejection_before_the_breaker_leaves_it_alone() {
    let mut registry = PluginRegistry::new();
    registry.register("gate", PluginPhase::PreAuth, 1, RouteFilter::All);
    let first = begin(ALL, &registry);
    assert_eq!(first.action, Action::RunRequestHook { at: 0 });
    let ended = next(first, &registry, Event::HookFinished(HookVerdict::Rejected));
    assert_eq!(ended.action, Action::Respond(Reply::Rejected));
    assert_eq!(ended.effects, QUIET);
}
