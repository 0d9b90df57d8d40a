//! The request pipeline of an HTTP and WebSocket gateway.
//!
//! A gateway takes a request, finds the route it belongs to, and lets it
//! pass a row of guards before it hands it to a backend: plugins,
//! authentication, a rate limiter, a circuit breaker and a response cache.
//! This crate is the part of that which decides. It holds no socket and
//! reads no clock: every function takes what it needs as plain values, the
//! time included, and says in its contract exactly what it returns.
//!
//! - [`config`] resolves a request path against the routing table, longest
//!   prefix first, and swaps the table as a whole on reload.
//! - [`rate_limiter`] is the token bucket, and the buckets by key.
//! - [`circuit_breaker`] is the breaker of a route, and the breakers by
//!   route.
//! - [`cache`] keeps responses for a time and for a number of entries.
//! - [`plugins`] orders the plugins and reads the outcome of their hooks.
//! - [`pipeline`] is the order of all this for one request: a state machine
//!   that names the next thing to do and takes the event that reports it.
//! - [`guards`] puts the questions of the pipeline to the limiter, the
//!   breaker and the cache, and does the bookkeeping of a turn.
//! - [`proxy`] computes where a request is forwarded and how WebSocket
//!   frames are relayed.
//! - [`errors`], [`logging`] and [`metrics`] say how failures are answered,
//!   what is logged and what is counted.
//! - [`text`] and [`keyed`] are the helpers that the others stand on.

pub mod cache;
pub mod circuit_breaker;
pub mod config;
pub mod config_path;
pub mod errors;
pub mod guards;
pub mod keyed;
pub mod logging;
pub mod metrics;
pub mod pipeline;
pub mod plugins;
pub mod proxy;
pub mod rate_limiter;
mod shared;
pub mod text;
