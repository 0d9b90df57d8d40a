//! Gateway counters and their text exposition.
//!
//! [`CustomMetrics`] is a plain value: eight counters that only the owner
//! can change. Sharing one instance between tasks is the caller's business.

use crate::text::{decimal_digits, opt_view, push_decimal};
use vstd::prelude::*;
use vstd::string::*;

verus! {

/// The counters of a gateway process.
#[derive(Clone, Copy, PartialEq, Eq, Debug, Structural)]
pub struct CustomMetrics {
    pub requests_total: u64,
    pub requests_success: u64,
    pub requests_error: u64,
    pub cache_hits: u64,
    pub cache_misses: u64,
    pub rate_limited: u64,
    pub circuit_breaker_open: u64,
    pub websocket_connections: u64,
}

/// The counter after `n`; the largest value is followed by zero.
pub open spec fn next_count(n: u64) -> u64 {
    if n == u64::MAX {
        0
    } else {
        (n + 1) as u64
    }
}

/// The count before `n`; zero is preceded by the largest value.
pub open spec fn previous_count(n: u64) -> u64 {
    if n == 0 {
        u64::MAX
    } else {
        (n - 1) as u64
    }
}

/// The exposition of one metric: its help line, its type line and its
/// sample, each ended by a line feed.
pub open spec fn metric_text(name: Seq<char>, help: Seq<char>, kind: Seq<char>, value: u64) -> Seq<
    char,
> {
    "# HELP "@ + name + " "@ + help + "\n"@ + "# TYPE "@ + name + " "@ + kind + "\n"@ + name + " "@
        + decimal_digits(value as nat) + "\n"@
}

fn step_up(n: u64) -> (r: u64)
    ensures
        r == next_count(n),
{
    if n == u64::MAX {
        0
    } else {
        n + 1
    }
}

fn step_down(n: u64) -> (r: u64)
    ensures
        r == previous_count(n),
{
    if n == 0 {
        u64::MAX
    } else {
        n - 1
    }
}

/// Appends the exposition of one metric to `out`.
fn push_metric(out: &mut String, name: &str, help: &str, kind: &str, value: u64)
    ensures
        final(out)@ == old(out)@ + metric_text(name@, help@, kind@, value),
{
    out.append("# HELP ");
    out.append(name);
    out.append(" ");
    out.append(help);
    out.append("\n");
    out.append("# TYPE ");
    out.append(name);
    out.append(" ");
    out.append(kind);
    out.append("\n");
    out.append(name);
    out.append(" ");
    push_decimal(out, value);
    out.append("\n");
    assert(out@ =~= old(out)@ + metric_text(name@, help@, kind@, value));
}

impl CustomMetrics {
    /// The text that [`CustomMetrics::render`] produces.
    pub open spec fn render_text(&self) -> Seq<char> {
        metric_text(
            "gateway_requests_total"@,
            "Total requests"@,
            "counter"@,
            self.requests_total,
        ) + metric_text(
            "gateway_requests_success"@,
            "Successful requests"@,
            "counter"@,
            self.requests_success,
        ) + metric_text(
            "gateway_requests_error"@,
            "Error requests"@,
            "counter"@,
            self.requests_error,
        ) + metric_text("gateway_cache_hits"@, "Cache hits"@, "counter"@, self.cache_hits)
            + metric_text("gateway_cache_misses"@, "Cache misses"@, "counter"@, self.cache_misses)
            + metric_text(
            "gateway_rate_limited"@,
            "Rate limited requests"@,
            "counter"@,
            self.rate_limited,
        ) + metric_text(
            "gateway_circuit_breaker_open"@,
            "Circuit breaker open events"@,
            "counter"@,
            self.circuit_breaker_open,
        ) + metric_text(
            "gateway_websocket_connections"@,
            "Active WebSocket connections"@,
            "gauge"@,
            self.websocket_connections,
        )
    }

    /// All counters at zero.
    pub fn new() -> (r: CustomMetrics)
        ensures
            r == (CustomMetrics {
                requests_total: 0,
                requests_success: 0,
                requests_error: 0,
                cache_hits: 0,
                cache_misses: 0,
                rate_limited: 0,
                circuit_breaker_open: 0,
                websocket_connections: 0,
            }),
    {
        CustomMetrics {
            requests_total: 0,
            requests_success: 0,
            requests_error: 0,
            cache_hits: 0,
            cache_misses: 0,
            rate_limited: 0,
            circuit_breaker_open: 0,
            websocket_connections: 0,
        }
    }

    /// Counts one request received.
    pub fn inc_requests_total(&mut self)
        ensures
            *final(self) == (CustomMetrics {
                requests_total: next_count(old(self).requests_total),
                ..*old(self)
            }),
    {
        self.requests_total = step_up(self.requests_total);
    }

    /// Counts one request that succeeded.
    pub fn inc_requests_success(&mut self)
        ensures
            *final(self) == (CustomMetrics {
                requests_success: next_count(old(self).requests_success),
                ..*old(self)
            }),
    {
        self.requests_success = step_up(self.requests_success);
    }

    /// Counts one request that failed.
    pub fn inc_requests_error(&mut self)
        ensures
            *final(self) == (CustomMetrics {
                requests_error: next_count(old(self).requests_error),
                ..*old(self)
            }),
    {
        self.requests_error = step_up(self.requests_error);
    }

    /// Counts one response served from the cache.
    pub fn inc_cache_hits(&mut self)
        ensures
            *final(self) == (CustomMetrics {
                cache_hits: next_count(old(self).cache_hits),
                ..*old(self)
            }),
    {
        self.cache_hits = step_up(self.cache_hits);
    }

    /// Counts one lookup that the cache could not answer.
    pub fn inc_cache_misses(&mut self)
        ensures
            *final(self) == (CustomMetrics {
                cache_misses: next_count(old(self).cache_misses),
                ..*old(self)
            }),
    {
        self.cache_misses = step_up(self.cache_misses);
    }

    /// Counts one request that the rate limiter turned away.
    pub fn inc_rate_limited(&mut self)
        ensures
            *final(self) == (CustomMetrics {
                rate_limited: next_count(old(self).rate_limited),
                ..*old(self)
            }),
    {
        self.rate_limited = step_up(self.rate_limited);
    }

    /// Counts one request that met an open circuit breaker.
    pub fn inc_circuit_breaker_open(&mut self)
        ensures
            *final(self) == (CustomMetrics {
                circuit_breaker_open: next_count(old(self).circuit_breaker_open),
                ..*old(self)
            }),
    {
        self.circuit_breaker_open = step_up(self.circuit_breaker_open);
    }

    /// Counts one WebSocket connection opened.
    pub fn inc_websocket_connections(&mut self)
        ensures
            *final(self) == (CustomMetrics {
                websocket_connections: next_count(old(self).websocket_connections),
                ..*old(self)
            }),
    {
        self.websocket_connections = step_up(self.websocket_connections);
    }

    /// Counts one WebSocket connection closed.
    pub fn dec_websocket_connections(&mut self)
        ensures
            *final(self) == (CustomMetrics {
                websocket_connections: previous_count(old(self).websocket_connections),
                ..*old(self)
            }),
    {
        self.websocket_connections = step_down(self.websocket_connections);
    }

    /// The counters in the Prometheus text exposition format.
    pub fn render(&self) -> (r: String)
        ensures
            r@ == self.render_text(),
    {
        let mut out = String::new();
        push_metric(
            &mut out,
            "gateway_requests_total",
            "Total requests",
            "counter",
            self.requests_total,
        );
        push_metric(
            &mut out,
            "gateway_requests_success",
            "Successful requests",
            "counter",
            self.requests_success,
        );
        push_metric(
            &mut out,
            "gateway_requests_error",
            "Error requests",
            "counter",
            self.requests_error,
        );
        push_metric(&mut out, "gateway_cache_hits", "Cache hits", "counter", self.cache_hits);
        push_metric(&mut out, "gateway_cache_misses", "Cache misses", "counter", self.cache_misses);
        push_metric(
            &mut out,
            "gateway_rate_limited",
            "Rate limited requests",
            "counter",
            self.rate_limited,
        );
        push_metric(
            &mut out,
            "gateway_circuit_breaker_open",
            "Circuit breaker open events",
            "counter",
            self.circuit_breaker_open,
        );
        push_metric(
            &mut out,
            "gateway_websocket_connections",
            "Active WebSocket connections",
            "gauge",
            self.websocket_connections,
        );
        assert(out@ =~= self.render_text());
        out
    }
}

/// The text of the metrics endpoint: what the exporter rendered, if there
/// is one, then an empty line, then the gateway's own counters.
pub open spec fn exposition_text(exported: Option<Seq<char>>, counters: CustomMetrics) -> Seq<
    char,
> {
    match exported {
        Some(text) => text + "\n"@ + counters.render_text(),
        None => counters.render_text(),
    }
}

/// The text of the metrics endpoint, from what the exporter rendered and
/// the gateway's own counters.
pub fn render_exposition(exported: Option<&str>, counters: &CustomMetrics) -> (r: String)
    ensures
        r@ == exposition_text(opt_view(exported), *counters),
{
    let mut out = String::new();
    match exported {
        Some(text) => {
            out.append(text);
            out.append("\n");
        },
        None => {},
    }
    let own = counters.render();
    out.append(own.as_str());
    assert(out@ =~= exposition_text(opt_view(exported), *counters));
    out
}

} // verus!
