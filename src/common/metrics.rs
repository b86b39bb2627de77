//! Timing of operations and metrics export.

use std::time::{SystemTime, UNIX_EPOCH};
use vstd::prelude::*;

verus! {

/// Relies on `SystemTime::now` and `SystemTime::duration_since`: the
/// milliseconds since the Unix epoch, by the system clock; nothing is
/// promised of the value.
#[verifier::external_body]
fn clock_ms() -> (r: u64) {
    SystemTime::now().duration_since(UNIX_EPOCH).map(|d| d.as_millis() as u64).unwrap_or(0)
}

/// Times one named operation.
#[derive(Debug, Clone)]
pub struct Timer {
    /// Clock reading at the start, in milliseconds
    pub start_ms: u64,
    /// Name of the operation
    pub operation: String,
}

/// Milliseconds from `start` to `now`; zero if the clock went back.
pub open spec fn elapsed(start: u64, now: u64) -> u64 {
    if now >= start {
        (now - start) as u64
    } else {
        0
    }
}

impl Timer {
    /// Starts timing an operation.
    pub fn start(operation: String) -> (r: Timer)
        ensures
            r.operation@ == operation@,
    {
        Timer { start_ms: clock_ms(), operation }
    }

    /// Milliseconds elapsed at clock reading `now_ms`.
    pub fn elapsed_at(&self, now_ms: u64) -> (r: u64)
        ensures
            r == elapsed(self.start_ms, now_ms),
    {
        if now_ms >= self.start_ms {
            now_ms - self.start_ms
        } else {
            0
        }
    }

    /// Milliseconds elapsed so far.
    pub fn finish(&self) -> (r: u64) {
        self.elapsed_at(clock_ms())
    }

    /// Milliseconds elapsed so far.
    pub fn finish_ms(&self) -> (r: u64) {
        self.finish()
    }
}

/// A collector that keeps nothing, for tests and tools.
#[derive(Debug, Default, Clone, Copy)]
pub struct InMemoryMetricsCollector;

/// Metrics in Prometheus text format: the type line of the request counter.
pub fn export_prometheus_metrics() -> (r: String)
    ensures
        r@ == "# TYPE scapi_requests_total counter\n"@,
{
    "# TYPE scapi_requests_total counter\n".to_string()
}

/// Metrics as JSON: an empty object.
pub fn export_json_metrics() -> (r: String)
    ensures
        r@ == "{}"@,
{
    "{}".to_string()
}

} // verus!
