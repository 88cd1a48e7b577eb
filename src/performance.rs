use vstd::prelude::*;
use std::time::{Duration, Instant};

verus! {

/// std's `Instant`, a reading of the monotonic clock, carried through as it is.
#[verifier::external_type_specification]
#[verifier::external_body]
pub struct ExInstant(Instant);

/// Relies on Instant::now: a reading of the monotonic clock.
#[verifier::external_body]
fn instant_now() -> Instant {
    Instant::now()
}

/// Relies on Instant::elapsed: the time since `t`.
#[verifier::external_body]
fn elapsed_since(t: &Instant) -> Duration {
    t.elapsed()
}

/// Relies on Duration::as_millis: the whole milliseconds of `d`.
#[verifier::external_body]
fn whole_millis(d: &Duration) -> u128 {
    d.as_millis()
}

/// Measures how long something takes.
pub struct Timer {
    start_time: Instant,
}

impl Timer {
    pub fn start() -> Timer {
        Timer { start_time: instant_now() }
    }

    /// Milliseconds since the timer started.
    pub fn elapsed_ms(&self) -> u64 {
        let ms = whole_millis(&elapsed_since(&self.start_time));
        if ms > u64::MAX as u128 {
            u64::MAX
        } else {
            ms as u64
        }
    }
}

/// Times a named operation.
pub struct PerformanceTracker {
    operation_name: String,
    timer: Timer,
}

impl PerformanceTracker {
    pub fn start(operation_name: &str) -> (r: PerformanceTracker)
        ensures
            r.operation_name() == operation_name@,
    {
        PerformanceTracker { operation_name: String::from_str(operation_name), timer: Timer::start() }
    }

    pub closed spec fn operation_name(&self) -> Seq<char> {
        self.operation_name@
    }

    /// The name of the operation.
    pub fn name(&self) -> (r: &str)
        ensures
            r@ == self.operation_name(),
    {
        self.operation_name.as_str()
    }

    /// Milliseconds since the operation started.
    pub fn finish(self) -> u64 {
        self.timer.elapsed_ms()
    }
}

} // verus!
