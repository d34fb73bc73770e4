//! Time values used by the scheduler: both are counts of nanoseconds.

use vstd::prelude::*;

verus! {

/// Length of a span of time.
#[derive(Debug, Clone, Copy, PartialEq, Eq, Structural)]
pub struct Duration {
    pub nanos: u128,
}

/// Point in time, measured from the start of the clock.
#[derive(Debug, Clone, Copy, PartialEq, Eq, Structural)]
pub struct Instant {
    pub nanos: u128,
}

/// `value` capped at the largest `u128`.
pub open spec fn cap_u128(value: int) -> u128 {
    if value > u128::MAX {
        u128::MAX
    } else {
        value as u128
    }
}

/// Product of two values, capped at the largest `u128`.
pub fn saturating_mul(a: u128, b: u128) -> (product: u128)
    ensures
        product == cap_u128(a * b),
{
    match a.checked_mul(b) {
        Some(product) => product,
        None => u128::MAX,
    }
}

impl Duration {
    pub fn from_nanos(nanos: u64) -> (duration: Self)
        ensures
            duration.nanos == nanos,
    {
        Duration { nanos: nanos as u128 }
    }

    pub fn from_micros(micros: u64) -> (duration: Self)
        ensures
            duration.nanos == micros * 1_000,
    {
        Duration { nanos: micros as u128 * 1_000 }
    }

    pub fn from_millis(millis: u64) -> (duration: Self)
        ensures
            duration.nanos == millis * 1_000_000,
    {
        Duration { nanos: millis as u128 * 1_000_000 }
    }

    pub fn as_nanos(self) -> (nanos: u128)
        ensures
            nanos == self.nanos,
    {
        self.nanos
    }

    /// Sum of two durations, capped at the longest one.
    pub fn saturating_add(self, other: Duration) -> (sum: Duration)
        ensures
            sum.nanos == cap_u128(self.nanos + other.nanos),
    {
        Duration { nanos: self.nanos.saturating_add(other.nanos) }
    }
}

impl Instant {
    /// Time that passed since `earlier`.
    pub fn duration_since(self, earlier: Instant) -> (duration: Duration)
        requires
            earlier.nanos <= self.nanos,
        ensures
            duration.nanos == self.nanos - earlier.nanos,
    {
        Duration { nanos: self.nanos - earlier.nanos }
    }

    /// The instant `duration` later, if it can be represented.
    pub fn checked_add(self, duration: Duration) -> (later: Option<Instant>)
        ensures
            match later {
                Some(at) => at.nanos == self.nanos + duration.nanos,
                None => self.nanos + duration.nanos > u128::MAX,
            },
    {
        match self.nanos.checked_add(duration.nanos) {
            Some(nanos) => Some(Instant { nanos }),
            None => None,
        }
    }
}

/// How long a wait of `timeout_ns` listens; the largest value has no limit.
pub open spec fn wait_limit(timeout_ns: usize) -> Option<Duration> {
    if timeout_ns == usize::MAX {
        None
    } else {
        Some(Duration { nanos: timeout_ns as u128 })
    }
}

/// How long to listen for what a wait of `timeout_ns` waits for.
pub fn listen_for(timeout_ns: usize) -> (limit: Option<Duration>)
    ensures
        limit == wait_limit(timeout_ns),
{
    if timeout_ns == usize::MAX {
        None
    } else {
        Some(Duration { nanos: timeout_ns as u128 })
    }
}

} // verus!
