//! Points in time and spans, in nanoseconds of a monotonic clock.

use vstd::prelude::*;
use vstd::std_specs::ops::{AddSpecImpl, MulSpecImpl};

verus! {

/// A reading of the monotonic clock.
#[derive(Debug, Clone, Copy, PartialEq, Eq, PartialOrd, Ord, Hash, Structural)]
pub struct Instant {
    pub nanos: u64,
}

/// A span of time.
#[derive(Debug, Clone, Copy, PartialEq, Eq, PartialOrd, Ord, Hash, Structural)]
pub struct Duration {
    pub nanos: u64,
}

impl Instant {
    pub fn from_nanos(nanos: u64) -> (at: Instant)
        ensures
            at.nanos == nanos,
    {
        Instant { nanos }
    }
}

impl Duration {
    pub fn from_nanos(nanos: u64) -> (span: Duration)
        ensures
            span.nanos == nanos,
    {
        Duration { nanos }
    }

    pub fn from_millis(millis: u64) -> (span: Duration)
        requires
            millis * 1_000_000 <= u64::MAX,
        ensures
            span.nanos == millis * 1_000_000,
    {
        Duration { nanos: millis * 1_000_000 }
    }

    pub fn from_secs(secs: u64) -> (span: Duration)
        requires
            secs * 1_000_000_000 <= u64::MAX,
        ensures
            span.nanos == secs * 1_000_000_000,
    {
        Duration { nanos: secs * 1_000_000_000 }
    }
}

impl AddSpecImpl<Duration> for Instant {
    open spec fn obeys_add_spec() -> bool {
        true
    }

    open spec fn add_req(self, rhs: Duration) -> bool {
        self.nanos + rhs.nanos <= u64::MAX
    }

    open spec fn add_spec(self, rhs: Duration) -> Instant {
        Instant { nanos: (self.nanos + rhs.nanos) as u64 }
    }
}

impl core::ops::Add<Duration> for Instant {
    type Output = Instant;

    fn add(self, rhs: Duration) -> (at: Instant) {
        Instant { nanos: self.nanos + rhs.nanos }
    }
}

impl MulSpecImpl<u32> for Duration {
    open spec fn obeys_mul_spec() -> bool {
        true
    }

    open spec fn mul_req(self, rhs: u32) -> bool {
        self.nanos * rhs <= u64::MAX
    }

    open spec fn mul_spec(self, rhs: u32) -> Duration {
        Duration { nanos: (self.nanos * rhs) as u64 }
    }
}

impl core::ops::Mul<u32> for Duration {
    type Output = Duration;

    fn mul(self, rhs: u32) -> (span: Duration) {
        Duration { nanos: self.nanos * rhs as u64 }
    }
}

} // verus!
