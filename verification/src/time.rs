//! Points in time and spans of time, both counted in nanoseconds.
use vstd::prelude::*;

verus! {

/// A span of time.
#[derive(Clone, Copy, Debug, PartialEq, Eq, Structural)]
pub struct Duration {
    pub nanos: u128,
}

impl Duration {
    pub fn from_millis(millis: u64) -> (duration: Duration)
        ensures
            duration.nanos == millis * 1_000_000,
    {
        Duration { nanos: millis as u128 * 1_000_000 }
    }
}

/// A point in time, counted from an origin that the caller picks.
#[derive(Clone, Copy, Debug, PartialEq, Eq, Structural)]
pub struct Instant {
    pub nanos: u128,
}

impl core::ops::Add<Duration> for Instant {
    type Output = Instant;

    /// The instant that lies `duration` later.
    fn add(self, duration: Duration) -> (later: Instant) {
        Instant { nanos: self.nanos + duration.nanos }
    }
}

impl vstd::std_specs::ops::AddSpecImpl<Duration> for Instant {
    open spec fn obeys_add_spec() -> bool {
        true
    }

    open spec fn add_req(self, duration: Duration) -> bool {
        self.nanos + duration.nanos <= u128::MAX
    }

    open spec fn add_spec(self, duration: Duration) -> Instant {
        Instant { nanos: (self.nanos + duration.nanos) as u128 }
    }
}

} // verus!
