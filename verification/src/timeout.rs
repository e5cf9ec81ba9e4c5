//! Lengths of time for bounded waits.

use vstd::prelude::*;

verus! {

/// Nanoseconds in a second.
pub const NANOS_PER_SEC: u32 = 1_000_000_000;

/// A length of time: whole seconds and the nanoseconds beyond them.
#[derive(Clone, Copy, Debug, PartialEq, Eq, Structural)]
pub struct TimeSpan {
    pub secs: u64,
    pub nanos: u32,
}

impl TimeSpan {
    /// The nanoseconds stay below one second.
    pub open spec fn wf(self) -> bool {
        self.nanos < NANOS_PER_SEC
    }

    /// The length in nanoseconds.
    pub open spec fn total_nanos(self) -> nat {
        (self.secs * NANOS_PER_SEC + self.nanos) as nat
    }

    /// A span of whole seconds.
    pub fn from_secs(secs: u64) -> (r: Self)
        ensures
            r.wf(),
            r.total_nanos() == secs * NANOS_PER_SEC,
    {
        TimeSpan { secs, nanos: 0 }
    }

    /// A span of milliseconds.
    pub fn from_millis(millis: u64) -> (r: Self)
        ensures
            r.wf(),
            r.total_nanos() == millis * 1_000_000,
    {
        let secs: u64 = millis / 1000;
        let rest: u64 = millis % 1000;
        let nanos: u32 = (rest * 1_000_000) as u32;
        TimeSpan { secs, nanos }
    }

    /// Tells whether the span has no length.
    pub fn is_zero(&self) -> (r: bool)
        requires
            self.wf(),
        ensures
            r == (self.total_nanos() == 0),
    {
        self.secs == 0 && self.nanos == 0
    }
}

} // verus!
