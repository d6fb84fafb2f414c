//! The time stamp counter of a PC taken as a clock.

use vstd::prelude::*;

verus! {

/// The counts of the time stamp counter that are taken for a millisecond.
pub const COUNTS_PER_MS: u64 = 1_000_000;

/// The clock.
pub struct Timer {}

impl Timer {
    /// The clock.
    pub fn init() -> Timer {
        Timer {  }
    }

    /// The milliseconds that the reading `timestamp` of the time stamp
    /// counter stands for.
    pub fn elapsed_time_ms_at(&self, timestamp: u64) -> (ms: u64)
        ensures
            ms == timestamp / 1_000_000,
    {
        timestamp / COUNTS_PER_MS
    }
}

} // verus!
