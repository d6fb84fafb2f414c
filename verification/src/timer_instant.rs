//! Time as the board's timer counts it: instants and intervals in
//! microseconds, computed by the `fugit` crate.

use vstd::prelude::*;
use crate::ranked::Ranked;
use crate::time::{Duration, Instant};

verus! {

/// The first tick count that an instant cannot have: from here on `fugit`
/// takes a counter to have wrapped.
pub const TICKS_END: u64 = 0x8000_0000_0000_0000;

/// The number of ticks in a millisecond.
pub const TICKS_PER_MILLI: u32 = 1000;

/// Adds `millis` milliseconds to an instant of `ticks` microseconds and gives
/// the ticks of the sum.
///
/// Calls `fugit::Duration::<u32, 1, 1_000_000>::millis`, which multiplies by
/// 1000 in `u32` (hence the bound on `millis`), and `+` of
/// `fugit::Instant<u64, 1, 1_000_000>` with such a duration, which adds the
/// ticks and wraps at the width of `u64`.
#[verifier::external_body]
fn fugit_add_millis(ticks: u64, millis: u32) -> (sum: u64)
    requires
        millis * 1000 <= u32::MAX,
    ensures
        sum == (ticks + millis * 1000) % 0x1_0000_0000_0000_0000,
{
    let at = fugit::Instant::<u64, 1, 1_000_000>::from_ticks(ticks);
    let step = fugit::Duration::<u32, 1, 1_000_000>::millis(millis);
    (at + step).ticks()
}

/// Whether the instant of `a` microseconds is before the instant of `b`.
///
/// Calls `<` of `fugit::Instant<u64, 1, 1_000_000>`, which goes by the
/// difference of the ticks taken modulo 2^64: `a` is before `b` where the
/// two differ and that difference is above half the range.
#[verifier::external_body]
fn fugit_before(a: u64, b: u64) -> (before: bool)
    ensures
        before == (a != b && (a - b) % 0x1_0000_0000_0000_0000 > u64::MAX / 2),
{
    fugit::Instant::<u64, 1, 1_000_000>::from_ticks(a) < fugit::Instant::<u64, 1, 1_000_000>::from_ticks(b)
}

/// The whole milliseconds in an interval of `ticks` microseconds.
///
/// Calls `fugit::Duration::<u32, 1, 1_000_000>::to_millis`, which divides
/// the ticks by 1000.
#[verifier::external_body]
fn fugit_to_millis(ticks: u32) -> (millis: u32)
    ensures
        millis == ticks / 1000,
{
    fugit::Duration::<u32, 1, 1_000_000>::from_ticks(ticks).to_millis()
}

/// The microseconds in an interval of `millis` milliseconds.
///
/// Calls `fugit::Duration::<u32, 1, 1_000_000>::millis`, which multiplies by
/// 1000 in `u32`.
#[verifier::external_body]
fn fugit_millis(millis: u32) -> (ticks: u32)
    requires
        millis * 1000 <= u32::MAX,
    ensures
        ticks == millis * 1000,
{
    fugit::Duration::<u32, 1, 1_000_000>::millis(millis).ticks()
}

/// An instant of the board's timer: microseconds since it started, below
/// `TICKS_END`.
#[derive(Clone, Copy, PartialEq, Eq, Debug)]
pub struct TimerInstant {
    ticks: u64,
}

impl TimerInstant {
    /// The microseconds since the timer started.
    pub closed spec fn spec_ticks(&self) -> u64 {
        self.ticks
    }

    #[verifier::type_invariant]
    closed spec fn below_end(&self) -> bool {
        self.ticks < TICKS_END
    }

    /// The instant `ticks` microseconds after the timer started; `None`
    /// where `ticks` is not below `TICKS_END`.
    pub fn from_ticks(ticks: u64) -> (at: Option<TimerInstant>)
        ensures
            ticks < TICKS_END ==> at.is_some() && at.unwrap().spec_ticks() == ticks,
            ticks >= TICKS_END ==> at.is_none(),
    {
        if ticks < TICKS_END {
            Some(TimerInstant { ticks })
        } else {
            None
        }
    }

    /// The microseconds since the timer started.
    pub fn ticks(&self) -> (ticks: u64)
        ensures
            ticks == self.spec_ticks(),
            ticks < TICKS_END,
    {
        proof {
            use_type_invariant(self);
        }
        self.ticks
    }
}

impl Ranked for TimerInstant {
    closed spec fn rank(&self) -> int {
        self.ticks as int
    }

    fn ranks_before(&self, other: &Self) -> (b: bool) {
        proof {
            use_type_invariant(self);
            use_type_invariant(other);
        }
        fugit_before(self.ticks, other.ticks)
    }
}

impl Instant for TimerInstant {
    closed spec fn can_add_millis(&self, millis: u32) -> bool {
        &&& millis * 1000 <= u32::MAX
        &&& self.ticks + millis * 1000 < TICKS_END
    }

    closed spec fn plus_millis(&self, millis: u32) -> Self {
        TimerInstant { ticks: (self.ticks + millis * 1000) as u64 }
    }

    proof fn lemma_plus_millis(&self, millis: u32) {
    }

    /// Whether the microseconds of `millis` milliseconds fit in `u32` and the
    /// sum stays below `TICKS_END`.
    fn can_add(&self, millis: u32) -> (ok: bool) {
        proof {
            use_type_invariant(self);
        }
        if millis <= u32::MAX / TICKS_PER_MILLI {
            let step: u64 = (millis * TICKS_PER_MILLI) as u64;
            step < TICKS_END - self.ticks
        } else {
            false
        }
    }

    fn add_millis(&self, millis: u32) -> (later: Self) {
        TimerInstant { ticks: fugit_add_millis(self.ticks, millis) }
    }
}

impl TimerInstant {
    /// What the order and the sum of instants are in ticks.
    pub proof fn lemma_ticks(&self, millis: u32)
        ensures
            self.rank() == self.spec_ticks(),
            self.can_add_millis(millis) <==> millis * 1000 <= u32::MAX && self.spec_ticks() + millis
                * 1000 < TICKS_END,
            self.can_add_millis(millis) ==> self.plus_millis(millis).spec_ticks()
                == self.spec_ticks() + millis * 1000,
    {
    }
}

/// An interval in microseconds.
#[derive(Clone, Copy, PartialEq, Eq, Debug)]
pub struct TimerDuration {
    ticks: u32,
}

impl TimerDuration {
    /// The length of the interval in microseconds.
    pub closed spec fn spec_ticks(&self) -> u32 {
        self.ticks
    }

    /// The interval of `ticks` microseconds.
    pub fn from_ticks(ticks: u32) -> (interval: TimerDuration)
        ensures
            interval.spec_ticks() == ticks,
    {
        TimerDuration { ticks }
    }

    /// The length of the interval in microseconds.
    pub fn ticks(&self) -> (ticks: u32)
        ensures
            ticks == self.spec_ticks(),
    {
        self.ticks
    }

    /// The interval has the whole milliseconds of its microseconds.
    pub proof fn lemma_millis(&self)
        ensures
            self.millis() == self.spec_ticks() / 1000,
    {
    }
}

impl Duration for TimerDuration {
    closed spec fn millis(&self) -> u32 {
        self.ticks / 1000
    }

    /// The interval of `millis` milliseconds; the longest interval where
    /// that many microseconds do not fit.
    fn from_millis(millis: u32) -> (interval: Self)
        ensures
            millis * 1000 <= u32::MAX ==> interval.spec_ticks() == millis * 1000,
            millis * 1000 > u32::MAX ==> interval.spec_ticks() == u32::MAX,
    {
        if millis <= u32::MAX / TICKS_PER_MILLI {
            TimerDuration { ticks: fugit_millis(millis) }
        } else {
            TimerDuration { ticks: u32::MAX }
        }
    }

    fn to_millis(&self) -> (millis: u32) {
        fugit_to_millis(self.ticks)
    }
}

} // verus!
