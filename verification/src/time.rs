//! The capabilities of a time source: instants on a monotonic counter,
//! intervals, and one alarm that can be armed for a single instant.

use vstd::prelude::*;
use crate::ranked::Ranked;

verus! {

/// A reading of the monotonic counter. Its rank is its place on the time
/// line.
pub trait Instant: Ranked {
    /// Whether `millis` milliseconds can be added without leaving the
    /// counter's range.
    spec fn can_add_millis(&self, millis: u32) -> bool;

    /// The instant `millis` milliseconds after this one.
    spec fn plus_millis(&self, millis: u32) -> Self;

    /// Adding time never moves an instant back, and adding a positive time
    /// moves it forward.
    proof fn lemma_plus_millis(&self, millis: u32)
        requires
            self.can_add_millis(millis),
        ensures
            self.rank() <= self.plus_millis(millis).rank(),
            millis > 0 ==> self.rank() < self.plus_millis(millis).rank(),
    ;

    /// Whether `millis` milliseconds can be added.
    fn can_add(&self, millis: u32) -> (ok: bool)
        ensures
            ok == self.can_add_millis(millis),
    ;

    /// The instant `millis` milliseconds after this one.
    fn add_millis(&self, millis: u32) -> (later: Self)
        requires
            self.can_add_millis(millis),
        ensures
            later == self.plus_millis(millis),
    ;
}

/// An interval that can be given in whole milliseconds.
pub trait Duration: Copy {
    /// The length of the interval in milliseconds.
    spec fn millis(&self) -> u32;

    /// The interval of `millis` milliseconds, as far as the type can hold it.
    fn from_millis(millis: u32) -> Self;

    /// The length of the interval in milliseconds.
    fn to_millis(&self) -> (millis: u32)
        ensures
            millis == self.millis(),
    ;
}

/// A monotonic counter with one one-shot alarm.
///
/// The contracts describe the source as it is seen inside one critical
/// section: the counter stands still between two calls, and the alarm is
/// either idle or armed for one instant.
pub trait Scheduler<I: Instant, D: Duration> {
    /// The present reading of the counter.
    spec fn counter(&self) -> I;

    /// The instant the alarm is armed for; `None` while it is idle.
    spec fn pending(&self) -> Option<I>;

    /// Reads the counter.
    fn get_counter(&self) -> (now: I)
        ensures
            now == self.counter(),
    ;

    /// Whether the alarm is idle.
    fn finished(&self) -> (idle: bool)
        ensures
            idle == self.pending().is_none(),
    ;

    /// Arms the alarm for `countdown` after the present reading.
    fn schedule(&mut self, countdown: D)
        requires
            old(self).counter().can_add_millis(countdown.millis()),
        ensures
            final(self).counter() == old(self).counter(),
            final(self).pending() == Some(old(self).counter().plus_millis(countdown.millis())),
    ;

    /// Arms the alarm for the instant `at`.
    fn schedule_at(&mut self, at: I)
        ensures
            final(self).counter() == old(self).counter(),
            final(self).pending() == Some(at),
    ;

    /// Clears the alarm's fired flag and leaves the alarm idle.
    fn clear_interrupt(&mut self)
        ensures
            final(self).counter() == old(self).counter(),
            final(self).pending().is_none(),
    ;
}

impl Instant for u32 {
    open spec fn can_add_millis(&self, millis: u32) -> bool {
        *self + millis <= u32::MAX
    }

    open spec fn plus_millis(&self, millis: u32) -> Self {
        (*self + millis) as u32
    }

    proof fn lemma_plus_millis(&self, millis: u32) {
    }

    fn can_add(&self, millis: u32) -> (ok: bool) {
        millis <= u32::MAX - *self
    }

    fn add_millis(&self, millis: u32) -> (later: Self) {
        *self + millis
    }
}

impl Instant for u64 {
    open spec fn can_add_millis(&self, millis: u32) -> bool {
        *self + millis <= u64::MAX
    }

    open spec fn plus_millis(&self, millis: u32) -> Self {
        (*self + millis) as u64
    }

    proof fn lemma_plus_millis(&self, millis: u32) {
    }

    fn can_add(&self, millis: u32) -> (ok: bool) {
        let step: u64 = millis.into();
        step <= u64::MAX - *self
    }

    fn add_millis(&self, millis: u32) -> (later: Self) {
        let step: u64 = millis.into();
        *self + step
    }
}

impl Duration for u32 {
    open spec fn millis(&self) -> u32 {
        *self
    }

    /// A plain number of milliseconds holds every interval exactly.
    fn from_millis(millis: u32) -> (interval: Self)
        ensures
            interval.millis() == millis,
    {
        millis
    }

    fn to_millis(&self) -> (millis: u32) {
        *self
    }
}

} // verus!
