//! A pin and a time source that do nothing but remember what they were
//! told. An engine that runs on them behaves the same way every time, which
//! is what a trial needs.

use vstd::prelude::*;
use crate::led_pins::{Led, LedStatus};
use crate::time::Scheduler;

verus! {

/// An LED that is only a level.
#[derive(Clone, Copy, Debug)]
pub struct MockLed {
    /// The level the LED is at.
    pub led_status: LedStatus,
}

impl MockLed {
    /// An LED at LOW.
    pub fn new() -> (led: Self)
        ensures
            led.led_status == LedStatus::LOW,
    {
        MockLed { led_status: LedStatus::LOW }
    }
}

impl Led for MockLed {
    open spec fn status(&self) -> LedStatus {
        self.led_status
    }

    fn get_status(&self) -> (led_status: LedStatus) {
        self.led_status
    }

    fn set_status(&mut self, led_status: LedStatus) {
        self.led_status = led_status;
    }
}

/// A counter that moves only when it is set, in milliseconds, and an alarm
/// that only remembers the instant it was armed for.
#[derive(Clone, Copy, Debug)]
pub struct MockScheduler {
    /// The reading of the counter.
    pub counter: u32,
    /// The instant the alarm is armed for; `None` while it is idle.
    pub maybe_next_schedule: Option<u32>,
}

impl MockScheduler {
    /// A counter at 0 and an idle alarm.
    pub fn new() -> (scheduler: Self)
        ensures
            scheduler.counter == 0,
            scheduler.maybe_next_schedule.is_none(),
    {
        MockScheduler { counter: 0, maybe_next_schedule: None }
    }
}

impl Scheduler<u32, u32> for MockScheduler {
    open spec fn counter(&self) -> u32 {
        self.counter
    }

    open spec fn pending(&self) -> Option<u32> {
        self.maybe_next_schedule
    }

    fn get_counter(&self) -> (now: u32) {
        self.counter
    }

    fn finished(&self) -> (idle: bool) {
        self.maybe_next_schedule.is_none()
    }

    fn schedule(&mut self, countdown: u32) {
        self.maybe_next_schedule = Some(self.counter + countdown);
    }

    fn schedule_at(&mut self, at: u32) {
        self.maybe_next_schedule = Some(at);
    }

    fn clear_interrupt(&mut self) {
        self.maybe_next_schedule = None;
    }
}

} // verus!
