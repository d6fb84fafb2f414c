use alarm_mux::led_pins::{Command, Led, LedMode, LedPins, LedStatus, ScheduledPinsCommand};
use alarm_mux::ranked::Ranked;
use alarm_mux::time::{Duration, Instant, Scheduler};
use alarm_mux::timer_instant::{TimerDuration, TimerInstant, TICKS_END};

fn at(ticks: u64) -> TimerInstant {
    TimerInstant::from_ticks(ticks).unwrap()
}

#[test]
fn instants_are_microseconds() {
    assert_eq!(at(5).ticks(), 5);
    assert_eq!(at(5).add_millis(10).ticks(), 10_005);
    assert_eq!(at(5).add_millis(0), at(5));
    assert_eq!(at(0).add_millis(4_294_967).ticks(), 4_294_967_000);
    assert_eq!(at(TICKS_END - 1001).add_millis(1).ticks(), TICKS_END - 1);
}

#[test]
fn an_instant_says_what_can_be_added() {
    assert!(at(0).can_add(4_294_967));
    assert!(!at(0).can_add(4_294_968));
    assert!(at(TICKS_END - 1001).can_add(1));
    assert!(!at(TICKS_END - 1000).can_add(1));
    assert!(at(TICKS_END - 1).can_add(0));
    assert!(7u32.can_add(u32::MAX - 7));
    assert!(!7u32.can_add(u32::MAX - 6));
    assert!(7u64.can_add(u32::MAX));
    assert!(!(u64::MAX - 5).can_add(6));
}

#[test]
fn instants_past_half_the_range_are_refused() {
    assert_eq!(TimerInstant::from_ticks(TICKS_END), None);
    assert_eq!(TimerInstant::from_ticks(u64::MAX), None);
    assert!(TimerInstant::from_ticks(TICKS_END - 1).is_some());
}

#[test]
fn instants_are_ordered_by_their_ticks() {
    assert!(at(3).ranks_before(&at(4)));
    assert!(!at(4).ranks_before(&at(3)));
    assert!(!at(4).ranks_before(&at(4)));
    assert!(at(0).ranks_before(&at(TICKS_END - 1)));
    assert!(!at(TICKS_END - 1).ranks_before(&at(0)));
}

#[test]
fn intervals_tell_their_whole_milliseconds() {
    assert_eq!(TimerDuration::from_ticks(2_999).to_millis(), 2);
    assert_eq!(TimerDuration::from_ticks(999).to_millis(), 0);
    assert_eq!(TimerDuration::from_ticks(2_999).ticks(), 2_999);
    assert_eq!(TimerDuration::from_millis(3).ticks(), 3_000);
    assert_eq!(TimerDuration::from_millis(4_294_967).ticks(), 4_294_967_000);
    assert_eq!(TimerDuration::from_millis(4_294_968).ticks(), u32::MAX);
    assert_eq!(u32::from_millis(7).to_millis(), 7);
}

#[test]
fn plain_counters_are_instants_in_milliseconds() {
    assert_eq!(5u32.add_millis(10), 15);
    assert_eq!(5u64.add_millis(u32::MAX), 4_294_967_300);
    assert!(5u32.ranks_before(&6));
    assert!(!6u64.ranks_before(&6));
}

struct Lamp(LedStatus);

impl Led for Lamp {
    fn status(&self) -> LedStatus {
        self.0
    }
    fn get_status(&self) -> LedStatus {
        self.0
    }
    fn set_status(&mut self, led_status: LedStatus) {
        self.0 = led_status;
    }
}

struct Clock {
    now: u64,
    alarm: Option<TimerInstant>,
}

impl Scheduler<TimerInstant, TimerDuration> for Clock {
    fn counter(&self) -> TimerInstant {
        at(self.now)
    }
    fn pending(&self) -> Option<TimerInstant> {
        self.alarm
    }
    fn get_counter(&self) -> TimerInstant {
        at(self.now)
    }
    fn finished(&self) -> bool {
        self.alarm.is_none()
    }
    fn schedule(&mut self, countdown: TimerDuration) {
        self.alarm = Some(at(self.now + countdown.ticks() as u64));
    }
    fn schedule_at(&mut self, at: TimerInstant) {
        self.alarm = Some(at);
    }
    fn clear_interrupt(&mut self) {
        self.alarm = None;
    }
}

#[test]
fn the_engine_runs_on_the_timer_s_time() {
    let mut led_pins: LedPins<TimerInstant, TimerDuration, Lamp, Clock> = LedPins::init(
        Lamp(LedStatus::LOW),
        Lamp(LedStatus::LOW),
        Lamp(LedStatus::LOW),
        Lamp(LedStatus::LOW),
        Clock {
            now: 1_000,
            alarm: None,
        },
    );
    led_pins.set_led_mode(3, LedMode::BLINK);
    assert_eq!(
        led_pins.queue.peek(),
        Some(&ScheduledPinsCommand {
            schedule: at(251_000),
            led_num: 3,
            command: Command::ChangeLedStatus(LedStatus::LOW)
        })
    );
    assert_eq!(led_pins.scheduler.alarm, Some(at(251_000)));
    led_pins.set_mode_later(0, LedMode::HIGH, TimerDuration::from_ticks(500_500));
    assert_eq!(led_pins.scheduler.alarm, Some(at(251_000)));

    led_pins.scheduler.now = 250_999;
    led_pins.handle_schedule();
    assert_eq!(led_pins.leds_status()[3], LedStatus::HIGH);

    led_pins.scheduler.now = 251_000;
    led_pins.handle_schedule();
    assert_eq!(led_pins.leds_status()[3], LedStatus::LOW);
    assert_eq!(led_pins.scheduler.alarm, Some(at(501_000)));

    led_pins.scheduler.now = 501_000;
    led_pins.handle_schedule();
    assert_eq!(
        led_pins.leds_status(),
        [
            LedStatus::HIGH,
            LedStatus::LOW,
            LedStatus::LOW,
            LedStatus::HIGH
        ]
    );
    assert_eq!(led_pins.queue.len(), 1);
    assert_eq!(led_pins.scheduler.alarm, Some(at(751_000)));
}
