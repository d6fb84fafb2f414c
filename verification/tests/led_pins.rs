use alarm_mux::led_pins::{Command, Led, LedMode, LedPins, LedStatus, ScheduledPinsCommand};
use alarm_mux::mock::{MockLed, MockScheduler};
use alarm_mux::time::Scheduler;

fn new_led_pins() -> LedPins<u32, u32, MockLed, MockScheduler> {
    LedPins::init(
        MockLed::new(),
        MockLed::new(),
        MockLed::new(),
        MockLed::new(),
        MockScheduler::new(),
    )
}

#[test]
fn test0() {
    let mut led_pins = new_led_pins();

    led_pins.scheduler.counter = 1;
    led_pins.set_led_mode(0, LedMode::HIGH);
    led_pins.set_mode_later(0, LedMode::LOW, 100);

    led_pins.scheduler.counter = 2;
    led_pins.set_led_mode(1, LedMode::HIGH);
    led_pins.set_mode_later(1, LedMode::LOW, 100);

    led_pins.scheduler.counter = 3;
    led_pins.set_led_mode(2, LedMode::HIGH);
    led_pins.set_mode_later(2, LedMode::LOW, 100);

    led_pins.scheduler.counter = 4;
    led_pins.set_led_mode(3, LedMode::HIGH);
    led_pins.set_mode_later(3, LedMode::LOW, 100);

    assert_eq!(
        led_pins.leds_status(),
        [
            LedStatus::HIGH,
            LedStatus::HIGH,
            LedStatus::HIGH,
            LedStatus::HIGH
        ]
    );

    led_pins.scheduler.counter = 101;
    led_pins.handle_schedule();
    assert_eq!(
        led_pins.leds_status(),
        [
            LedStatus::LOW,
            LedStatus::HIGH,
            LedStatus::HIGH,
            LedStatus::HIGH
        ]
    );

    led_pins.scheduler.counter = 102;
    led_pins.handle_schedule();
    assert_eq!(
        led_pins.leds_status(),
        [
            LedStatus::LOW,
            LedStatus::LOW,
            LedStatus::HIGH,
            LedStatus::HIGH
        ]
    );

    led_pins.scheduler.counter = 103;
    led_pins.handle_schedule();
    assert_eq!(
        led_pins.leds_status(),
        [
            LedStatus::LOW,
            LedStatus::LOW,
            LedStatus::LOW,
            LedStatus::HIGH
        ]
    );

    led_pins.scheduler.counter = 104;
    led_pins.handle_schedule();
    assert_eq!(
        led_pins.leds_status(),
        [
            LedStatus::LOW,
            LedStatus::LOW,
            LedStatus::LOW,
            LedStatus::LOW
        ]
    );
}

#[test]
fn test00() {
    let mut led_pins = new_led_pins();

    led_pins.scheduler.counter = 1;
    led_pins.handle_schedule();
    led_pins.set_led_mode(0, LedMode::HIGH);
    println!("{:#?}", led_pins.scheduler);

    led_pins.set_mode_later(0, LedMode::LOW, 100);
    println!("{:#?}", led_pins.queue);

    led_pins.scheduler.counter = 2;
    led_pins.handle_schedule();
    led_pins.set_led_mode(1, LedMode::HIGH);
    led_pins.set_mode_later(1, LedMode::LOW, 100);

    led_pins.scheduler.counter = 3;
    led_pins.handle_schedule();
    led_pins.set_led_mode(2, LedMode::HIGH);
    led_pins.set_mode_later(2, LedMode::LOW, 100);

    led_pins.scheduler.counter = 4;
    led_pins.handle_schedule();
    led_pins.set_led_mode(3, LedMode::HIGH);
    led_pins.set_mode_later(3, LedMode::LOW, 100);

    println!("{:#?}", led_pins.queue);
}

#[test]
fn led_pins_test1() {
    let mut led_pins = new_led_pins();

    led_pins.set_led_mode(0, LedMode::BLINK);
    assert_eq!(led_pins.leds[0].get_status(), LedStatus::HIGH);
    assert_eq!(
        led_pins.queue.peek(),
        Some(ScheduledPinsCommand {
            schedule: 250,
            led_num: 0,
            command: Command::ChangeLedStatus(LedStatus::LOW)
        })
        .as_ref()
    );

    led_pins.handle_schedule();
    assert_eq!(led_pins.leds[0].get_status(), LedStatus::HIGH);

    led_pins.scheduler.counter = 250;
    led_pins.handle_schedule();
    assert_eq!(led_pins.leds[0].get_status(), LedStatus::LOW);

    led_pins.scheduler.counter = 499;
    led_pins.handle_schedule();
    assert_eq!(led_pins.leds[0].get_status(), LedStatus::LOW);

    led_pins.scheduler.counter = 500;
    led_pins.handle_schedule();
    assert_eq!(led_pins.leds[0].get_status(), LedStatus::HIGH);
    assert_eq!(
        led_pins.queue.peek(),
        Some(ScheduledPinsCommand {
            schedule: 750,
            led_num: 0,
            command: Command::ChangeLedStatus(LedStatus::LOW)
        })
        .as_ref()
    );

    led_pins.scheduler.counter = 501;
    led_pins.set_led_mode(0, LedMode::HIGH);
    assert_eq!(led_pins.leds[0].get_status(), LedStatus::HIGH);

    assert_eq!(
        led_pins.queue.peek(),
        Some(ScheduledPinsCommand {
            schedule: 750,
            led_num: 0,
            command: Command::ChangeLedStatus(LedStatus::LOW)
        })
        .as_ref()
    );
    led_pins.scheduler.counter = 750;
    assert_eq!(led_pins.leds[0].get_status(), LedStatus::HIGH);
}

fn level_change(schedule: u32, led_num: usize, level: LedStatus) -> ScheduledPinsCommand<u32> {
    ScheduledPinsCommand {
        schedule,
        led_num,
        command: Command::ChangeLedStatus(level),
    }
}

fn alarm_matches_queue(led_pins: &LedPins<u32, u32, MockLed, MockScheduler>) -> bool {
    (led_pins.queue.len() == 0) == led_pins.scheduler.finished()
}

#[test]
fn a_blinking_led_changes_level_every_period() {
    let mut led_pins = new_led_pins();

    led_pins.set_led_mode(0, LedMode::BLINK);
    assert_eq!(led_pins.leds_status()[0], LedStatus::HIGH);
    assert_eq!(led_pins.led_modes[0], LedMode::BLINK);
    assert_eq!(led_pins.queue.len(), 1);
    assert_eq!(
        led_pins.queue.peek(),
        Some(&level_change(250, 0, LedStatus::LOW))
    );
    assert_eq!(led_pins.scheduler.maybe_next_schedule, Some(250));

    led_pins.scheduler.counter = 250;
    led_pins.handle_schedule();
    assert_eq!(led_pins.leds_status()[0], LedStatus::LOW);
    assert_eq!(led_pins.queue.len(), 1);
    assert_eq!(
        led_pins.queue.peek(),
        Some(&level_change(500, 0, LedStatus::HIGH))
    );
    assert_eq!(led_pins.scheduler.maybe_next_schedule, Some(500));

    led_pins.scheduler.counter = 499;
    led_pins.handle_schedule();
    assert_eq!(led_pins.leds_status()[0], LedStatus::LOW);
    assert_eq!(
        led_pins.queue.peek(),
        Some(&level_change(500, 0, LedStatus::HIGH))
    );
    assert_eq!(led_pins.scheduler.maybe_next_schedule, Some(500));

    led_pins.scheduler.counter = 500;
    led_pins.handle_schedule();
    assert_eq!(led_pins.leds_status()[0], LedStatus::HIGH);
    assert_eq!(
        led_pins.queue.peek(),
        Some(&level_change(750, 0, LedStatus::LOW))
    );
    assert_eq!(
        led_pins.leds_status(),
        [
            LedStatus::HIGH,
            LedStatus::LOW,
            LedStatus::LOW,
            LedStatus::LOW
        ]
    );
}

#[test]
fn an_edge_of_a_led_that_left_blink_does_nothing() {
    let mut led_pins = new_led_pins();
    led_pins.set_led_mode(2, LedMode::BLINK);
    assert_eq!(
        led_pins.queue.peek(),
        Some(&level_change(250, 2, LedStatus::LOW))
    );

    led_pins.scheduler.counter = 100;
    led_pins.set_led_mode(2, LedMode::HIGH);
    assert_eq!(led_pins.led_modes[2], LedMode::HIGH);
    assert_eq!(led_pins.queue.len(), 1);

    led_pins.scheduler.counter = 250;
    led_pins.handle_schedule();
    assert_eq!(led_pins.leds_status()[2], LedStatus::HIGH);
    assert_eq!(led_pins.led_modes[2], LedMode::HIGH);
    assert_eq!(led_pins.queue.len(), 0);
    assert_eq!(led_pins.queue.peek(), None);
    assert!(led_pins.scheduler.finished());

    led_pins.scheduler.counter = 1000;
    led_pins.handle_schedule();
    assert_eq!(led_pins.leds_status()[2], LedStatus::HIGH);
    assert_eq!(led_pins.queue.len(), 0);
}

#[test]
fn a_led_set_low_out_of_blink_stays_low() {
    let mut led_pins = new_led_pins();
    led_pins.set_led_mode(1, LedMode::BLINK);
    led_pins.scheduler.counter = 250;
    led_pins.handle_schedule();
    led_pins.scheduler.counter = 300;
    led_pins.set_led_mode(1, LedMode::LOW);
    assert_eq!(led_pins.leds_status()[1], LedStatus::LOW);
    led_pins.scheduler.counter = 500;
    led_pins.handle_schedule();
    assert_eq!(led_pins.leds_status()[1], LedStatus::LOW);
    assert_eq!(led_pins.queue.len(), 0);
    assert!(led_pins.scheduler.finished());
}

#[test]
fn the_alarm_is_idle_exactly_when_the_queue_is_empty() {
    let mut led_pins = new_led_pins();
    led_pins.handle_schedule();
    assert!(alarm_matches_queue(&led_pins));

    led_pins.schedule(level_change(30, 3, LedStatus::HIGH));
    assert!(alarm_matches_queue(&led_pins));
    assert_eq!(led_pins.scheduler.maybe_next_schedule, Some(30));

    led_pins.schedule(level_change(10, 3, LedStatus::HIGH));
    assert!(alarm_matches_queue(&led_pins));
    assert_eq!(led_pins.scheduler.maybe_next_schedule, Some(30));
    assert_eq!(led_pins.queue.len(), 2);

    led_pins.scheduler.counter = 10;
    led_pins.handle_schedule();
    assert!(alarm_matches_queue(&led_pins));
    assert_eq!(led_pins.queue.len(), 1);
    assert_eq!(led_pins.scheduler.maybe_next_schedule, Some(30));

    led_pins.scheduler.counter = 40;
    led_pins.handle_schedule();
    assert!(alarm_matches_queue(&led_pins));
    assert_eq!(led_pins.queue.len(), 0);
    assert_eq!(led_pins.scheduler.maybe_next_schedule, None);

    led_pins.set_mode_later(0, LedMode::BLINK, 5);
    assert!(alarm_matches_queue(&led_pins));
    assert_eq!(led_pins.scheduler.maybe_next_schedule, Some(45));
    led_pins.scheduler.counter = 45;
    led_pins.handle_schedule();
    assert!(alarm_matches_queue(&led_pins));
    assert_eq!(led_pins.queue.len(), 1);
}

#[test]
fn a_mode_queued_for_later_acts_like_a_mode_set_then() {
    let mut led_pins = new_led_pins();
    led_pins.scheduler.counter = 7;
    led_pins.set_mode_later(1, LedMode::BLINK, 100);
    assert_eq!(led_pins.leds_status()[1], LedStatus::LOW);
    assert_eq!(led_pins.led_modes[1], LedMode::LOW);
    assert_eq!(
        led_pins.queue.peek(),
        Some(&ScheduledPinsCommand {
            schedule: 107,
            led_num: 1,
            command: Command::ChangeLedMode(LedMode::BLINK)
        })
    );
    assert_eq!(led_pins.scheduler.maybe_next_schedule, Some(107));

    led_pins.scheduler.counter = 110;
    led_pins.handle_schedule();
    assert_eq!(led_pins.leds_status()[1], LedStatus::HIGH);
    assert_eq!(led_pins.led_modes[1], LedMode::BLINK);
    assert_eq!(
        led_pins.queue.peek(),
        Some(&level_change(360, 1, LedStatus::LOW))
    );
    assert_eq!(led_pins.scheduler.maybe_next_schedule, Some(360));
}

#[test]
fn all_that_is_due_is_carried_out_in_one_go() {
    let mut led_pins = new_led_pins();
    for led_num in 0..4 {
        led_pins.set_mode_later(led_num, LedMode::HIGH, 10 + led_num as u32);
    }
    led_pins.set_mode_later(0, LedMode::LOW, 50);
    led_pins.scheduler.counter = 13;
    led_pins.handle_schedule();
    assert_eq!(
        led_pins.leds_status(),
        [
            LedStatus::HIGH,
            LedStatus::HIGH,
            LedStatus::HIGH,
            LedStatus::HIGH
        ]
    );
    assert_eq!(led_pins.queue.len(), 1);
    assert_eq!(led_pins.scheduler.maybe_next_schedule, Some(50));
}

#[test]
fn the_twenty_first_command_is_dropped() {
    let mut led_pins = new_led_pins();
    for i in 0..20 {
        led_pins.set_mode_later(0, LedMode::HIGH, 100 + i);
    }
    assert_eq!(led_pins.queue.len(), 20);
    led_pins.set_mode_later(1, LedMode::HIGH, 1);
    assert_eq!(led_pins.queue.len(), 20);
    assert_eq!(led_pins.scheduler.maybe_next_schedule, Some(100));
    led_pins.scheduler.counter = 50;
    led_pins.handle_schedule();
    assert_eq!(led_pins.leds_status()[1], LedStatus::LOW);
    assert_eq!(led_pins.queue.len(), 20);
}

#[test]
fn commands_of_one_instant_leave_in_heap_order() {
    let mut led_pins = new_led_pins();
    led_pins.schedule(level_change(5, 0, LedStatus::HIGH));
    led_pins.schedule(level_change(5, 1, LedStatus::HIGH));
    led_pins.schedule(level_change(5, 2, LedStatus::HIGH));
    assert_eq!(led_pins.queue.pop(), Some(level_change(5, 0, LedStatus::HIGH)));
    assert_eq!(led_pins.queue.pop(), Some(level_change(5, 2, LedStatus::HIGH)));
    assert_eq!(led_pins.queue.pop(), Some(level_change(5, 1, LedStatus::HIGH)));
    assert_eq!(led_pins.queue.pop(), None);
}

#[test]
fn a_new_engine_is_low_and_idle() {
    let led_pins = new_led_pins();
    assert_eq!(led_pins.led_modes, [LedMode::LOW; 4]);
    assert_eq!(led_pins.leds_status(), [LedStatus::LOW; 4]);
    assert_eq!(led_pins.queue.len(), 0);
    assert!(led_pins.scheduler.finished());
}
