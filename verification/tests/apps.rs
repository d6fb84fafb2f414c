use alarm_mux::console::{split_lines, Console};
use alarm_mux::led_pins::{Led, LedStatus};
use alarm_mux::leds::LEDs;
use alarm_mux::number_app;
use alarm_mux::pc_keyboard::{KeyState, PCKeyboard};
use alarm_mux::tsc_timer::Timer;
use alarm_mux::stopwatch_app;
use alarm_mux::stopwatch_app::Counter;

fn line(text: &str) -> [u8; 64] {
    let mut line = [0x20u8; 64];
    line[..text.len()].copy_from_slice(text.as_bytes());
    line
}

#[test]
fn the_numbers_start_at_zero() {
    let app = number_app::App::init();
    assert_eq!(app.to_string(), "[000, 000, 000, 000]\n   ^");
}

#[test]
fn keys_change_the_number_under_the_cursor() {
    let mut app = number_app::App::init();
    app.on_key_down(number_app::Key::AllowUp);
    app.on_key_down(number_app::Key::AllowUp);
    app.on_key_down(number_app::Key::AllowRight);
    app.on_key_down(number_app::Key::AllowRight);
    for _ in 0..123 {
        app.on_key_down(number_app::Key::AllowUp);
    }
    app.on_key_down(number_app::Key::AllowDown);
    assert_eq!(app.to_string(), "[002, 000, 122, 000]\n             ^");
    app.on_key_down(number_app::Key::AllowLeft);
    app.on_key_down(number_app::Key::AllowUp);
    assert_eq!(app.to_string(), "[002, 001, 122, 000]\n        ^");
}

#[test]
fn numbers_and_cursor_stop_at_their_ends() {
    let mut app = number_app::App::init();
    app.on_key_down(number_app::Key::AllowDown);
    app.on_key_down(number_app::Key::AllowLeft);
    assert_eq!(app.to_string(), "[000, 000, 000, 000]\n   ^");
    for _ in 0..5 {
        app.on_key_down(number_app::Key::AllowRight);
    }
    for _ in 0..300 {
        app.on_key_down(number_app::Key::AllowUp);
    }
    assert_eq!(
        app.to_string(),
        "[000, 000, 000, 255]\n                  ^"
    );
}

#[test]
fn a_stopwatch_adds_up_the_time_it_was_on() {
    let mut counter = Counter::init();
    assert_eq!(counter.get_total_duration(50), 0);
    counter.deactivate(60);
    assert_eq!(counter.get_total_duration(70), 0);
    counter.activate(100);
    assert_eq!(counter.get_total_duration(130), 30);
    counter.activate(120);
    assert_eq!(counter.get_total_duration(130), 30);
    counter.deactivate(150);
    assert_eq!(counter.get_total_duration(400), 50);
    counter.activate(1000);
    counter.deactivate(1007);
    assert_eq!(counter.get_total_duration(2000), 57);
}

#[test]
fn keys_switch_the_stopwatch_under_the_cursor() {
    let mut app = stopwatch_app::App::init();
    assert_eq!(app.cursor, 0);
    assert_eq!(app.elapsed_times_ms(10), [0, 0, 0, 0]);
    app.on_key_down(stopwatch_app::Key::AllowUp, 10);
    assert_eq!(app.cursor, 0);
    app.on_key_down(stopwatch_app::Key::AllowRight, 100);
    app.on_key_down(stopwatch_app::Key::AllowDown, 150);
    app.on_key_down(stopwatch_app::Key::AllowDown, 150);
    assert_eq!(app.cursor, 2);
    app.on_key_down(stopwatch_app::Key::AllowRight, 200);
    assert_eq!(app.elapsed_times_ms(300), [200, 0, 100, 0]);
    app.on_key_down(stopwatch_app::Key::AllowLeft, 350);
    assert_eq!(app.elapsed_times_ms(1000), [900, 0, 150, 0]);
    for _ in 0..4 {
        app.on_key_down(stopwatch_app::Key::AllowDown, 1000);
    }
    assert_eq!(app.cursor, 3);
    app.on_key_down(stopwatch_app::Key::AllowLeft, 1000);
    assert_eq!(app.elapsed_times_ms(1000), [900, 0, 150, 0]);
}

#[test]
fn times_are_told_in_words() {
    let mut counter = Counter::init();
    assert_eq!(
        stopwatch_app::App::format_total_duration_long(&counter, 5, false),
        line("  0 milliseconds")
    );
    counter.activate(0);
    assert_eq!(
        stopwatch_app::App::format_total_duration_long(&counter, 93_784_005, true),
        line("> 1 days, 2 hours, 3 minutes, 4 seconds, 5 milliseconds")
    );
    assert_eq!(
        stopwatch_app::App::format_total_duration_long(&counter, 3_600_000, false),
        line("  1 hours, 0 milliseconds")
    );
    assert_eq!(
        stopwatch_app::App::format_total_duration_long(&counter, 61_010, true),
        line("> 1 minutes, 1 seconds, 10 milliseconds")
    );
    assert_eq!(
        stopwatch_app::App::format_total_duration_long(&counter, 8_639_999_999_999, true),
        line("> 99999 days, 23 hours, 59 minutes, 59 seconds, 999 milliseconds")
    );
}

#[test]
fn the_line_under_the_cursor_is_marked() {
    let mut app = stopwatch_app::App::init();
    app.on_key_down(stopwatch_app::Key::AllowDown, 0);
    app.on_key_down(stopwatch_app::Key::AllowRight, 0);
    let lines = app.format_total_durations_long(1_500);
    assert_eq!(lines[0], line("  0 milliseconds"));
    assert_eq!(lines[1], line("> 1 seconds, 500 milliseconds"));
    assert_eq!(lines[2], line("  0 milliseconds"));
    assert_eq!(lines[3], line("  0 milliseconds"));
}

#[derive(Debug, PartialEq)]
struct Lamp(LedStatus);

impl Led for Lamp {
    fn status(&self) -> LedStatus {
        self.0
    }
    fn get_status(&self) -> LedStatus {
        self.0
    }
    fn set_status(&mut self, led_status: LedStatus) {
        self.0 = led_status;
    }
}

#[test]
fn leds_show_the_low_bits() {
    let mut leds = LEDs::new(
        Lamp(LedStatus::LOW),
        Lamp(LedStatus::HIGH),
        Lamp(LedStatus::LOW),
        Lamp(LedStatus::HIGH),
    );
    assert_eq!(leds._1.get_status(), LedStatus::HIGH);
    leds.light(0b0101);
    assert_eq!(leds._0, Lamp(LedStatus::HIGH));
    assert_eq!(leds._1, Lamp(LedStatus::LOW));
    assert_eq!(leds._2, Lamp(LedStatus::HIGH));
    assert_eq!(leds._3, Lamp(LedStatus::LOW));
    leds.light(0xf8);
    assert_eq!(leds._0, Lamp(LedStatus::LOW));
    assert_eq!(leds._1, Lamp(LedStatus::LOW));
    assert_eq!(leds._2, Lamp(LedStatus::LOW));
    assert_eq!(leds._3, Lamp(LedStatus::HIGH));
}

#[test]
fn a_line_break_waits_for_the_next_character() {
    let mut console = Console::new();
    assert_eq!(console.lines(), (*b"        ", *b"        "));
    console.write_str("Hello!\n");
    assert_eq!(console.lines(), (*b"        ", *b"Hello!  "));
    console.write_str("Start B0\n");
    assert_eq!(console.lines(), (*b"Hello!  ", *b"Start B0"));
    console.write_str("0123456789");
    assert_eq!(console.lines(), (*b"Start B0", *b"01234567"));
    console.write_str("\n\nx");
    assert_eq!(console.lines(), (*b"01234567", *b"x       "));
    console.add_char(b'y');
    assert_eq!(console.lines(), (*b"01234567", *b"xy      "));
}

#[test]
fn a_message_is_split_into_two_lines_of_eight() {
    assert_eq!(split_lines(b""), (*b"        ", *b"        "));
    assert_eq!(split_lines(b"abc"), (*b"abc     ", *b"        "));
    assert_eq!(split_lines(b"abcdefghij"), (*b"abcdefgh", *b"ij      "));
    assert_eq!(
        split_lines(b"0123456789abcdefXYZ"),
        (*b"01234567", *b"89abcdef")
    );
}

#[test]
fn a_held_key_gives_one_character() {
    let mut keyboard = PCKeyboard::init();
    assert_eq!(keyboard.pressed, false);
    assert_eq!(keyboard.on_key_event(KeyState::Up), false);
    assert_eq!(keyboard.on_key_event(KeyState::SingleShot), false);
    assert_eq!(keyboard.pressed, false);
    assert_eq!(keyboard.on_key_event(KeyState::Down), true);
    assert_eq!(keyboard.pressed, true);
    assert_eq!(keyboard.on_key_event(KeyState::Down), false);
    assert_eq!(keyboard.on_key_event(KeyState::SingleShot), false);
    assert_eq!(keyboard.pressed, true);
    assert_eq!(keyboard.on_key_event(KeyState::Up), false);
    assert_eq!(keyboard.pressed, false);
    assert_eq!(keyboard.on_key_event(KeyState::Down), true);
}

#[test]
fn a_million_counts_make_a_millisecond() {
    let timer = Timer::init();
    assert_eq!(timer.elapsed_time_ms_at(0), 0);
    assert_eq!(timer.elapsed_time_ms_at(999_999), 0);
    assert_eq!(timer.elapsed_time_ms_at(7_500_000), 7);
}
