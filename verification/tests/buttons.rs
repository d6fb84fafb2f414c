use alarm_mux::bounded_fifo::BoundedFifo;
use alarm_mux::button_input_queue::{ButtonInput, ButtonInputQueue, ButtonInterrupts};
use alarm_mux::button_interrupt::ButtonInterrupt;
use alarm_mux::mock::MockScheduler;
use alarm_mux::time::Scheduler;

fn new_debouncer() -> ButtonInterrupt<u32, u32, MockScheduler> {
    ButtonInterrupt::new(MockScheduler::new())
}

const ALL_LOW: [bool; 4] = [false; 4];

#[test]
fn a_press_that_is_held_counts_once() {
    let mut debouncer = new_debouncer();
    debouncer.interrupts.scheduler.counter = 100;
    debouncer.on_button_edge_high(ButtonInput::Button1);
    assert_eq!(debouncer.interrupts.records, [None, Some(100), None, None]);
    assert_eq!(debouncer.interrupts.scheduler.maybe_next_schedule, Some(110));
    assert_eq!(debouncer.pop_button_inputs(), vec![]);

    debouncer.interrupts.scheduler.counter = 110;
    debouncer.handle_schedule([false, true, false, false]);
    assert_eq!(debouncer.interrupts.records, [None; 4]);
    assert_eq!(debouncer.interrupts.scheduler.maybe_next_schedule, None);
    assert_eq!(debouncer.pop_button_inputs(), vec![ButtonInput::Button1]);
    assert_eq!(debouncer.pop_button_inputs(), vec![]);
}

#[test]
fn further_edges_of_a_held_button_do_not_count_again() {
    let mut debouncer = new_debouncer();
    debouncer.interrupts.scheduler.counter = 100;
    debouncer.on_button_edge_high(ButtonInput::Button3);
    debouncer.on_button_edge_high(ButtonInput::Button3);
    assert_eq!(debouncer.interrupts.records, [None, None, None, Some(100)]);
    assert_eq!(debouncer.interrupts.scheduler.maybe_next_schedule, Some(110));

    debouncer.interrupts.scheduler.counter = 104;
    debouncer.on_button_edge_high(ButtonInput::Button3);
    assert_eq!(debouncer.interrupts.records, [None, None, None, Some(104)]);
    assert_eq!(debouncer.interrupts.scheduler.maybe_next_schedule, Some(114));

    debouncer.interrupts.scheduler.counter = 114;
    debouncer.handle_schedule([false, false, false, true]);
    assert_eq!(debouncer.interrupts.records, [None; 4]);
    assert!(debouncer.interrupts.scheduler.finished());

    debouncer.interrupts.scheduler.counter = 130;
    debouncer.handle_schedule([false, false, false, true]);
    assert_eq!(debouncer.pop_button_inputs(), vec![ButtonInput::Button3]);
}

#[test]
fn a_bounce_does_not_count() {
    let mut debouncer = new_debouncer();
    debouncer.interrupts.scheduler.counter = 20;
    debouncer.on_button_edge_high(ButtonInput::Button0);
    debouncer.interrupts.scheduler.counter = 30;
    debouncer.handle_schedule(ALL_LOW);
    assert_eq!(debouncer.interrupts.records, [None; 4]);
    assert!(debouncer.interrupts.scheduler.finished());
    assert_eq!(debouncer.pop_button_inputs(), vec![]);
}

#[test]
fn the_level_of_another_pin_does_not_count() {
    let mut debouncer = new_debouncer();
    debouncer.interrupts.scheduler.counter = 20;
    debouncer.on_button_edge_high(ButtonInput::Button0);
    debouncer.interrupts.scheduler.counter = 30;
    debouncer.handle_schedule([false, true, true, true]);
    assert_eq!(debouncer.pop_button_inputs(), vec![]);
}

#[test]
fn the_earliest_edge_is_checked_first() {
    let mut debouncer = new_debouncer();
    debouncer.interrupts.scheduler.counter = 5;
    debouncer.on_button_edge_high(ButtonInput::Button2);
    debouncer.interrupts.scheduler.counter = 7;
    debouncer.on_button_edge_high(ButtonInput::Button0);
    assert_eq!(debouncer.interrupts.records, [Some(7), None, Some(5), None]);
    assert_eq!(debouncer.interrupts.scheduler.maybe_next_schedule, Some(17));

    debouncer.interrupts.scheduler.counter = 17;
    debouncer.handle_schedule([true, false, true, false]);
    assert_eq!(debouncer.interrupts.records, [Some(7), None, None, None]);
    assert_eq!(debouncer.interrupts.scheduler.maybe_next_schedule, Some(17));

    debouncer.handle_schedule([true, false, true, false]);
    assert_eq!(debouncer.interrupts.records, [None; 4]);
    assert_eq!(debouncer.interrupts.scheduler.maybe_next_schedule, None);
    assert_eq!(
        debouncer.pop_button_inputs(),
        vec![ButtonInput::Button2, ButtonInput::Button0]
    );
}

#[test]
fn an_edge_at_the_instant_of_a_record_is_ignored() {
    let mut debouncer = new_debouncer();
    debouncer.interrupts.scheduler.counter = 9;
    debouncer.on_button_edge_high(ButtonInput::Button1);
    debouncer.on_button_edge_high(ButtonInput::Button2);
    assert_eq!(debouncer.interrupts.records, [None, Some(9), None, None]);
    assert_eq!(debouncer.interrupts.scheduler.maybe_next_schedule, Some(19));
}

#[test]
fn the_alarm_without_a_record_is_cleared_and_counts_nothing() {
    let mut debouncer = new_debouncer();
    debouncer.interrupts.scheduler.maybe_next_schedule = Some(3);
    debouncer.handle_schedule([true; 4]);
    assert_eq!(debouncer.interrupts.scheduler.maybe_next_schedule, None);
    assert_eq!(debouncer.pop_button_inputs(), vec![]);
}

#[test]
fn the_records_say_whose_check_is_next() {
    let mut interrupts: ButtonInterrupts<u32, u32, MockScheduler> =
        ButtonInterrupts::new(MockScheduler::new());
    assert_eq!(interrupts.get_event_and_set_next(), None);
    interrupts.records = [Some(8), Some(4), Some(4), None];
    assert_eq!(
        interrupts.get_event_and_set_next(),
        Some(ButtonInput::Button1)
    );
    assert_eq!(interrupts.records, [Some(8), None, Some(4), None]);
    assert_eq!(interrupts.scheduler.maybe_next_schedule, Some(14));
    assert_eq!(
        interrupts.get_event_and_set_next(),
        Some(ButtonInput::Button2)
    );
    assert_eq!(interrupts.scheduler.maybe_next_schedule, Some(18));
    assert_eq!(
        interrupts.get_event_and_set_next(),
        Some(ButtonInput::Button0)
    );
    assert_eq!(interrupts.scheduler.maybe_next_schedule, None);
    assert_eq!(interrupts.get_event_and_set_next(), None);
}

#[test]
fn the_press_queue_holds_twenty_and_drops_the_rest() {
    let mut queue = ButtonInputQueue::new();
    for _ in 0..20 {
        assert_eq!(queue.push(ButtonInput::Button2), Some(()));
    }
    assert_eq!(queue.push(ButtonInput::Button0), None);
    let presses = queue.pop_all();
    assert_eq!(presses, vec![ButtonInput::Button2; 20]);
    assert_eq!(queue.pop_all(), vec![]);
    assert_eq!(queue.push(ButtonInput::Button0), Some(()));
    assert_eq!(queue.pop_all(), vec![ButtonInput::Button0]);
}

#[test]
fn a_press_that_finds_the_queue_full_is_lost() {
    let mut debouncer = new_debouncer();
    for i in 0..21 {
        debouncer.interrupts.scheduler.counter = 100 * i;
        debouncer.on_button_edge_high(ButtonInput::Button0);
        debouncer.interrupts.scheduler.counter = 100 * i + 10;
        debouncer.handle_schedule([true; 4]);
    }
    assert_eq!(debouncer.pop_button_inputs(), vec![ButtonInput::Button0; 20]);
}

#[test]
fn a_buffer_hands_out_in_the_order_of_arrival() {
    let mut buffer = BoundedFifo::<u16, 3>::new(0);
    assert_eq!(buffer.len(), 0);
    assert_eq!(buffer.pop_all(), vec![]);
    assert_eq!(buffer.push(30), Some(()));
    assert_eq!(buffer.push(10), Some(()));
    assert_eq!(buffer.push(20), Some(()));
    assert_eq!(buffer.len(), 3);
    assert_eq!(buffer.push(40), None);
    assert_eq!(buffer.len(), 3);
    assert_eq!(buffer.pop_all(), vec![30, 10, 20]);
    assert_eq!(buffer.len(), 0);
    assert_eq!(buffer.push(40), Some(()));
    assert_eq!(buffer.pop_all(), vec![40]);
}

#[test]
fn buttons_have_their_places() {
    let all = [
        ButtonInput::Button0,
        ButtonInput::Button1,
        ButtonInput::Button2,
        ButtonInput::Button3,
    ];
    for (i, button) in all.iter().enumerate() {
        assert_eq!(button.index(), i);
        assert_eq!(ButtonInput::from_index(i), *button);
    }
}
