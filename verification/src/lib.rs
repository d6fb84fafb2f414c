//! A single-alarm event multiplexer for small boards: bounded heaps that
//! order timed commands, an LED mode engine and a button debouncer that share
//! one hardware alarm, and the small counter applications that sit on top.

pub mod ranked;
pub mod fixed_size_priority_queue;
pub mod counting;
pub mod time;
pub mod led_pins;
pub mod bounded_fifo;
pub mod button_input_queue;
pub mod button_interrupt;
pub mod fixed_size_queue;
pub mod number_app;
pub mod stopwatch_app;
pub mod timer_instant;
pub mod leds;
pub mod console;
pub mod pc_keyboard;
pub mod tsc_timer;
pub mod mock;
