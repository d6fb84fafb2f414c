//! The button debouncer: a rising edge counts as a press only if the pin is
//! still high one debounce time later.

use vstd::prelude::*;
use crate::button_input_queue::{
    ButtonInput,
    ButtonInputQueue,
    ButtonInterrupts,
    ButtonInterruptsView,
};
use crate::time::{Duration, Instant, Scheduler};

verus! {

/// The debouncer as the contracts see it: the edges on record with the
/// alarm, and the presses that wait for the application.
pub struct ButtonInterruptView<I: Instant> {
    /// The edges on record, the counter and the alarm.
    pub interrupts: ButtonInterruptsView<I>,
    /// The confirmed presses that wait, oldest first.
    pub presses: Seq<ButtonInput>,
}

impl<I: Instant> ButtonInterruptView<I> {
    /// The records are well formed and no more presses wait than the queue
    /// holds.
    pub open spec fn wf(self) -> bool {
        &&& self.interrupts.wf()
        &&& self.presses.len() <= crate::button_input_queue::BUTTON_INPUT_QUEUE_LENGTH
    }

    /// The same debouncer at another reading of the counter.
    pub open spec fn at(self, now: I) -> Self {
        ButtonInterruptView { interrupts: self.interrupts.at(now), ..self }
    }

    /// The debouncer after a rising edge on `button`.
    pub open spec fn edge(self, button: ButtonInput) -> Self {
        ButtonInterruptView { interrupts: self.interrupts.edge(button), ..self }
    }

    /// The debouncer after rising edges on `button` at each of `times`, in
    /// that order.
    pub open spec fn edges(self, button: ButtonInput, times: Seq<I>) -> Self
        decreases times.len(),
    {
        if times.len() == 0 {
            self
        } else {
            self.edges(button, times.drop_last()).at(times.last()).edge(button)
        }
    }

    /// The debouncer after the alarm rang while the pins were at the levels
    /// `is_high`: the check that is next is taken off the record, and its
    /// button is queued as pressed if its pin is high and the queue has room.
    pub open spec fn fired(self, is_high: Seq<bool>) -> Self {
        ButtonInterruptView {
            interrupts: self.interrupts.after_event(),
            presses: match self.interrupts.next_event() {
                Some(button) => if is_high[button.spec_index()] && self.presses.len() < crate::button_input_queue::BUTTON_INPUT_QUEUE_LENGTH {
                    self.presses.push(button)
                } else {
                    self.presses
                },
                None => self.presses,
            },
        }
    }

    /// Whether an edge is on record for `button` and for no other.
    pub open spec fn only_pending(self, button: ButtonInput) -> bool {
        &&& self.interrupts.records.len() == 4
        &&& forall|j: int|
            0 <= j < 4 ==> ((#[trigger] self.interrupts.records[j]).is_some() <==> j
                == button.spec_index())
    }

    /// Whether no edge is on record.
    pub open spec fn nothing_pending(self) -> bool {
        &&& self.interrupts.records.len() == 4
        &&& forall|j: int| 0 <= j < 4 ==> (#[trigger] self.interrupts.records[j]).is_none()
    }

    /// However many edges one button sends, and whenever, there is one
    /// record: that button's.
    pub proof fn lemma_edges_keep_one_record(self, button: ButtonInput, times: Seq<I>)
        requires
            self.nothing_pending() || self.only_pending(button),
        ensures
            self.edges(button, times).presses == self.presses,
            times.len() > 0 || self.only_pending(button) ==> self.edges(button, times).only_pending(
                button,
            ),
            times.len() == 0 ==> self.edges(button, times) == self,
        decreases times.len(),
    {
        if times.len() > 0 {
            self.lemma_edges_keep_one_record(button, times.drop_last());
            let before = self.edges(button, times.drop_last()).at(times.last());
            let after = before.edge(button);
            if before.nothing_pending() {
                assert(before.interrupts.none_in_flight());
            }
            assert forall|j: int| 0 <= j < 4 implies ((#[trigger] after.interrupts.records[j]).is_some()
                <==> j == button.spec_index()) by {
                assert(before.interrupts.records[j].is_some() ==> j == button.spec_index());
            }
        }
    }

    /// With one button on record, the alarm's ring takes that record off,
    /// leaves the alarm idle, and queues the button exactly if its pin is
    /// high and the queue has room.
    pub proof fn lemma_fired_single(self, button: ButtonInput, is_high: Seq<bool>)
        requires
            self.only_pending(button),
        ensures
            self.fired(is_high).nothing_pending(),
            self.fired(is_high).interrupts.alarm.is_none(),
            self.fired(is_high).presses == (if is_high[button.spec_index()] && self.presses.len()
                < crate::button_input_queue::BUTTON_INPUT_QUEUE_LENGTH {
                self.presses.push(button)
            } else {
                self.presses
            }),
    {
        let records = self.interrupts.records;
        let k = button.spec_index();
        assert(records[k].is_some());
        assert(crate::button_input_queue::goes_first(records, k));
        crate::button_input_queue::lemma_earliest(records);
        let rest = records.update(k, None);
        crate::button_input_queue::lemma_earliest(rest);
        if crate::button_input_queue::earliest(rest).is_some() {
            let j = crate::button_input_queue::earliest(rest).unwrap();
            assert(crate::button_input_queue::goes_first(rest, j));
            assert(rest[j].is_some());
            assert(false);
        }
        assert(ButtonInput::at(k) == button);
    }

    /// With no edge on record the alarm's ring queues nothing.
    pub proof fn lemma_fired_idle(self, is_high: Seq<bool>)
        requires
            self.nothing_pending(),
        ensures
            self.fired(is_high).presses == self.presses,
            self.fired(is_high).nothing_pending(),
    {
        let records = self.interrupts.records;
        if crate::button_input_queue::earliest(records).is_some() {
            let k = choose|k: int| crate::button_input_queue::goes_first(records, k);
            assert(records[k].is_some());
            assert(false);
        }
    }

    /// A button that is held counts once: after any number of rising edges
    /// on it, the first at a time when nothing was on record, a ring of the
    /// alarm that finds its pin high queues exactly one press, and the next
    /// ring queues nothing more.
    pub proof fn lemma_held_button_counts_once(
        self,
        button: ButtonInput,
        times: Seq<I>,
        rung: I,
        is_high: Seq<bool>,
        again: I,
        then_high: Seq<bool>,
    )
        requires
            self.nothing_pending(),
            times.len() > 0,
            is_high[button.spec_index()],
            self.presses.len() < crate::button_input_queue::BUTTON_INPUT_QUEUE_LENGTH,
        ensures
            self.edges(button, times).at(rung).fired(is_high).presses == self.presses.push(button),
            self.edges(button, times).at(rung).fired(is_high).at(again).fired(then_high).presses
                == self.presses.push(button),
    {
        self.lemma_edges_keep_one_record(button, times);
        let ringing = self.edges(button, times).at(rung);
        ringing.lemma_fired_single(button, is_high);
        ringing.fired(is_high).at(again).lemma_fired_idle(then_high);
    }

    /// A bounce does not count: after any number of rising edges on one
    /// button, a ring of the alarm that finds its pin low queues nothing.
    pub proof fn lemma_released_button_counts_not(
        self,
        button: ButtonInput,
        times: Seq<I>,
        rung: I,
        is_high: Seq<bool>,
    )
        requires
            self.nothing_pending(),
            !is_high[button.spec_index()],
        ensures
            self.edges(button, times).at(rung).fired(is_high).presses == self.presses,
    {
        self.lemma_edges_keep_one_record(button, times);
        let ringing = self.edges(button, times).at(rung);
        if times.len() > 0 {
            ringing.lemma_fired_single(button, is_high);
        } else {
            ringing.lemma_fired_idle(is_high);
        }
    }
}

/// The debouncer: the edges that wait for their check, and the queue of
/// confirmed presses that the application empties.
pub struct ButtonInterrupt<I, D, S> where I: Instant, D: Duration, S: Scheduler<I, D> {
    /// The edges on record, with the time source.
    pub interrupts: ButtonInterrupts<I, D, S>,
    /// The confirmed presses that wait for the application.
    pub queue: ButtonInputQueue,
}

impl<I, D, S> ButtonInterrupt<I, D, S> where I: Instant, D: Duration, S: Scheduler<I, D> {
    /// The debouncer as the contracts see it.
    pub open spec fn view(&self) -> ButtonInterruptView<I> {
        ButtonInterruptView { interrupts: self.interrupts@, presses: self.queue@ }
    }

    /// Both parts are well formed.
    pub open spec fn wf(&self) -> bool {
        &&& self.interrupts.wf()
        &&& self.queue.wf()
    }

    /// A debouncer with no edge on record and no press waiting. The alarm is
    /// left as it is.
    pub fn new(scheduler: S) -> (debouncer: Self)
        ensures
            debouncer.wf(),
            debouncer@.nothing_pending(),
            debouncer@.presses == Seq::<ButtonInput>::empty(),
            debouncer.interrupts.scheduler == scheduler,
    {
        ButtonInterrupt { interrupts: ButtonInterrupts::new(scheduler), queue: ButtonInputQueue::new() }
    }

    /// Takes note of a rising edge on `button_input`; see
    /// `ButtonInterrupts::on_button_edge_high`.
    pub fn on_button_edge_high(&mut self, button_input: ButtonInput)
        requires
            old(self).wf(),
            old(self)@.interrupts.now.can_add_millis(crate::button_input_queue::DEBOUNCE_MILLIS),
        ensures
            final(self).wf(),
            final(self)@ == old(self)@.edge(button_input),
    {
        self.interrupts.on_button_edge_high(button_input);
    }

    /// Serves the alarm. `is_high` holds, for each button, whether its pin
    /// reads high now.
    ///
    /// The check that is next is taken off the record and the alarm is armed
    /// for the one after it. The button counts as pressed, and is queued, if
    /// its pin is still high; where the queue is full the press is lost. A
    /// pin that reads low was a bounce: nothing is queued.
    pub fn handle_schedule(&mut self, is_high: [bool; 4])
        requires
            old(self).wf(),
        ensures
            final(self).wf(),
            final(self)@ == old(self)@.fired(is_high@),
            old(self)@.interrupts.next_event() matches Some(button) && !is_high@[
                button.spec_index()] ==> final(self)@.presses == old(self)@.presses,
    {
        proof {
            self.queue.lemma_wf();
        }
        if let Some(button) = self.interrupts.get_event_and_set_next() {
            if is_high[button.index()] {
                let _ = self.queue.push(button);
            }
        }
    }

    /// Hands out the presses confirmed since the last call, oldest first.
    pub fn pop_button_inputs(&mut self) -> (presses: Vec<ButtonInput>)
        requires
            old(self).wf(),
        ensures
            final(self).wf(),
            presses@ == old(self)@.presses,
            final(self)@.presses == Seq::<ButtonInput>::empty(),
            final(self)@.interrupts == old(self)@.interrupts,
    {
        self.queue.pop_all()
    }
}

} // verus!
