//! Button presses on their way to the application: the record of rising
//! edges that wait for their debounce check, and the queue of presses that
//! passed it.

use vstd::prelude::*;
use core::marker::PhantomData;
use crate::bounded_fifo::BoundedFifo;
use crate::time::{Duration, Instant, Scheduler};

verus! {

/// The time a button has to stay pressed before the press counts, in
/// milliseconds.
pub const DEBOUNCE_MILLIS: u32 = 10;

/// The number of confirmed presses that can wait for the application.
pub const BUTTON_INPUT_QUEUE_LENGTH: usize = 20;

/// One of the four buttons.
#[derive(Copy, Clone, PartialEq, Eq, Debug)]
pub enum ButtonInput {
    Button0,
    Button1,
    Button2,
    Button3,
}

impl ButtonInput {
    /// The button's place among the four.
    pub open spec fn spec_index(self) -> int {
        match self {
            ButtonInput::Button0 => 0,
            ButtonInput::Button1 => 1,
            ButtonInput::Button2 => 2,
            ButtonInput::Button3 => 3,
        }
    }

    /// The button at place `i`.
    pub open spec fn at(i: int) -> ButtonInput {
        if i == 0 {
            ButtonInput::Button0
        } else if i == 1 {
            ButtonInput::Button1
        } else if i == 2 {
            ButtonInput::Button2
        } else {
            ButtonInput::Button3
        }
    }

    /// The button's place among the four.
    pub fn index(&self) -> (i: usize)
        ensures
            i == self.spec_index(),
            i < 4,
            ButtonInput::at(i as int) == *self,
    {
        match self {
            ButtonInput::Button0 => 0,
            ButtonInput::Button1 => 1,
            ButtonInput::Button2 => 2,
            ButtonInput::Button3 => 3,
        }
    }

    /// The button at place `i`.
    pub fn from_index(i: usize) -> (button: ButtonInput)
        requires
            i < 4,
        ensures
            button == ButtonInput::at(i as int),
            button.spec_index() == i,
    {
        if i == 0 {
            ButtonInput::Button0
        } else if i == 1 {
            ButtonInput::Button1
        } else if i == 2 {
            ButtonInput::Button2
        } else {
            ButtonInput::Button3
        }
    }
}

/// The presses that passed their debounce check and wait for the
/// application, oldest first. It holds `BUTTON_INPUT_QUEUE_LENGTH` at most.
pub struct ButtonInputQueue {
    queue: BoundedFifo<ButtonInput, BUTTON_INPUT_QUEUE_LENGTH>,
}

impl ButtonInputQueue {
    /// The waiting presses, oldest first.
    pub closed spec fn view(&self) -> Seq<ButtonInput> {
        self.queue@
    }

    /// The queue is well formed.
    pub closed spec fn wf(&self) -> bool {
        self.queue.wf()
    }

    /// No more presses wait than the queue holds.
    pub proof fn lemma_wf(&self)
        requires
            self.wf(),
        ensures
            self@.len() <= BUTTON_INPUT_QUEUE_LENGTH,
    {
        self.queue.lemma_wf();
    }

    /// An empty queue.
    pub fn new() -> (q: Self)
        ensures
            q.wf(),
            q@ == Seq::<ButtonInput>::empty(),
    {
        ButtonInputQueue { queue: BoundedFifo::new(ButtonInput::Button0) }
    }

    /// Hands out every waiting press, oldest first, and leaves the queue
    /// empty.
    pub fn pop_all(&mut self) -> (presses: Vec<ButtonInput>)
        requires
            old(self).wf(),
        ensures
            final(self).wf(),
            presses@ == old(self)@,
            final(self)@ == Seq::<ButtonInput>::empty(),
    {
        self.queue.pop_all()
    }

    /// Appends a press: `Some(())` if there was room, `None` if the queue is
    /// full, which then stays as it is and the press is lost.
    pub fn push(&mut self, v: ButtonInput) -> (r: Option<()>)
        requires
            old(self).wf(),
        ensures
            final(self).wf(),
            old(self)@.len() < BUTTON_INPUT_QUEUE_LENGTH ==> r.is_some() && final(self)@ == old(self)@.push(v),
            old(self)@.len() >= BUTTON_INPUT_QUEUE_LENGTH ==> r.is_none() && final(self)@ == old(self)@,
    {
        self.queue.push(v)
    }
}

/// Whether the record at `k` is the one to check next among the first
/// `upto` records: none of them is earlier, and of those at the same instant
/// it has the lowest place.
pub open spec fn goes_first_among<I: Instant>(records: Seq<Option<I>>, k: int, upto: int) -> bool {
    &&& 0 <= k < upto
    &&& records[k].is_some()
    &&& forall|j: int|
        0 <= j < upto && (#[trigger] records[j]).is_some() ==> {
            ||| records[k].unwrap().rank() < records[j].unwrap().rank()
            ||| (records[k].unwrap().rank() == records[j].unwrap().rank() && k <= j)
        }
}

/// Whether the record at `k` is the one to check next.
pub open spec fn goes_first<I: Instant>(records: Seq<Option<I>>, k: int) -> bool {
    goes_first_among(records, k, records.len() as int)
}

/// The place of the record to check next, if any edge is on record.
pub open spec fn earliest<I: Instant>(records: Seq<Option<I>>) -> Option<int> {
    if exists|k: int| goes_first(records, k) {
        Some(choose|k: int| goes_first(records, k))
    } else {
        None
    }
}

/// At most one record goes first.
pub proof fn lemma_goes_first_unique<I: Instant>(records: Seq<Option<I>>, k: int, m: int)
    requires
        goes_first(records, k),
        goes_first(records, m),
    ensures
        k == m,
{
    assert(records[k].is_some());
    assert(records[m].is_some());
}

/// `earliest` is the one record that goes first, and is `None` only where
/// no edge is on record.
pub proof fn lemma_earliest<I: Instant>(records: Seq<Option<I>>)
    ensures
        forall|k: int| goes_first(records, k) ==> earliest(records) == Some(k),
        earliest(records).is_none() ==> forall|j: int|
            0 <= j < records.len() ==> (#[trigger] records[j]).is_none(),
{
    assert forall|k: int| goes_first(records, k) implies earliest(records) == Some(k) by {
        lemma_goes_first_unique(records, k, choose|k: int| goes_first(records, k));
    }
    if earliest(records).is_none() {
        lemma_some_goes_first(records, records.len() as int);
        assert forall|j: int| 0 <= j < records.len() implies (#[trigger] records[j]).is_none() by {
            if records[j].is_some() {
                let k = choose|k: int| goes_first_among(records, k, records.len() as int);
                assert(goes_first(records, k));
            }
        }
    }
}

/// Where an edge is on record among the first `upto`, one of them goes
/// first.
proof fn lemma_some_goes_first<I: Instant>(records: Seq<Option<I>>, upto: int)
    requires
        0 <= upto <= records.len(),
    ensures
        (exists|j: int| 0 <= j < upto && (#[trigger] records[j]).is_some()) ==> exists|k: int|
            goes_first_among(records, k, upto),
    decreases upto,
{
    if upto > 0 {
        let last = upto - 1;
        lemma_some_goes_first(records, last);
        if exists|j: int| 0 <= j < last && (#[trigger] records[j]).is_some() {
            let b = choose|k: int| goes_first_among(records, k, last);
            if records[last].is_some() && records[last].unwrap().rank() < records[b].unwrap().rank() {
                assert(goes_first_among(records, last, upto));
            } else {
                assert(goes_first_among(records, b, upto));
            }
        } else if records[last].is_some() {
            assert(goes_first_among(records, last, upto));
        }
    }
}

/// The edges on record and the alarm, as the contracts see them.
pub struct ButtonInterruptsView<I: Instant> {
    /// For each button the instant of its rising edge that waits for the
    /// check, if one does.
    pub records: Seq<Option<I>>,
    /// The reading of the counter.
    pub now: I,
    /// The instant the alarm is armed for; `None` while it is idle.
    pub alarm: Option<I>,
}

impl<I: Instant> ButtonInterruptsView<I> {
    /// There are four records, and the debounce time can be added to each
    /// instant on record.
    pub open spec fn wf(self) -> bool {
        &&& self.records.len() == 4
        &&& forall|j: int|
            0 <= j < 4 && (#[trigger] self.records[j]).is_some() ==> self.records[j].unwrap().can_add_millis(
                DEBOUNCE_MILLIS,
            )
    }

    /// The same records at another reading of the counter.
    pub open spec fn at(self, now: I) -> Self {
        ButtonInterruptsView { now, ..self }
    }

    /// Whether no check is in flight: every instant on record lies strictly
    /// before now.
    pub open spec fn none_in_flight(self) -> bool {
        forall|j: int|
            0 <= j < self.records.len() && (#[trigger] self.records[j]).is_some()
                ==> self.records[j].unwrap().rank() < self.now.rank()
    }

    /// The records after a rising edge on `button`: where no check is in
    /// flight the edge is put on record and the alarm is armed for one
    /// debounce time from now; else nothing changes.
    pub open spec fn edge(self, button: ButtonInput) -> Self {
        if self.none_in_flight() {
            ButtonInterruptsView {
                records: self.records.update(button.spec_index(), Some(self.now)),
                alarm: Some(self.now.plus_millis(DEBOUNCE_MILLIS)),
                ..self
            }
        } else {
            self
        }
    }

    /// The button whose check is next.
    pub open spec fn next_event(self) -> Option<ButtonInput> {
        match earliest(self.records) {
            Some(k) => Some(ButtonInput::at(k)),
            None => None,
        }
    }

    /// The records after the check that is next was taken off: the alarm is
    /// armed for the check after it, or idle where none is left.
    pub open spec fn after_event(self) -> Self {
        match earliest(self.records) {
            Some(k) => {
                let rest = self.records.update(k, None);
                ButtonInterruptsView {
                    records: rest,
                    alarm: match earliest(rest) {
                        Some(j) => Some(rest[j].unwrap().plus_millis(DEBOUNCE_MILLIS)),
                        None => None,
                    },
                    ..self
                }
            },
            None => ButtonInterruptsView { alarm: None, ..self },
        }
    }
}

/// The rising edges that wait for their debounce check, one record per
/// button, and the time source whose alarm runs the checks.
pub struct ButtonInterrupts<I, D, S> where I: Instant, D: Duration, S: Scheduler<I, D> {
    /// For each button the instant of its rising edge that waits for the
    /// check, if one does.
    pub records: [Option<I>; 4],
    /// The counter and the alarm.
    pub scheduler: S,
    /// The intervals the time source counts down are of type `D`.
    pub _phantom_d: PhantomData<D>,
}

impl<I, D, S> ButtonInterrupts<I, D, S> where I: Instant, D: Duration, S: Scheduler<I, D> {
    /// The records as the contracts see them.
    pub open spec fn view(&self) -> ButtonInterruptsView<I> {
        ButtonInterruptsView {
            records: self.records@,
            now: self.scheduler.counter(),
            alarm: self.scheduler.pending(),
        }
    }

    /// The debounce time can be added to each instant on record.
    pub open spec fn wf(&self) -> bool {
        self@.wf()
    }

    /// No edge on record. The alarm is left as it is.
    pub fn new(scheduler: S) -> (interrupts: Self)
        ensures
            interrupts.wf(),
            interrupts.scheduler == scheduler,
            interrupts@.records == seq![None::<I>, None::<I>, None::<I>, None::<I>],
    {
        let interrupts = ButtonInterrupts {
            records: [None;4],
            scheduler,
            _phantom_d: PhantomData,
        };
        proof {
            assert(interrupts@.records =~= seq![None::<I>, None::<I>, None::<I>, None::<I>]);
        }
        interrupts
    }

    /// Whether every instant on record lies strictly before `now`.
    fn none_in_flight(&self, now: I) -> (none: bool)
        requires
            now == self@.now,
        ensures
            none == self@.none_in_flight(),
    {
        let mut none = true;
        let mut j: usize = 0;
        while j < 4
            invariant
                j <= 4,
                now == self@.now,
                none == (forall|i: int|
                    0 <= i < j && (#[trigger] self.records@[i]).is_some()
                        ==> self.records@[i].unwrap().rank() < now.rank()),
            decreases 4 - j,
        {
            if let Some(t) = self.records[j] {
                if !t.ranks_before(&now) {
                    none = false;
                }
            }
            j = j + 1;
        }
        none
    }

    /// Takes note of a rising edge on `button_input`.
    ///
    /// Where no check is in flight (every instant on record lies strictly
    /// before now) the edge is put on record and the alarm is armed for one
    /// debounce time from now. Else the edge is ignored: the check in flight
    /// stays as it is.
    pub fn on_button_edge_high(&mut self, button_input: ButtonInput)
        requires
            old(self).wf(),
            old(self)@.now.can_add_millis(DEBOUNCE_MILLIS),
        ensures
            final(self).wf(),
            final(self)@ == old(self)@.edge(button_input),
    {
        let now = self.scheduler.get_counter();
        if self.none_in_flight(now) {
            self.records[button_input.index()] = Some(now);
            self.scheduler.schedule_at(now.add_millis(DEBOUNCE_MILLIS));
        }
    }

    /// The place of the record that goes first, if any edge is on record.
    fn pick(&self) -> (r: Option<usize>)
        ensures
            r matches Some(k) ==> goes_first(self.records@, k as int),
            r.is_none() ==> forall|j: int| 0 <= j < 4 ==> (#[trigger] self.records@[j]).is_none(),
    {
        let mut best: Option<usize> = None;
        let mut j: usize = 0;
        while j < 4
            invariant
                j <= 4,
                best matches Some(k) ==> goes_first_among(self.records@, k as int, j as int),
                best.is_none() ==> forall|i: int|
                    0 <= i < j ==> (#[trigger] self.records@[i]).is_none(),
            decreases 4 - j,
        {
            if let Some(t) = self.records[j] {
                match best {
                    None => {
                        best = Some(j);
                    },
                    Some(b) => {
                        if t.ranks_before(&self.records[b].unwrap()) {
                            best = Some(j);
                        }
                    },
                }
            }
            j = j + 1;
        }
        best
    }

    /// Says which button's check the alarm has just rung for, takes that
    /// edge off the record, and arms the alarm for the check after it: one
    /// debounce time after the earliest edge still on record. Where none is
    /// left the alarm is cleared.
    ///
    /// Of the edges on record the earliest goes first, and of those at the
    /// same instant the button with the lowest place.
    pub fn get_event_and_set_next(&mut self) -> (event: Option<ButtonInput>)
        requires
            old(self).wf(),
        ensures
            final(self).wf(),
            event == old(self)@.next_event(),
            final(self)@ == old(self)@.after_event(),
    {
        proof {
            lemma_earliest(self.records@);
        }
        let maybe_current = self.pick();
        let event = match maybe_current {
            Some(k) => {
                self.records[k] = None;
                Some(ButtonInput::from_index(k))
            },
            None => None,
        };
        proof {
            lemma_earliest(self.records@);
        }
        match self.pick() {
            Some(j) => {
                let next_time = self.records[j].unwrap();
                self.scheduler.schedule_at(next_time.add_millis(DEBOUNCE_MILLIS));
            },
            None => {
                self.scheduler.clear_interrupt();
            },
        }
        proof {
            if maybe_current.is_none() {
                assert(self.records@ =~= old(self).records@);
            }
        }
        event
    }
}

} // verus!
