//! A small application state: four stopwatches that add up the time during
//! which each was switched on, and a cursor that picks the one the left and
//! right keys switch.

use vstd::prelude::*;
use vstd::string::StringSliceAdditionalSpecFns;

verus! {

/// A key of the four-way pad.
#[derive(Clone, Copy, PartialEq, Eq, Debug)]
pub enum Key {
    AllowUp,
    AllowDown,
    AllowLeft,
    AllowRight,
}

/// The milliseconds in a second.
pub const MS_PER_SEC: u128 = 1000;

/// The milliseconds in a minute.
pub const MS_PER_MIN: u128 = 60000;

/// The milliseconds in an hour.
pub const MS_PER_HOUR: u128 = 3600000;

/// The milliseconds in a day.
pub const MS_PER_DAY: u128 = 86400000;

/// One stopwatch: the time it has added up while it was on, and, while it is
/// on, the time at which it was switched on.
#[derive(Copy, Clone)]
pub struct Counter {
    past_elapsed_duration: u128,
    last_activated_time: Option<u128>,
}

impl Counter {
    /// The time added up during the periods that have ended.
    pub closed spec fn past(&self) -> u128 {
        self.past_elapsed_duration
    }

    /// The time at which the stopwatch was switched on, while it is on.
    pub closed spec fn since(&self) -> Option<u128> {
        self.last_activated_time
    }

    /// The time the stopwatch shows at `app_elapsed_time`: what it has added
    /// up, and the running period where it is on.
    pub open spec fn total(&self, app_elapsed_time: u128) -> int {
        match self.since() {
            None => self.past() as int,
            Some(t) => self.past() + (app_elapsed_time - t),
        }
    }

    /// Whether the time shown at `app_elapsed_time` can be computed: the
    /// running period did not begin later, and the sum fits.
    pub open spec fn can_total(&self, app_elapsed_time: u128) -> bool {
        match self.since() {
            None => true,
            Some(t) => t <= app_elapsed_time && self.past() + (app_elapsed_time - t) <= u128::MAX,
        }
    }

    /// Whether the time shown at `app_elapsed_time` can be computed.
    pub fn can_total_at(&self, app_elapsed_time: u128) -> (ok: bool)
        ensures
            ok == self.can_total(app_elapsed_time),
    {
        match self.last_activated_time {
            None => true,
            Some(t) => t <= app_elapsed_time && app_elapsed_time - t <= u128::MAX
                - self.past_elapsed_duration,
        }
    }

    /// A stopwatch that is off and shows 0.
    pub fn init() -> (counter: Counter)
        ensures
            counter.past() == 0,
            counter.since().is_none(),
    {
        Counter { past_elapsed_duration: 0, last_activated_time: None }
    }

    /// Switches the stopwatch on at `app_elapsed_time`. One that is on stays
    /// as it is.
    pub fn activate(&mut self, app_elapsed_time: u128)
        ensures
            final(self).past() == old(self).past(),
            final(self).since() == (if old(self).since().is_none() {
                Some(app_elapsed_time)
            } else {
                old(self).since()
            }),
    {
        match self.last_activated_time {
            None => {
                self.last_activated_time = Some(app_elapsed_time);
            },
            Some(_) => {},
        }
    }

    /// Switches the stopwatch off at `app_elapsed_time` and adds the period
    /// that ends to what it has added up. One that is off stays as it is.
    pub fn deactivate(&mut self, app_elapsed_time: u128)
        requires
            old(self).can_total(app_elapsed_time),
        ensures
            final(self).past() == old(self).total(app_elapsed_time),
            final(self).since().is_none(),
    {
        match self.last_activated_time {
            None => {},
            Some(t) => {
                self.past_elapsed_duration = self.past_elapsed_duration + (app_elapsed_time - t);
                self.last_activated_time = None;
            },
        }
    }

    /// The time the stopwatch shows at `app_elapsed_time`.
    pub fn get_total_duration(&self, app_elapsed_time: u128) -> (total: u128)
        requires
            self.can_total(app_elapsed_time),
        ensures
            total == self.total(app_elapsed_time),
    {
        match self.last_activated_time {
            None => self.past_elapsed_duration,
            Some(t) => self.past_elapsed_duration + (app_elapsed_time - t),
        }
    }
}

/// The decimal digits of `n` in ASCII.
pub open spec fn decimal(n: nat) -> Seq<u8>
    decreases n,
{
    if n < 10 {
        seq![(48 + n) as u8]
    } else {
        decimal(n / 10).push((48 + n % 10) as u8)
    }
}

/// A number with its unit, or nothing where the number is 0.
pub open spec fn part(n: nat, unit: Seq<u8>) -> Seq<u8> {
    if n > 0 {
        decimal(n) + unit
    } else {
        Seq::empty()
    }
}

/// A time of `millis` milliseconds in words: a mark that tells whether the
/// cursor is on it, then the days, hours, minutes and seconds that are not 0,
/// then the milliseconds.
pub open spec fn duration_text(millis: nat, is_active: bool) -> Seq<u8> {
    (if is_active {
        "> ".spec_bytes()
    } else {
        "  ".spec_bytes()
    }) + part(millis / (MS_PER_DAY as nat), " days, ".spec_bytes()) + part(
        millis % (MS_PER_DAY as nat) / (MS_PER_HOUR as nat),
        " hours, ".spec_bytes(),
    ) + part(millis % (MS_PER_HOUR as nat) / (MS_PER_MIN as nat), " minutes, ".spec_bytes()) + part(
        millis % (MS_PER_MIN as nat) / (MS_PER_SEC as nat),
        " seconds, ".spec_bytes(),
    ) + decimal(millis % (MS_PER_SEC as nat)) + " milliseconds".spec_bytes()
}

/// The first time that is too long to be told in one line for certain: a
/// hundred thousand days.
pub const LONGEST_TOLD: u128 = 8_640_000_000_000;

/// The digits of a number below a power of ten are no more than its
/// exponent.
pub proof fn lemma_decimal_len(n: nat)
    ensures
        decimal(n).len() >= 1,
        n < 10 ==> decimal(n).len() == 1,
        n < 100 ==> decimal(n).len() <= 2,
        n < 1000 ==> decimal(n).len() <= 3,
        n < 100000 ==> decimal(n).len() <= 5,
    decreases n,
{
    reveal_with_fuel(decimal, 6);
    if n >= 10 {
        lemma_decimal_len(n / 10);
    }
}

/// A time below a hundred thousand days is told in 64 bytes at most.
pub proof fn lemma_duration_text_fits(millis: nat, is_active: bool)
    requires
        millis < 8_640_000_000_000,
    ensures
        duration_text(millis, is_active).len() <= 64,
{
    broadcast use vstd::string::is_ascii_spec_bytes;

    reveal_strlit("> ");
    reveal_strlit("  ");
    reveal_strlit(" days, ");
    reveal_strlit(" hours, ");
    reveal_strlit(" minutes, ");
    reveal_strlit(" seconds, ");
    reveal_strlit(" milliseconds");
    assert(vstd::string::is_ascii("> "));
    assert(vstd::string::is_ascii("  "));
    assert(vstd::string::is_ascii(" days, "));
    assert(vstd::string::is_ascii(" hours, "));
    assert(vstd::string::is_ascii(" minutes, "));
    assert(vstd::string::is_ascii(" seconds, "));
    assert(vstd::string::is_ascii(" milliseconds"));
    assert("> ".spec_bytes().len() == 2);
    assert("  ".spec_bytes().len() == 2);
    assert(" days, ".spec_bytes().len() == 7);
    assert(" hours, ".spec_bytes().len() == 8);
    assert(" minutes, ".spec_bytes().len() == 10);
    assert(" seconds, ".spec_bytes().len() == 10);
    assert(" milliseconds".spec_bytes().len() == 13);
    lemma_decimal_len(millis / 86400000);
    lemma_decimal_len(millis % 86400000 / 3600000);
    lemma_decimal_len(millis % 3600000 / 60000);
    lemma_decimal_len(millis % 60000 / 1000);
    lemma_decimal_len(millis % 1000);
}

/// `text` in a line of 64 bytes, filled up with spaces.
pub open spec fn line_of(text: Seq<u8>) -> Seq<u8> {
    Seq::new(64, |i: int| if i < text.len() { text[i] } else { 0x20u8 })
}

/// A line of text that is written from the left; what is not written yet is
/// spaces.
struct Line {
    buffer: [u8; 64],
    used: usize,
}

impl Line {
    spec fn view(&self) -> Seq<u8> {
        self.buffer@.subrange(0, self.used as int)
    }

    spec fn wf(&self) -> bool {
        &&& self.used <= 64
        &&& forall|i: int| self.used <= i < 64 ==> self.buffer@[i] == 0x20u8
    }

    fn new() -> (line: Line)
        ensures
            line.wf(),
            line@ == Seq::<u8>::empty(),
    {
        let line = Line { buffer: [0x20;64], used: 0 };
        assert(line@ =~= Seq::<u8>::empty());
        line
    }

    fn write_byte(&mut self, b: u8)
        requires
            old(self).wf(),
            old(self)@.len() < 64,
        ensures
            final(self).wf(),
            final(self)@ == old(self)@.push(b),
    {
        self.buffer[self.used] = b;
        self.used = self.used + 1;
        assert(self@ =~= old(self)@.push(b));
    }

    fn write_str(&mut self, s: &str)
        requires
            old(self).wf(),
            old(self)@.len() + s.spec_bytes().len() <= 64,
        ensures
            final(self).wf(),
            final(self)@ == old(self)@ + s.spec_bytes(),
    {
        let bytes = s.as_bytes();
        let mut i: usize = 0;
        while i < bytes.len()
            invariant
                self.wf(),
                bytes@ == s.spec_bytes(),
                i <= bytes@.len(),
                old(self)@.len() + bytes@.len() <= 64,
                self@ == old(self)@ + bytes@.subrange(0, i as int),
            decreases bytes@.len() - i,
        {
            self.write_byte(bytes[i]);
            i = i + 1;
            assert(self@ =~= old(self)@ + bytes@.subrange(0, i as int));
        }
        assert(self@ =~= old(self)@ + s.spec_bytes());
    }

    fn write_decimal(&mut self, n: u128)
        requires
            old(self).wf(),
            old(self)@.len() + decimal(n as nat).len() <= 64,
        ensures
            final(self).wf(),
            final(self)@ == old(self)@ + decimal(n as nat),
        decreases n,
    {
        if n >= 10 {
            self.write_decimal(n / 10);
        }
        let d = (n % 10) as u8;
        self.write_byte(48 + d);
        assert(self@ =~= old(self)@ + decimal(n as nat));
    }

    fn write_part(&mut self, n: u128, unit: &str)
        requires
            old(self).wf(),
            old(self)@.len() + part(n as nat, unit.spec_bytes()).len() <= 64,
        ensures
            final(self).wf(),
            final(self)@ == old(self)@ + part(n as nat, unit.spec_bytes()),
    {
        if n > 0 {
            self.write_decimal(n);
            self.write_str(unit);
            assert(self@ =~= old(self)@ + part(n as nat, unit.spec_bytes()));
        } else {
            assert(self@ =~= old(self)@ + part(n as nat, unit.spec_bytes()));
        }
    }

    fn finish(self) -> (buffer: [u8; 64])
        requires
            self.wf(),
        ensures
            buffer@ == line_of(self@),
    {
        assert(self.buffer@ =~= line_of(self@));
        self.buffer
    }
}

/// Four stopwatches and the cursor.
pub struct App {
    counters: [Counter; 4],
    /// The place of the stopwatch the cursor is on.
    pub cursor: usize,
}

impl App {
    /// The four stopwatches.
    pub closed spec fn counters(&self) -> Seq<Counter> {
        self.counters@
    }

    /// The place of the stopwatch the cursor is on.
    pub closed spec fn cursor(&self) -> int {
        self.cursor as int
    }

    /// The cursor is on one of the four stopwatches.
    pub closed spec fn wf(&self) -> bool {
        self.cursor < 4
    }

    /// Whether every stopwatch can tell its time at `app_elapsed_time`.
    pub open spec fn can_total(&self, app_elapsed_time: u128) -> bool {
        forall|i: int| 0 <= i < 4 ==> (#[trigger] self.counters()[i]).can_total(app_elapsed_time)
    }

    /// The text of stopwatch `i` at `app_elapsed_time`.
    pub open spec fn text_of(&self, i: int, app_elapsed_time: u128) -> Seq<u8> {
        duration_text(self.counters()[i].total(app_elapsed_time) as nat, self.cursor() == i)
    }

    /// Whether the cursor is on one of the stopwatches and each of them can
    /// tell, at `app_elapsed_time`, a time below a hundred thousand days.
    /// Such an application can be shown: see `lemma_duration_text_fits`.
    pub fn can_show(&self, app_elapsed_time: u128) -> (ok: bool)
        ensures
            ok == (self.wf() && forall|i: int|
                0 <= i < 4 ==> (#[trigger] self.counters()[i]).can_total(app_elapsed_time)
                    && self.counters()[i].total(app_elapsed_time) < LONGEST_TOLD),
            ok ==> self.can_total(app_elapsed_time),
            ok ==> forall|i: int|
                0 <= i < 4 ==> (#[trigger] self.text_of(i, app_elapsed_time)).len() <= 64,
    {
        proof {
            assert forall|i: int|
                0 <= i < 4 && self.counters()[i].can_total(app_elapsed_time)
                    && self.counters()[i].total(app_elapsed_time)
                    < LONGEST_TOLD implies (#[trigger] self.text_of(i, app_elapsed_time)).len()
                <= 64 by {
                lemma_duration_text_fits(
                    self.counters()[i].total(app_elapsed_time) as nat,
                    self.cursor() == i,
                );
            }
        }
        if self.cursor >= 4 {
            return false;
        }
        let mut i: usize = 0;
        while i < 4
            invariant
                i <= 4,
                forall|j: int|
                    0 <= j < i ==> (#[trigger] self.counters()[j]).can_total(app_elapsed_time)
                        && self.counters()[j].total(app_elapsed_time) < LONGEST_TOLD,
            decreases 4 - i,
        {
            if !self.counters[i].can_total_at(app_elapsed_time) {
                assert(!self.counters()[i as int].can_total(app_elapsed_time));
                return false;
            }
            if self.counters[i].get_total_duration(app_elapsed_time) >= LONGEST_TOLD {
                assert(self.counters()[i as int].total(app_elapsed_time) >= LONGEST_TOLD);
                return false;
            }
            i = i + 1;
        }
        true
    }

    /// All four stopwatches are off and show 0; the cursor is on the first.
    pub fn init() -> (app: App)
        ensures
            app.wf(),
            app.cursor() == 0,
            app.counters().len() == 4,
            forall|i: int|
                0 <= i < 4 ==> (#[trigger] app.counters()[i]).past() == 0 && app.counters()[i].since().is_none(),
    {
        App { counters: [Counter::init();4], cursor: 0 }
    }

    /// Takes a key at `app_elapsed_time`. Up and down move the cursor and
    /// stop at the first and the last stopwatch; left switches the stopwatch
    /// under the cursor off, right switches it on.
    pub fn on_key_down(&mut self, key: Key, app_elapsed_time: u128)
        requires
            old(self).wf(),
            key == Key::AllowLeft ==> old(self).counters()[old(self).cursor()].can_total(
                app_elapsed_time,
            ),
        ensures
            final(self).wf(),
            final(self).counters().len() == 4,
            final(self).cursor() == (match key {
                Key::AllowUp => if old(self).cursor() > 0 {
                    old(self).cursor() - 1
                } else {
                    old(self).cursor()
                },
                Key::AllowDown => if old(self).cursor() < 3 {
                    old(self).cursor() + 1
                } else {
                    old(self).cursor()
                },
                _ => old(self).cursor(),
            }),
            forall|i: int|
                0 <= i < 4 && !(i == old(self).cursor() && (key == Key::AllowLeft || key
                    == Key::AllowRight)) ==> (#[trigger] final(self).counters()[i]) == old(
                    self,
                ).counters()[i],
            key == Key::AllowLeft ==> {
                let was = old(self).counters()[old(self).cursor()];
                let is = final(self).counters()[old(self).cursor()];
                is.past() == was.total(app_elapsed_time) && is.since().is_none()
            },
            key == Key::AllowRight ==> {
                let was = old(self).counters()[old(self).cursor()];
                let is = final(self).counters()[old(self).cursor()];
                is.past() == was.past() && is.since() == (if was.since().is_none() {
                    Some(app_elapsed_time)
                } else {
                    was.since()
                })
            },
    {
        match key {
            Key::AllowUp => {
                if self.cursor > 0 {
                    self.cursor = self.cursor - 1;
                }
            },
            Key::AllowDown => {
                if self.cursor < 3 {
                    self.cursor = self.cursor + 1;
                }
            },
            Key::AllowLeft => {
                self.counters[self.cursor].deactivate(app_elapsed_time);
            },
            Key::AllowRight => {
                self.counters[self.cursor].activate(app_elapsed_time);
            },
        }
    }

    /// The time each stopwatch shows at `app_elapsed_time`, in milliseconds.
    pub fn elapsed_times_ms(&self, app_elapsed_time: u128) -> (times: [u128; 4])
        requires
            self.can_total(app_elapsed_time),
        ensures
            forall|i: int|
                0 <= i < 4 ==> (#[trigger] times@[i]) == self.counters()[i].total(app_elapsed_time),
    {
        assert(self.counters()[0].can_total(app_elapsed_time));
        assert(self.counters()[1].can_total(app_elapsed_time));
        assert(self.counters()[2].can_total(app_elapsed_time));
        assert(self.counters()[3].can_total(app_elapsed_time));
        [
            self.counters[0].get_total_duration(app_elapsed_time),
            self.counters[1].get_total_duration(app_elapsed_time),
            self.counters[2].get_total_duration(app_elapsed_time),
            self.counters[3].get_total_duration(app_elapsed_time),
        ]
    }

    /// The time a stopwatch shows, in words, as a line of 64 ASCII bytes
    /// filled up with spaces: see `duration_text`.
    pub fn format_total_duration_long(
        counter: &Counter,
        app_elapsed_time: u128,
        is_active: bool,
    ) -> (line: [u8; 64])
        requires
            counter.can_total(app_elapsed_time),
            duration_text(counter.total(app_elapsed_time) as nat, is_active).len() <= 64,
        ensures
            line@ == line_of(duration_text(counter.total(app_elapsed_time) as nat, is_active)),
    {
        let millis = counter.get_total_duration(app_elapsed_time);
        let days = millis / MS_PER_DAY;
        let hours = (millis % MS_PER_DAY) / MS_PER_HOUR;
        let minutes = (millis % MS_PER_HOUR) / MS_PER_MIN;
        let seconds = (millis % MS_PER_MIN) / MS_PER_SEC;
        let milliseconds = millis % MS_PER_SEC;
        let ghost mark = if is_active {
            "> ".spec_bytes()
        } else {
            "  ".spec_bytes()
        };
        let ghost t1 = mark + part(days as nat, " days, ".spec_bytes());
        let ghost t2 = t1 + part(hours as nat, " hours, ".spec_bytes());
        let ghost t3 = t2 + part(minutes as nat, " minutes, ".spec_bytes());
        let ghost t4 = t3 + part(seconds as nat, " seconds, ".spec_bytes());
        let ghost t5 = t4 + decimal(milliseconds as nat);
        assert(duration_text(millis as nat, is_active) == t5 + " milliseconds".spec_bytes());
        let mut w = Line::new();
        w.write_str(
            if is_active {
                "> "
            } else {
                "  "
            },
        );
        assert(w@ =~= mark);
        w.write_part(days, " days, ");
        w.write_part(hours, " hours, ");
        w.write_part(minutes, " minutes, ");
        w.write_part(seconds, " seconds, ");
        w.write_decimal(milliseconds);
        w.write_str(" milliseconds");
        w.finish()
    }

    /// The four stopwatches in words, one line each; the line of the
    /// stopwatch under the cursor begins with `>`.
    pub fn format_total_durations_long(&self, app_elapsed_time: u128) -> (lines: [[u8; 64]; 4])
        requires
            self.wf(),
            self.can_total(app_elapsed_time),
            forall|i: int| 0 <= i < 4 ==> (#[trigger] self.text_of(i, app_elapsed_time)).len() <= 64,
        ensures
            forall|i: int|
                0 <= i < 4 ==> (#[trigger] lines@[i])@ == line_of(self.text_of(i, app_elapsed_time)),
    {
        assert(self.counters()[0].can_total(app_elapsed_time));
        assert(self.counters()[1].can_total(app_elapsed_time));
        assert(self.counters()[2].can_total(app_elapsed_time));
        assert(self.counters()[3].can_total(app_elapsed_time));
        assert(self.text_of(0, app_elapsed_time).len() <= 64);
        assert(self.text_of(1, app_elapsed_time).len() <= 64);
        assert(self.text_of(2, app_elapsed_time).len() <= 64);
        assert(self.text_of(3, app_elapsed_time).len() <= 64);
        [
            Self::format_total_duration_long(&self.counters[0], app_elapsed_time, self.cursor == 0),
            Self::format_total_duration_long(&self.counters[1], app_elapsed_time, self.cursor == 1),
            Self::format_total_duration_long(&self.counters[2], app_elapsed_time, self.cursor == 2),
            Self::format_total_duration_long(&self.counters[3], app_elapsed_time, self.cursor == 3),
        ]
    }
}

} // verus!
