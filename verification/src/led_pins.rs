//! The LED mode engine: four LEDs that are high, low or blinking, driven by
//! timed commands that share one alarm.

use vstd::prelude::*;
use core::marker::PhantomData;
use crate::fixed_size_priority_queue::FixedSizePriorityQueue;
use crate::ranked::Ranked;
use crate::time::{Duration, Instant, Scheduler};

verus! {

/// The time between two edges of a blinking LED, in milliseconds.
pub const BLINK_MILLIS: u32 = 250;

/// The number of timed commands that can wait at a time.
pub const QUEUE_LENGTH: usize = 20;

/// What an LED is asked to do.
#[allow(non_camel_case_types)]
#[derive(Clone, Copy, PartialEq, Eq, Debug)]
pub enum LedMode {
    HIGH,
    LOW,
    BLINK,
}

/// The level of an LED's pin.
#[allow(non_camel_case_types)]
#[derive(Clone, Copy, PartialEq, Eq, Debug)]
pub enum LedStatus {
    HIGH,
    LOW,
}

/// One LED: a pin whose level can be set and read back.
pub trait Led {
    /// The level the pin is at.
    spec fn status(&self) -> LedStatus;

    /// Reads the pin's level.
    fn get_status(&self) -> (led_status: LedStatus)
        ensures
            led_status == self.status(),
    ;

    /// Drives the pin to `led_status`.
    fn set_status(&mut self, led_status: LedStatus)
        ensures
            final(self).status() == led_status,
    ;
}

/// What a timed command does when it falls due.
#[derive(Clone, Copy, PartialEq, Eq, Debug)]
pub enum Command {
    /// Put the LED into a mode.
    ChangeLedMode(LedMode),
    /// Drive the pin of a blinking LED to a level. An LED that has left the
    /// blink mode ignores it.
    ChangeLedStatus(LedStatus),
}

/// A command for one LED with the instant at which it falls due.
#[derive(Clone, Copy, PartialEq, Eq, Debug)]
pub struct ScheduledPinsCommand<I: Instant> {
    /// The instant at which the command falls due.
    pub schedule: I,
    /// The LED the command is for.
    pub led_num: usize,
    /// What is to be done.
    pub command: Command,
}

impl<I: Instant> Ranked for ScheduledPinsCommand<I> {
    /// Commands are ordered by their instant alone.
    open spec fn rank(&self) -> int {
        self.schedule.rank()
    }

    fn ranks_before(&self, other: &Self) -> (b: bool) {
        self.schedule.ranks_before(&other.schedule)
    }
}

/// The level on the other side of `level`.
pub open spec fn opposite(level: LedStatus) -> LedStatus {
    match level {
        LedStatus::HIGH => LedStatus::LOW,
        LedStatus::LOW => LedStatus::HIGH,
    }
}

/// The level an LED takes at the moment it enters `mode`.
pub open spec fn entry_level(mode: LedMode) -> LedStatus {
    match mode {
        LedMode::LOW => LedStatus::LOW,
        _ => LedStatus::HIGH,
    }
}

/// The condition "falls due at or before `now`" on commands.
pub open spec fn due_at<I: Instant>(now: I) -> spec_fn(ScheduledPinsCommand<I>) -> bool {
    |c: ScheduledPinsCommand<I>| c.schedule.rank() <= now.rank()
}

/// The condition "is a command for LED `led_num`".
pub open spec fn for_led<I: Instant>(led_num: usize) -> spec_fn(ScheduledPinsCommand<I>) -> bool {
    |c: ScheduledPinsCommand<I>| c.led_num == led_num
}

/// What the engine is, seen from outside: the level and mode of each LED,
/// the queued commands in heap layout, the counter's reading and the instant
/// the alarm is armed for.
pub struct LedPinsView<I: Instant> {
    /// The level of each LED's pin.
    pub statuses: Seq<LedStatus>,
    /// The mode of each LED.
    pub modes: Seq<LedMode>,
    /// The queued commands in the layout of the heap.
    pub queue: Seq<ScheduledPinsCommand<I>>,
    /// The reading of the counter.
    pub now: I,
    /// The instant the alarm is armed for; `None` while it is idle.
    pub alarm: Option<I>,
}

impl<I: Instant> LedPinsView<I> {
    /// Four LEDs, and a heap of at most `QUEUE_LENGTH` commands that all name
    /// one of them.
    pub open spec fn wf(self) -> bool {
        &&& self.statuses.len() == 4
        &&& self.modes.len() == 4
        &&& self.queue.len() <= QUEUE_LENGTH
        &&& crate::fixed_size_priority_queue::is_min_heap(self.queue)
        &&& forall|i: int| 0 <= i < self.queue.len() ==> (#[trigger] self.queue[i]).led_num < 4
    }

    /// The same engine at another reading of the counter.
    pub open spec fn at(self, now: I) -> Self {
        LedPinsView { now, ..self }
    }

    /// The next edge of a blinking LED: one blink period from now.
    pub open spec fn blink_command(self, led_num: usize, level: LedStatus) -> ScheduledPinsCommand<
        I,
    > {
        ScheduledPinsCommand {
            schedule: self.now.plus_millis(BLINK_MILLIS),
            led_num,
            command: Command::ChangeLedStatus(level),
        }
    }

    /// The engine after `cmd` was handed to the queue: a full queue drops
    /// it, and an idle alarm is armed for its instant.
    pub open spec fn scheduled(self, cmd: ScheduledPinsCommand<I>) -> Self {
        LedPinsView {
            queue: if self.queue.len() < QUEUE_LENGTH {
                crate::fixed_size_priority_queue::pushed(self.queue, cmd)
            } else {
                self.queue
            },
            alarm: if self.alarm.is_none() {
                Some(cmd.schedule)
            } else {
                self.alarm
            },
            ..self
        }
    }

    /// The engine after LED `led_num` entered `mode`, before anything is
    /// queued.
    pub open spec fn with_mode(self, led_num: usize, mode: LedMode) -> Self {
        LedPinsView {
            statuses: self.statuses.update(led_num as int, entry_level(mode)),
            modes: self.modes.update(led_num as int, mode),
            ..self
        }
    }

    /// The command that entering `mode` asks to be queued.
    pub open spec fn mode_follow_up(self, led_num: usize, mode: LedMode) -> Option<
        ScheduledPinsCommand<I>,
    > {
        if mode == LedMode::BLINK {
            Some(self.blink_command(led_num, LedStatus::LOW))
        } else {
            None
        }
    }

    /// The engine after `set_led_mode`.
    pub open spec fn set_led_mode(self, led_num: usize, mode: LedMode) -> Self {
        match self.mode_follow_up(led_num, mode) {
            Some(next) => self.with_mode(led_num, mode).scheduled(next),
            None => self.with_mode(led_num, mode),
        }
    }

    /// The engine after `set_mode_later` with a countdown of `millis`.
    pub open spec fn set_mode_later(self, led_num: usize, mode: LedMode, millis: u32) -> Self {
        self.scheduled(
            ScheduledPinsCommand {
                schedule: self.now.plus_millis(millis),
                led_num,
                command: Command::ChangeLedMode(mode),
            },
        )
    }

    /// What a command that fell due does to the LEDs. A level change acts
    /// only on an LED that is still blinking.
    pub open spec fn applied(self, led_num: usize, command: Command) -> Self {
        match command {
            Command::ChangeLedMode(mode) => self.with_mode(led_num, mode),
            Command::ChangeLedStatus(level) => if self.modes[led_num as int] == LedMode::BLINK {
                LedPinsView { statuses: self.statuses.update(led_num as int, level), ..self }
            } else {
                self
            },
        }
    }

    /// The command that a command that fell due asks to be queued.
    pub open spec fn follow_up(self, led_num: usize, command: Command) -> Option<
        ScheduledPinsCommand<I>,
    > {
        match command {
            Command::ChangeLedMode(mode) => self.mode_follow_up(led_num, mode),
            Command::ChangeLedStatus(level) => if self.modes[led_num as int] == LedMode::BLINK {
                Some(self.blink_command(led_num, opposite(level)))
            } else {
                None
            },
        }
    }

    /// The engine after a command that fell due was carried out and what it
    /// asked for was queued.
    pub open spec fn executed(self, led_num: usize, command: Command) -> Self {
        match self.follow_up(led_num, command) {
            Some(next) => self.applied(led_num, command).scheduled(next),
            None => self.applied(led_num, command),
        }
    }

    /// Whether the command at the head of the queue has fallen due.
    pub open spec fn head_due(self) -> bool {
        self.queue.len() > 0 && self.queue[0].schedule.rank() <= self.now.rank()
    }

    /// The number of queued commands that have fallen due.
    pub open spec fn due_count(self) -> nat {
        crate::counting::count_where(self.queue.to_multiset(), due_at(self.now))
    }

    /// The engine after the head of the queue was taken out.
    pub open spec fn without_head(self) -> Self {
        LedPinsView { queue: crate::fixed_size_priority_queue::popped(self.queue), ..self }
    }

    /// The engine after the head of the queue was taken out and carried out.
    pub open spec fn step(self) -> Self {
        self.without_head().executed(self.queue[0].led_num, self.queue[0].command)
    }

    /// The engine after every command that has fallen due was carried out,
    /// head by head.
    pub open spec fn drained(self) -> Self
        decreases self.due_count(),
        when self.now.can_add_millis(BLINK_MILLIS)
    {
        if self.head_due() {
            proof {
                self.lemma_step_due_count();
            }
            self.step().drained()
        } else {
            self
        }
    }

    /// The commands that `drained` carries out, in the order in which it
    /// does.
    pub open spec fn drained_heads(self) -> Seq<ScheduledPinsCommand<I>>
        decreases self.due_count(),
        when self.now.can_add_millis(BLINK_MILLIS)
    {
        if self.head_due() {
            proof {
                self.lemma_step_due_count();
            }
            seq![self.queue[0]] + self.step().drained_heads()
        } else {
            Seq::empty()
        }
    }

    /// The engine after `handle_schedule`: the alarm's flag is cleared, the
    /// due commands are carried out, and an alarm that is still idle is armed
    /// for the head of what is left.
    pub open spec fn handle_schedule(self) -> Self {
        let rest = LedPinsView { alarm: None, ..self }.drained();
        if rest.alarm.is_none() && rest.queue.len() > 0 {
            LedPinsView { alarm: Some(rest.queue[0].schedule), ..rest }
        } else {
            rest
        }
    }

    /// Handing a command to the queue leaves the due commands as they were
    /// unless the command itself is due.
    pub proof fn lemma_scheduled_due_count(self, cmd: ScheduledPinsCommand<I>)
        ensures
            self.scheduled(cmd).due_count() <= self.due_count() + (if cmd.schedule.rank()
                <= self.now.rank() {
                1nat
            } else {
                0nat
            }),
            self.scheduled(cmd).queue.len() - self.scheduled(cmd).due_count() >= self.queue.len()
                - self.due_count(),
            self.queue.len() < QUEUE_LENGTH && cmd.schedule.rank() > self.now.rank() ==> self.scheduled(
                cmd,
            ).queue.len() > self.scheduled(cmd).due_count(),
    {
        if self.queue.len() < QUEUE_LENGTH {
            crate::fixed_size_priority_queue::lemma_pushed_items(self.queue, cmd);
            crate::counting::lemma_count_where_insert(self.queue.to_multiset(), due_at(self.now), cmd);
            crate::counting::lemma_count_where_le_len(self.queue.to_multiset(), due_at(self.now));
            broadcast use vstd::seq_lib::group_to_multiset_ensures;
        }
    }

    /// Carrying out the head takes one command off the due ones.
    pub proof fn lemma_step_due_count(self)
        requires
            self.head_due(),
            self.now.can_add_millis(BLINK_MILLIS),
        ensures
            self.step().due_count() < self.due_count(),
            self.step().now == self.now,
            self.step().queue.len() - self.step().due_count() >= self.queue.len()
                - self.due_count(),
    {
        broadcast use vstd::seq_lib::group_to_multiset_ensures;

        let head = self.queue[0];
        let popped = self.without_head();
        crate::fixed_size_priority_queue::lemma_popped_items(self.queue);
        assert(self.queue.to_multiset().count(head) > 0) by {
            assert(self.queue.contains(head));
        }
        crate::counting::lemma_count_where_remove(self.queue.to_multiset(), due_at(self.now), head);
        assert(popped.due_count() + 1 == self.due_count());
        match popped.follow_up(head.led_num, head.command) {
            Some(next) => {
                self.now.lemma_plus_millis(BLINK_MILLIS);
                let applied = popped.applied(head.led_num, head.command);
                assert(applied.queue == popped.queue && applied.now == popped.now);
                applied.lemma_scheduled_due_count(next);
                assert(applied.due_count() == popped.due_count());
            },
            None => {
                let applied = popped.applied(head.led_num, head.command);
                assert(applied.queue == popped.queue && applied.now == popped.now);
                assert(applied.due_count() == popped.due_count());
            },
        }
    }

    /// Handing a command for one of the four LEDs to the queue keeps the
    /// engine well formed.
    pub proof fn lemma_scheduled_wf(self, cmd: ScheduledPinsCommand<I>)
        requires
            self.wf(),
            cmd.led_num < 4,
        ensures
            self.scheduled(cmd).wf(),
    {
        if self.queue.len() < QUEUE_LENGTH {
            crate::fixed_size_priority_queue::lemma_pushed(self.queue, cmd);
            crate::fixed_size_priority_queue::lemma_pushed_contains(self.queue, cmd);
            let after = self.scheduled(cmd).queue;
            assert forall|i: int| 0 <= i < after.len() implies (#[trigger] after[i]).led_num
                < 4 by {
                assert(after.contains(after[i]));
            }
        }
    }

    /// Taking the head out keeps the engine well formed.
    pub proof fn lemma_without_head_wf(self)
        requires
            self.wf(),
            self.queue.len() > 0,
        ensures
            self.without_head().wf(),
    {
        let rest = self.without_head().queue;
        crate::fixed_size_priority_queue::lemma_popped(self.queue);
        crate::fixed_size_priority_queue::lemma_popped_contains(self.queue);
        assert forall|i: int| 0 <= i < rest.len() implies (#[trigger] rest[i]).led_num < 4 by {
            assert(rest.contains(rest[i]));
        }
    }

    /// Carrying out the head keeps the engine well formed.
    pub proof fn lemma_step_wf(self)
        requires
            self.wf(),
            self.queue.len() > 0,
        ensures
            self.step().wf(),
    {
        let head = self.queue[0];
        self.lemma_without_head_wf();
        let popped = self.without_head();
        let applied = popped.applied(head.led_num, head.command);
        assert(applied.wf());
        match popped.follow_up(head.led_num, head.command) {
            Some(next) => {
                applied.lemma_scheduled_wf(next);
            },
            None => {},
        }
    }

    /// Draining keeps the engine well formed and leaves nothing at the head
    /// that has fallen due.
    pub proof fn lemma_drained_wf(self)
        requires
            self.wf(),
            self.now.can_add_millis(BLINK_MILLIS),
        ensures
            self.drained().wf(),
            self.drained().now == self.now,
            !self.drained().head_due(),
        decreases self.due_count(),
    {
        if self.head_due() {
            self.lemma_step_due_count();
            self.lemma_step_wf();
            self.step().lemma_drained_wf();
        }
    }

    /// Whether every queued command for LED `led_num` is a level change.
    pub open spec fn only_level_changes_for(self, led_num: usize) -> bool {
        forall|i: int|
            0 <= i < self.queue.len() && (#[trigger] self.queue[i]).led_num == led_num
                ==> self.queue[i].command is ChangeLedStatus
    }

    /// The number of queued commands for LED `led_num`.
    pub open spec fn count_for(self, led_num: usize) -> nat {
        crate::counting::count_where(self.queue.to_multiset(), for_led(led_num))
    }

    /// Whether the alarm has a reason to be armed: it is idle, or some
    /// queued command is still to come.
    pub open spec fn alarm_has_cause(self) -> bool {
        self.alarm.is_none() || self.queue.len() > self.due_count()
    }

    /// Handing a command to the queue leaves the queue non-empty and the
    /// alarm armed.
    pub proof fn lemma_scheduled_arms(self, cmd: ScheduledPinsCommand<I>)
        ensures
            self.scheduled(cmd).queue.len() > 0,
            self.scheduled(cmd).alarm.is_some(),
    {
        crate::fixed_size_priority_queue::lemma_pushed_items(self.queue, cmd);
    }

    proof fn lemma_drained_alarm(self)
        requires
            self.wf(),
            self.now.can_add_millis(BLINK_MILLIS),
            self.alarm_has_cause(),
        ensures
            self.drained().alarm_has_cause(),
        decreases self.due_count(),
    {
        if self.head_due() {
            self.lemma_step_due_count();
            self.lemma_step_wf();
            let head = self.queue[0];
            let popped = self.without_head();
            crate::fixed_size_priority_queue::lemma_popped_items(self.queue);
            match popped.follow_up(head.led_num, head.command) {
                Some(next) => {
                    self.now.lemma_plus_millis(BLINK_MILLIS);
                    popped.applied(head.led_num, head.command).lemma_scheduled_due_count(next);
                },
                None => {},
            }
            self.step().lemma_drained_alarm();
        }
    }

    /// After the alarm was served it is idle exactly when the queue is
    /// empty, and no queued command is due.
    pub proof fn lemma_handle_schedule_settles(self)
        requires
            self.wf(),
            self.now.can_add_millis(BLINK_MILLIS),
        ensures
            self.handle_schedule().wf(),
            self.handle_schedule().now == self.now,
            (self.handle_schedule().queue.len() == 0) == self.handle_schedule().alarm.is_none(),
            forall|i: int|
                0 <= i < self.handle_schedule().queue.len() ==> self.now.rank() < (
                #[trigger] self.handle_schedule().queue[i]).schedule.rank(),
    {
        let cleared = LedPinsView { alarm: None, ..self };
        cleared.lemma_drained_wf();
        cleared.lemma_drained_alarm();
        let rest = cleared.drained();
        crate::counting::lemma_count_where_le_len(rest.queue.to_multiset(), due_at(rest.now));
        broadcast use vstd::seq_lib::group_to_multiset_ensures;

        if rest.queue.len() > 0 {
            crate::fixed_size_priority_queue::lemma_root_is_least(rest.queue);
        }
    }

    /// Only commands that were queued and due when the draining began are
    /// carried out by it: what a command asks to be queued waits for a later
    /// ring of the alarm.
    pub proof fn lemma_drained_heads_were_queued(self)
        requires
            self.wf(),
            self.now.can_add_millis(BLINK_MILLIS),
        ensures
            forall|k: int|
                0 <= k < self.drained_heads().len() ==> self.queue.contains(
                    #[trigger] self.drained_heads()[k],
                ) && self.drained_heads()[k].schedule.rank() <= self.now.rank(),
        decreases self.due_count(),
    {
        if self.head_due() {
            self.lemma_step_due_count();
            self.lemma_step_wf();
            let next = self.step();
            next.lemma_drained_heads_were_queued();
            let head = self.queue[0];
            let popped = self.without_head();
            crate::fixed_size_priority_queue::lemma_popped_contains(self.queue);
            self.now.lemma_plus_millis(BLINK_MILLIS);
            match popped.follow_up(head.led_num, head.command) {
                Some(follow) => {
                    let applied = popped.applied(head.led_num, head.command);
                    if applied.queue.len() < QUEUE_LENGTH {
                        crate::fixed_size_priority_queue::lemma_pushed_contains(
                            applied.queue,
                            follow,
                        );
                    }
                },
                None => {},
            }
            let heads = self.drained_heads();
            assert forall|k: int| 0 <= k < heads.len() implies self.queue.contains(
                #[trigger] heads[k],
            ) && heads[k].schedule.rank() <= self.now.rank() by {
                if k == 0 {
                    assert(heads[0] == head);
                } else {
                    let h = next.drained_heads()[k - 1];
                    assert(heads[k] == h);
                    assert(next.queue.contains(h));
                    assert(popped.queue.contains(h));
                }
            }
        }
    }

    /// Draining carries out no more commands than were queued when it
    /// began.
    pub proof fn lemma_drained_heads_len(self)
        requires
            self.now.can_add_millis(BLINK_MILLIS),
        ensures
            self.drained_heads().len() <= self.due_count() <= self.queue.len(),
        decreases self.due_count(),
    {
        broadcast use vstd::seq_lib::group_to_multiset_ensures;

        crate::counting::lemma_count_where_le_len(self.queue.to_multiset(), due_at(self.now));
        if self.head_due() {
            self.lemma_step_due_count();
            self.step().lemma_drained_heads_len();
        }
    }

    /// The commands that fell due are carried out in the order of their
    /// instants, the earliest first.
    pub proof fn lemma_drained_heads_in_order(self)
        requires
            self.wf(),
            self.now.can_add_millis(BLINK_MILLIS),
        ensures
            forall|i: int, j: int|
                0 <= i <= j < self.drained_heads().len() ==> (#[trigger] self.drained_heads()[i]).schedule.rank()
                    <= (#[trigger] self.drained_heads()[j]).schedule.rank(),
        decreases self.due_count(),
    {
        if self.head_due() {
            self.lemma_step_due_count();
            self.lemma_step_wf();
            let next = self.step();
            next.lemma_drained_heads_in_order();
            next.lemma_drained_heads_were_queued();
            self.lemma_drained_heads_were_queued();
            crate::fixed_size_priority_queue::lemma_root_is_least(self.queue);
            let heads = self.drained_heads();
            assert forall|i: int, j: int| 0 <= i <= j < heads.len() implies (#[trigger] heads[i]).schedule.rank()
                <= (#[trigger] heads[j]).schedule.rank() by {
                if i == 0 {
                    let h = heads[j];
                    assert(self.queue.contains(h));
                    let at = choose|at: int| 0 <= at < self.queue.len() && self.queue[at] == h;
                    assert(self.queue[0].rank() <= self.queue[at].rank());
                } else {
                    assert(heads[i] == next.drained_heads()[i - 1]);
                    assert(heads[j] == next.drained_heads()[j - 1]);
                }
            }
        }
    }

    proof fn lemma_step_stale(self, led_num: usize)
        requires
            self.wf(),
            self.head_due(),
            led_num < 4,
            self.modes[led_num as int] != LedMode::BLINK,
            self.only_level_changes_for(led_num),
        ensures
            self.step().statuses[led_num as int] == self.statuses[led_num as int],
            self.step().modes[led_num as int] == self.modes[led_num as int],
            self.step().only_level_changes_for(led_num),
            self.step().count_for(led_num) <= self.count_for(led_num),
    {
        broadcast use vstd::seq_lib::group_to_multiset_ensures;

        let head = self.queue[0];
        let popped = self.without_head();
        crate::fixed_size_priority_queue::lemma_popped_items(self.queue);
        crate::fixed_size_priority_queue::lemma_popped_contains(self.queue);
        assert(self.queue.to_multiset().count(head) > 0) by {
            assert(self.queue.contains(head));
        }
        crate::counting::lemma_count_where_remove(
            self.queue.to_multiset(),
            for_led(led_num),
            head,
        );
        assert(popped.only_level_changes_for(led_num)) by {
            assert forall|i: int|
                0 <= i < popped.queue.len() && (#[trigger] popped.queue[i]).led_num
                    == led_num implies popped.queue[i].command is ChangeLedStatus by {
                assert(popped.queue.contains(popped.queue[i]));
                assert(self.queue.contains(popped.queue[i]));
            }
        }
        let applied = popped.applied(head.led_num, head.command);
        match popped.follow_up(head.led_num, head.command) {
            Some(next) => {
                assert(next.led_num == head.led_num);
                assert(head.led_num != led_num);
                let after = applied.scheduled(next);
                if applied.queue.len() < QUEUE_LENGTH {
                    crate::fixed_size_priority_queue::lemma_pushed_items(applied.queue, next);
                    crate::fixed_size_priority_queue::lemma_pushed_contains(applied.queue, next);
                    crate::counting::lemma_count_where_insert(
                        applied.queue.to_multiset(),
                        for_led(led_num),
                        next,
                    );
                    assert forall|i: int|
                        0 <= i < after.queue.len() && (#[trigger] after.queue[i]).led_num
                            == led_num implies after.queue[i].command is ChangeLedStatus by {
                        assert(after.queue.contains(after.queue[i]));
                        assert(popped.queue.contains(after.queue[i]));
                    }
                }
            },
            None => {},
        }
    }

    proof fn lemma_drained_stale(self, led_num: usize)
        requires
            self.wf(),
            self.now.can_add_millis(BLINK_MILLIS),
            led_num < 4,
            self.modes[led_num as int] != LedMode::BLINK,
            self.only_level_changes_for(led_num),
        ensures
            self.drained().statuses[led_num as int] == self.statuses[led_num as int],
            self.drained().modes[led_num as int] == self.modes[led_num as int],
            self.drained().only_level_changes_for(led_num),
            self.drained().count_for(led_num) <= self.count_for(led_num),
        decreases self.due_count(),
    {
        if self.head_due() {
            self.lemma_step_due_count();
            self.lemma_step_wf();
            self.lemma_step_stale(led_num);
            self.step().lemma_drained_stale(led_num);
        }
    }

    /// An LED that does not blink, and for which only level changes are
    /// queued, is left alone when the alarm is served: its level and mode
    /// stay, and no further command for it is queued.
    pub proof fn lemma_stale_level_changes_do_nothing(self, led_num: usize)
        requires
            self.wf(),
            self.now.can_add_millis(BLINK_MILLIS),
            led_num < 4,
            self.modes[led_num as int] != LedMode::BLINK,
            self.only_level_changes_for(led_num),
        ensures
            self.handle_schedule().statuses[led_num as int] == self.statuses[led_num as int],
            self.handle_schedule().modes[led_num as int] == self.modes[led_num as int],
            self.handle_schedule().only_level_changes_for(led_num),
            self.handle_schedule().count_for(led_num) <= self.count_for(led_num),
    {
        let cleared = LedPinsView { alarm: None, ..self };
        cleared.lemma_drained_stale(led_num);
    }

    /// Taking an LED out of the blink mode ends its blinking for good: set
    /// to HIGH or LOW while only level changes are queued for it, it keeps
    /// that level whenever the alarm is served afterwards, and nothing
    /// further is queued for it.
    pub proof fn lemma_leaving_blink_is_final(self, led_num: usize, mode: LedMode, later: I)
        requires
            self.wf(),
            led_num < 4,
            mode != LedMode::BLINK,
            self.only_level_changes_for(led_num),
            later.can_add_millis(BLINK_MILLIS),
        ensures
            self.set_led_mode(led_num, mode).at(later).handle_schedule().statuses[led_num as int]
                == entry_level(mode),
            self.set_led_mode(led_num, mode).at(later).handle_schedule().modes[led_num as int]
                == mode,
            self.set_led_mode(led_num, mode).at(later).handle_schedule().count_for(led_num)
                <= self.count_for(led_num),
    {
        self.set_led_mode(led_num, mode).at(later).lemma_stale_level_changes_do_nothing(led_num);
    }
}

/// Four LEDs with their modes, the queue of their timed commands, and the
/// time source whose one alarm serves them all.
pub struct LedPins<I, D, L, S> where I: Instant, D: Duration, L: Led, S: Scheduler<I, D> {
    /// The four LEDs.
    pub leds: [L; 4],
    /// The mode of each LED.
    pub led_modes: [LedMode; 4],
    /// The commands that wait for their instant.
    pub queue: FixedSizePriorityQueue<ScheduledPinsCommand<I>, QUEUE_LENGTH>,
    /// The counter and the alarm.
    pub scheduler: S,
    /// The intervals the time source counts down are of type `D`.
    pub _phantom_d: PhantomData<D>,
}

impl<I, D, L, S> LedPins<I, D, L, S> where I: Instant, D: Duration, L: Led, S: Scheduler<I, D> {
    /// The engine as the contracts see it.
    pub open spec fn view(&self) -> LedPinsView<I> {
        LedPinsView {
            statuses: Seq::new(4, |i: int| self.leds@[i].status()),
            modes: self.led_modes@,
            queue: self.queue@,
            now: self.scheduler.counter(),
            alarm: self.scheduler.pending(),
        }
    }

    /// The queue is a well-formed heap whose commands all name one of the
    /// four LEDs.
    pub open spec fn wf(&self) -> bool {
        &&& self.queue.wf()
        &&& self@.wf()
    }

    /// An engine over four LEDs and a time source: every mode is LOW and
    /// nothing is queued. The pins and the alarm are left as they are.
    pub fn init(led0: L, led1: L, led2: L, led3: L, scheduler: S) -> (led_pins: Self)
        ensures
            led_pins.wf(),
            led_pins.leds@ == seq![led0, led1, led2, led3],
            led_pins.scheduler == scheduler,
            led_pins@.modes == seq![LedMode::LOW, LedMode::LOW, LedMode::LOW, LedMode::LOW],
            led_pins@.queue == Seq::<ScheduledPinsCommand<I>>::empty(),
    {
        let led_pins = LedPins {
            leds: [led0, led1, led2, led3],
            led_modes: [LedMode::LOW;4],
            queue: FixedSizePriorityQueue::new(),
            scheduler,
            _phantom_d: PhantomData,
        };
        proof {
            led_pins.queue.lemma_wf();
            assert(led_pins@.modes =~= seq![
                LedMode::LOW,
                LedMode::LOW,
                LedMode::LOW,
                LedMode::LOW,
            ]);
        }
        led_pins
    }

    /// Hands `cmd` to the queue and arms the alarm for it if the alarm is
    /// idle. A full queue drops the command.
    ///
    /// Afterwards the queue is not empty and the alarm is not idle.
    pub fn schedule(&mut self, cmd: ScheduledPinsCommand<I>)
        requires
            old(self).wf(),
            cmd.led_num < 4,
        ensures
            final(self).wf(),
            final(self)@ == old(self)@.scheduled(cmd),
            final(self).leds == old(self).leds,
            final(self)@.queue.len() > 0,
            final(self)@.alarm.is_some(),
    {
        proof {
            self@.lemma_scheduled_wf(cmd);
            crate::fixed_size_priority_queue::lemma_pushed_items(self@.queue, cmd);
        }
        let _ = self.queue.push(cmd);
        if self.scheduler.finished() {
            self.scheduler.schedule_at(cmd.schedule);
        }
        proof {
            assert(self@.statuses =~= old(self)@.statuses);
        }
    }

    /// Puts LED `led_num` into `led_mode` at once. HIGH and LOW drive the pin
    /// and queue nothing; BLINK drives the pin high and queues the falling
    /// edge one blink period from now, after which the queue is not empty and
    /// the alarm is not idle.
    pub fn set_led_mode(&mut self, led_num: usize, led_mode: LedMode)
        requires
            old(self).wf(),
            led_num < 4,
            led_mode == LedMode::BLINK ==> old(self)@.now.can_add_millis(BLINK_MILLIS),
        ensures
            final(self).wf(),
            final(self)@ == old(self)@.set_led_mode(led_num, led_mode),
            led_mode == LedMode::BLINK ==> final(self)@.queue.len() > 0,
            led_mode == LedMode::BLINK ==> final(self)@.alarm.is_some(),
            led_mode != LedMode::BLINK ==> final(self)@.queue == old(self)@.queue,
            led_mode != LedMode::BLINK ==> final(self)@.alarm == old(self)@.alarm,
    {
        if let Some(next) = self._change_mode(led_num, led_mode) {
            self.schedule(next);
        }
    }

    /// Queues the change of LED `led_num` to `led_mode` for `countdown` from
    /// now. The pin is not touched before the command falls due.
    ///
    /// Afterwards the queue is not empty and the alarm is not idle.
    pub fn set_mode_later(&mut self, led_num: usize, led_mode: LedMode, countdown: D)
        requires
            old(self).wf(),
            led_num < 4,
            old(self)@.now.can_add_millis(countdown.millis()),
        ensures
            final(self).wf(),
            final(self)@ == old(self)@.set_mode_later(led_num, led_mode, countdown.millis()),
            final(self).leds == old(self).leds,
            final(self)@.queue.len() > 0,
            final(self)@.alarm.is_some(),
    {
        let cmd = ScheduledPinsCommand {
            schedule: self.scheduler.get_counter().add_millis(countdown.to_millis()),
            led_num,
            command: Command::ChangeLedMode(led_mode),
        };
        proof {
            self@.lemma_scheduled_wf(cmd);
            crate::fixed_size_priority_queue::lemma_pushed_items(self@.queue, cmd);
        }
        let _ = self.queue.push(cmd);
        if self.scheduler.finished() {
            self.scheduler.schedule(countdown);
        }
        proof {
            assert(self@.statuses =~= old(self)@.statuses);
        }
    }

    /// Enters a mode: records it, drives the pin, and hands back the command
    /// that a blinking LED needs next.
    fn _change_mode(&mut self, led_num: usize, led_mode: LedMode) -> (next: Option<
        ScheduledPinsCommand<I>,
    >)
        requires
            old(self).wf(),
            led_num < 4,
            led_mode == LedMode::BLINK ==> old(self)@.now.can_add_millis(BLINK_MILLIS),
        ensures
            final(self).wf(),
            final(self)@ == old(self)@.with_mode(led_num, led_mode),
            next == old(self)@.mode_follow_up(led_num, led_mode),
            next matches Some(cmd) ==> cmd.led_num < 4,
    {
        self.led_modes[led_num] = led_mode;
        let next = match led_mode {
            LedMode::HIGH => {
                self.leds[led_num].set_status(LedStatus::HIGH);
                None
            },
            LedMode::LOW => {
                self.leds[led_num].set_status(LedStatus::LOW);
                None
            },
            LedMode::BLINK => {
                self.leds[led_num].set_status(LedStatus::HIGH);
                Some(
                    ScheduledPinsCommand {
                        schedule: self.scheduler.get_counter().add_millis(BLINK_MILLIS),
                        led_num,
                        command: Command::ChangeLedStatus(LedStatus::LOW),
                    },
                )
            },
        };
        proof {
            assert(self@.statuses =~= old(self)@.with_mode(led_num, led_mode).statuses);
            assert(self@.modes =~= old(self)@.with_mode(led_num, led_mode).modes);
        }
        next
    }

    /// Carries out a command that fell due and hands back the command to
    /// queue next, if there is one. A level change for an LED that no longer
    /// blinks does nothing and asks for nothing.
    fn _handle_command(&mut self, led_num: usize, command: Command) -> (next: Option<
        ScheduledPinsCommand<I>,
    >)
        requires
            old(self).wf(),
            led_num < 4,
            old(self)@.now.can_add_millis(BLINK_MILLIS),
        ensures
            final(self).wf(),
            final(self)@ == old(self)@.applied(led_num, command),
            next == old(self)@.follow_up(led_num, command),
            next matches Some(cmd) ==> cmd.led_num < 4,
    {
        let current_mode = self.led_modes[led_num];
        match (command, current_mode) {
            (Command::ChangeLedMode(mode), _) => self._change_mode(led_num, mode),
            (Command::ChangeLedStatus(pin), LedMode::BLINK) => {
                let next_pin = match pin {
                    LedStatus::HIGH => LedStatus::LOW,
                    LedStatus::LOW => LedStatus::HIGH,
                };
                self.leds[led_num].set_status(pin);
                proof {
                    assert(self@.statuses =~= old(self)@.applied(led_num, command).statuses);
                }
                Some(
                    ScheduledPinsCommand {
                        schedule: self.scheduler.get_counter().add_millis(BLINK_MILLIS),
                        led_num,
                        command: Command::ChangeLedStatus(next_pin),
                    },
                )
            },
            (Command::ChangeLedStatus(_), _) => None,
        }
    }

    /// Whether the head of the queue has fallen due at `now`.
    fn head_is_due(&self, now: I) -> (due: bool)
        requires
            self.wf(),
            now == self@.now,
        ensures
            due == self@.head_due(),
    {
        match self.queue.peek() {
            Some(next) => !now.ranks_before(&next.schedule),
            None => false,
        }
    }

    /// Serves the alarm: clears its flag, carries out every command that has
    /// fallen due, head by head, queues what they ask for, and arms an alarm
    /// that is still idle for the head of what is left.
    ///
    /// Afterwards no queued command is due, and the alarm is idle exactly
    /// when the queue is empty.
    pub fn handle_schedule(&mut self)
        requires
            old(self).wf(),
            old(self)@.now.can_add_millis(BLINK_MILLIS),
        ensures
            final(self).wf(),
            final(self)@ == old(self)@.handle_schedule(),
            (final(self)@.queue.len() == 0) == final(self)@.alarm.is_none(),
            forall|i: int|
                0 <= i < final(self)@.queue.len() ==> final(self)@.now.rank() < (
                #[trigger] final(self)@.queue[i]).schedule.rank(),
    {
        proof {
            old(self)@.lemma_handle_schedule_settles();
        }
        self.scheduler.clear_interrupt();
        let now = self.scheduler.get_counter();
        let ghost start = self@;
        proof {
            assert(start.statuses =~= old(self)@.statuses);
            assert(start == LedPinsView { alarm: None, ..old(self)@ });
        }
        while self.head_is_due(now)
            invariant
                self.wf(),
                self@.now == now,
                now.can_add_millis(BLINK_MILLIS),
                self@.drained() == start.drained(),
            decreases self@.due_count(),
        {
            let ghost before = self@;
            proof {
                before.lemma_step_due_count();
                self.queue.lemma_wf();
                crate::fixed_size_priority_queue::lemma_popped(before.queue);
            }
            let next = self.queue.pop().unwrap();
            proof {
                let popped = before.without_head();
                assert(self@.statuses =~= popped.statuses);
                assert(self@ == popped);
                before.lemma_step_wf();
                before.lemma_without_head_wf();
            }
            if let Some(follow) = self._handle_command(next.led_num, next.command) {
                self.schedule(follow);
            }
            assert(self@ == before.step());
        }
        if self.scheduler.finished() {
            if let Some(next) = self.queue.peek() {
                self.scheduler.schedule_at(next.schedule);
            }
        }
        proof {
            assert(self@.statuses =~= start.drained().statuses);
        }
    }

    /// Reads the level of each LED.
    pub fn leds_status(&self) -> (levels: [LedStatus; 4])
        ensures
            levels@ == self@.statuses,
    {
        let levels = [
            self.leds[0].get_status(),
            self.leds[1].get_status(),
            self.leds[2].get_status(),
            self.leds[3].get_status(),
        ];
        proof {
            assert(levels@ =~= self@.statuses);
        }
        levels
    }
}

} // verus!
