use vstd::prelude::*;

use std::time::{Duration, Instant};

verus! {

#[verifier::external_type_specification]
#[verifier::external_body]
pub struct ExInstant(Instant);

/// Relies on `Instant::now`: a reading of the monotonic clock.
pub assume_specification[ Instant::now ]() -> Instant;

/// Relies on `Instant::elapsed`: the time since the reading was taken.
pub assume_specification[ Instant::elapsed ](this: &Instant) -> Duration;

/// Relies on `Duration::as_micros`: a duration as whole microseconds.
pub assume_specification[ Duration::as_micros ](this: &Duration) -> u128;

/// Length of one countdown interval, in microseconds (60 decrements per
/// second).
pub const TICK_MICROS: u128 = 16600;

/// The value of a countdown that started at `start`, `elapsed` microseconds
/// after it started: one less per full interval, holding at zero.
pub open spec fn countdown(start: u8, elapsed: int) -> u8 {
    if elapsed / 16600 >= start {
        0
    } else {
        (start - elapsed / 16600) as u8
    }
}

/// What a timer holds: the value it was last set to, and the latest value
/// it reported.
pub ghost struct TimerView {
    pub start: u8,
    pub value: u8,
}

/// A delay timer that counts down from the value it is set to, once every
/// `TICK_MICROS`, until it reaches zero. Setting it again replaces the
/// countdown in progress.
pub struct Timer {
    start: u8,
    since: Instant,
    last: u8,
}

impl View for Timer {
    type V = TimerView;

    closed spec fn view(&self) -> TimerView {
        TimerView { start: self.start, value: self.last }
    }
}

/// The value of a countdown from `start` after `elapsed` microseconds.
pub fn value_after(start: u8, elapsed: u128) -> (r: u8)
    ensures
        r == countdown(start, elapsed as int),
{
    let ticks = elapsed / TICK_MICROS;
    if ticks >= start as u128 {
        0
    } else {
        start - ticks as u8
    }
}

impl Timer {
    /// The reported value is that of the current countdown at some moment.
    pub open spec fn wf(&self) -> bool {
        exists|e: int| e >= 0 && #[trigger] countdown(self@.start, e) == self@.value
    }

    /// A timer at zero.
    pub fn new() -> (r: Self)
        ensures
            r.wf(),
            r@.start == 0,
            r@.value == 0,
    {
        let since = Instant::now();
        let r = Timer { start: 0, since, last: 0 };
        assert(countdown(r@.start, 0) == r@.value);
        r
    }

    /// Starts a new countdown from `i`, replacing the one in progress.
    pub fn set(&mut self, i: u8)
        ensures
            final(self).wf(),
            final(self)@.start == i,
            final(self)@.value == i,
    {
        self.since = Instant::now();
        self.start = i;
        self.last = i;
        assert(countdown(self@.start, 0) == self@.value);
    }

    /// The current value of the countdown. It never exceeds the value
    /// reported before, so once zero it stays zero until the next `set`.
    pub fn get(&mut self) -> (r: u8)
        requires
            old(self).wf(),
        ensures
            final(self).wf(),
            final(self)@.start == old(self)@.start,
            final(self)@.value == r,
            r <= old(self)@.value,
    {
        let ghost seen = choose|e: int| e >= 0 && #[trigger] countdown(self@.start, e) == self@.value;
        let elapsed = self.since.elapsed();
        let micros = elapsed.as_micros();
        let now = value_after(self.start, micros);
        if now < self.last {
            self.last = now;
            assert(countdown(self@.start, micros as int) == self@.value);
        } else {
            assert(countdown(self@.start, seen) == self@.value);
        }
        self.last
    }
}

/// The countdown: it reports its start value until the first interval has
/// passed, it never rises, and it is zero once `start` intervals have
/// passed.
pub proof fn lemma_countdown(start: u8, e1: int, e2: int)
    requires
        0 <= e1 <= e2,
    ensures
        e1 < 16600 ==> countdown(start, e1) == start,
        countdown(start, e2) <= countdown(start, e1),
        e1 >= start * 16600 ==> countdown(start, e1) == 0,
{
    assert(e1 / 16600 <= e2 / 16600) by (nonlinear_arith)
        requires
            0 <= e1 <= e2,
    ;
    if e1 >= start * 16600 {
        assert(e1 / 16600 >= start) by (nonlinear_arith)
            requires
                e1 >= start * 16600,
                start >= 0,
        ;
    }
}

} // verus!
