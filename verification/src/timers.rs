//! The timer peripheral's vocabulary: timer ids, per-timer arrays, timer
//! states, and the [`Timers`] trait itself.

use vstd::prelude::*;
use core::ops::{Deref, Index, IndexMut};
use core::sync::atomic::AtomicBool;
use crate::isa::Word;

verus! {

/// Identifies one of the timers.
#[derive(Copy, Clone, Debug, PartialEq, Eq, Structural)]
pub enum TimerId {
    T0,
    T1,
}

impl TimerId {
    pub const NUM_TIMERS: usize = 2;
}

/// Position of `timer` in a [`TimerArr`].
pub open spec fn timer_index(timer: TimerId) -> usize {
    match timer {
        TimerId::T0 => 0,
        TimerId::T1 => 1,
    }
}

/// The timer that sits at position `i` of a [`TimerArr`].
pub open spec fn timer_at(i: int) -> TimerId {
    if i == 0 {
        TimerId::T0
    } else {
        TimerId::T1
    }
}

impl From<TimerId> for usize {
    fn from(timer: TimerId) -> (r: usize) {
        match timer {
            TimerId::T0 => 0,
            TimerId::T1 => 1,
        }
    }
}

impl vstd::std_specs::convert::FromSpecImpl<TimerId> for usize {
    open spec fn obeys_from_spec() -> bool {
        true
    }

    open spec fn from_spec(timer: TimerId) -> usize {
        timer_index(timer)
    }
}

/// Numbering timers and listing them in order agree: timer `t` sits at
/// position `usize::from(t)`, and position `i` holds the timer numbered `i`.
pub proof fn law_timer_numbering(t: TimerId, i: int)
    requires
        0 <= i < TimerId::NUM_TIMERS,
    ensures
        timer_index(t) < TimerId::NUM_TIMERS,
        timer_at(timer_index(t) as int) == t,
        timer_index(timer_at(i)) == i,
{
}

/// All the timers, in order.
pub fn timers() -> (r: TimerArr<TimerId>)
    ensures
        forall|i: int| 0 <= i < 2 ==> #[trigger] r.0@[i] == timer_at(i),
{
    TimerArr([TimerId::T0, TimerId::T1])
}

/// One value per timer, indexed by [`TimerId`].
#[derive(Copy, Clone, Debug, PartialEq)]
pub struct TimerArr<T>(pub [T; 2]);

impl<T> TimerArr<T> {
    /// The value held for `timer`.
    pub open spec fn at(&self, timer: TimerId) -> T {
        self.0@[timer_index(timer) as int]
    }
}

impl<T> Deref for TimerArr<T> {
    type Target = [T; 2];

    fn deref(&self) -> (r: &[T; 2])
        ensures
            *r == self.0,
    {
        &self.0
    }
}

impl<T> Index<TimerId> for TimerArr<T> {
    type Output = T;

    fn index(&self, id: TimerId) -> (r: &T)
        ensures
            *r == self.at(id),
    {
        &self.0[usize::from(id)]
    }
}

impl<T> vstd::std_specs::core::IndexSpecImpl<TimerId> for TimerArr<T> {
    open spec fn index_req(&self, id: &TimerId) -> bool {
        true
    }
}

impl<T> IndexMut<TimerId> for TimerArr<T> {
    fn index_mut(&mut self, id: TimerId) -> (r: &mut T)
        ensures
            *r == old(self).at(id),
            final(self).0@ == old(self).0@.update(timer_index(id) as int, *final(r)),
    {
        &mut self.0[usize::from(id)]
    }
}

/// The mode a timer is in.
#[derive(Copy, Clone, Debug, PartialEq, Eq, Structural)]
pub enum TimerState {
    Repeated,
    SingleShot,
    Disabled,
}

/// Any error that setting a timer's state or period may report.
#[derive(Copy, Clone, Debug, PartialEq, Eq, Structural)]
pub struct TimerMiscError;

/// A timer together with the state that made an operation on it fail.
pub type TimerStateMismatch = (TimerId, TimerState);

/// Access to the timers: each has a state and a period in milliseconds, and
/// raises an interrupt when it fires.
pub trait Timers<'a>: Default {
    /// The state this implementation holds for `timer`.
    spec fn timer_state(&self, timer: TimerId) -> TimerState;

    /// The period, in milliseconds, this implementation holds for `timer`.
    spec fn timer_period(&self, timer: TimerId) -> Word;

    /// Puts `timer` in `state`; may fail.
    fn set_state(&mut self, timer: TimerId, state: TimerState) -> (r: Result<(), TimerMiscError>)
        ensures
            r is Ok ==> final(self).timer_state(timer) == state,
    ;

    fn get_state(&self, timer: TimerId) -> (r: TimerState)
        ensures
            r == self.timer_state(timer),
    ;

    /// The states of all the timers.
    fn get_states(&self) -> (r: TimerArr<TimerState>)
        ensures
            forall|t: TimerId| #[trigger] r.at(t) == self.timer_state(t),
    {
        let mut states = TimerArr([TimerState::Disabled; 2]);
        let ids = timers();
        let mut i: usize = 0;
        while i < 2
            invariant
                0 <= i <= 2,
                forall|j: int| 0 <= j < 2 ==> #[trigger] ids.0@[j] == timer_at(j),
                forall|j: int| 0 <= j < i ==> #[trigger] states.0@[j] == self.timer_state(timer_at(j)),
            decreases 2 - i,
        {
            let t = ids.0[i];
            states.0[i] = self.get_state(t);
            i += 1;
        }
        assert forall|t: TimerId| #[trigger] states.at(t) == self.timer_state(t) by {
            assert(timer_at(timer_index(t) as int) == t);
        }
        states
    }

    /// Sets the period of `timer` to `ms` milliseconds; may fail.
    fn set_period(&mut self, timer: TimerId, ms: Word) -> (r: Result<(), TimerMiscError>)
        ensures
            r is Ok ==> final(self).timer_period(timer) == ms,
    ;

    fn get_period(&self, timer: TimerId) -> (r: Word)
        ensures
            r == self.timer_period(timer),
    ;

    /// The periods of all the timers.
    fn get_periods(&self) -> (r: TimerArr<Word>)
        ensures
            forall|t: TimerId| #[trigger] r.at(t) == self.timer_period(t),
    {
        let mut periods = TimerArr([0u16; 2]);
        let ids = timers();
        let mut i: usize = 0;
        while i < 2
            invariant
                0 <= i <= 2,
                forall|j: int| 0 <= j < 2 ==> #[trigger] ids.0@[j] == timer_at(j),
                forall|j: int| 0 <= j < i ==> #[trigger] periods.0@[j] == self.timer_period(timer_at(j)),
            decreases 2 - i,
        {
            let t = ids.0[i];
            periods.0[i] = self.get_period(t);
            i += 1;
        }
        assert forall|t: TimerId| #[trigger] periods.at(t) == self.timer_period(t) by {
            assert(timer_at(timer_index(t) as int) == t);
        }
        periods
    }

    fn register_interrupt_flags(&mut self, flags: &'a TimerArr<AtomicBool>);

    fn interrupt_occurred(&self, timer: TimerId) -> bool;

    fn reset_interrupt_flag(&mut self, timer: TimerId);

    fn interrupts_enabled(&self, timer: TimerId) -> bool;
}

} // verus!
