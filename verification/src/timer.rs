//! One-shot timers that expire a fixed duration after they were started, and
//! the steps of waiting for one as a future.

use vstd::prelude::*;
use crate::time::{TickInstant, TickDuration, instant_at_or_after, wrapping_add_ticks, half_range, ticks_ahead};
use crate::deadlines::{DeadlineQueue, is_least, lemma_least_unique, MAX_DEADLINES};

verus! {

/// Where a timer stands as a future: not yet registered for a wake-up, or waiting.
#[derive(Clone, Copy, Debug, PartialEq, Eq)]
pub enum TimerState {
    Init,
    Wait,
}

/// A timer that expires at a fixed instant.
pub struct Timer {
    end_time: TickInstant,
    state: TimerState,
}

/// What polling a timer asks of the caller.
#[derive(Clone, Copy, Debug, PartialEq, Eq)]
pub enum TimerPoll {
    /// First poll: register the timer's deadline for the polling task, then report pending.
    Register,
    /// Not expired yet.
    Pending,
    /// Expired.
    Ready,
}

impl Timer {
    /// The instant (in ticks) at which the timer expires.
    pub closed spec fn end_ticks(&self) -> u64 {
        self.end_time.ticks
    }

    /// Whether the timer's deadline has been registered.
    pub closed spec fn is_waiting(&self) -> bool {
        self.state == TimerState::Wait
    }

    /// A timer started at `now` that expires `duration` later.
    pub fn new(now: TickInstant, duration: TickDuration) -> (r: Timer)
        ensures
            r.end_ticks() == wrapping_add_ticks(now.ticks, duration.ticks),
            !r.is_waiting(),
    {
        Timer { end_time: now.add(duration), state: TimerState::Init }
    }

    /// The instant at which the timer expires.
    pub fn end_time(&self) -> (r: TickInstant)
        ensures
            r.ticks == self.end_ticks(),
    {
        self.end_time
    }

    /// Whether the timer has expired at `now`.
    pub fn is_ready(&self, now: TickInstant) -> (r: bool)
        ensures
            r == instant_at_or_after(now.ticks, self.end_ticks()),
    {
        now.is_at_or_after(&self.end_time)
    }

    /// Places the timer's deadline for `task_id` in the queue. The result says
    /// whether it is now the earliest deadline, so that the compare register
    /// has to be programmed again. The queue must have room (a dropped
    /// deadline would leave its task asleep for ever).
    pub fn register(&self, queue: &mut DeadlineQueue, task_id: usize) -> (is_earliest: bool)
        requires
            old(queue)@.len() < MAX_DEADLINES,
        ensures
            final(queue)@ == old(queue)@.insert((self.end_ticks(), task_id)),
            old(queue)@.len() == 0 ==> is_earliest,
            forall|x: (u64, usize)| #[trigger] is_least(old(queue)@, x) ==> is_earliest == (self.end_ticks() < x.0),
    {
        let new_deadline = self.end_time.ticks;
        let peeked = queue.peek();
        let is_earliest = match peeked {
            Some((next_deadline, _)) => new_deadline < next_deadline,
            None => true,
        };
        proof {
            if let Some(p) = peeked {
                assert forall|x: (u64, usize)| #[trigger] is_least(old(queue)@, x) implies x == p by {
                    lemma_least_unique(old(queue)@, x, p);
                }
            }
        }
        queue.push(new_deadline, task_id);
        is_earliest
    }

    /// One poll of the timer as a future at `now`. The first poll moves it to
    /// waiting and asks for its deadline to be registered; later polls report
    /// whether it has expired.
    pub fn poll(&mut self, now: TickInstant) -> (r: TimerPoll)
        ensures
            final(self).end_ticks() == old(self).end_ticks(),
            final(self).is_waiting(),
            !old(self).is_waiting() ==> r == TimerPoll::Register,
            old(self).is_waiting() ==> r == (if instant_at_or_after(now.ticks, old(self).end_ticks()) {
                TimerPoll::Ready
            } else {
                TimerPoll::Pending
            }),
    {
        match self.state {
            TimerState::Init => {
                self.state = TimerState::Wait;
                TimerPoll::Register
            },
            TimerState::Wait => {
                if self.is_ready(now) {
                    TimerPoll::Ready
                } else {
                    TimerPoll::Pending
                }
            },
        }
    }
}

/// Law: a timer started at `now` for `duration` is ready `k` ticks later
/// exactly when `k >= duration`, for durations and waits of at most half the
/// tick range (beyond which the wrap-around ordering cannot tell them apart).
pub proof fn lemma_timer_ready_exactly_after(timer: Timer, now: TickInstant, duration: TickDuration, k: u64)
    requires
        timer.end_ticks() == wrapping_add_ticks(now.ticks, duration.ticks),
        duration.ticks <= half_range(),
        k <= half_range(),
    ensures
        instant_at_or_after(wrapping_add_ticks(now.ticks, k), timer.end_ticks()) == (k >= duration.ticks),
{
}

/// Law: once a timer is ready at `t`, it stays ready (and a waiting timer's
/// `poll` keeps returning `Ready`) at every later instant `t + d`, as long as
/// the time since the timer's end stays within half the tick range; beyond
/// that the wrap-around ordering takes the end to lie in the future again.
pub proof fn lemma_ready_stays_ready(timer: Timer, t: u64, d: u64)
    requires
        instant_at_or_after(t, timer.end_ticks()),
        ticks_ahead(t, timer.end_ticks()) + d <= half_range(),
    ensures
        instant_at_or_after(wrapping_add_ticks(t, d), timer.end_ticks()),
{
}

} // verus!
