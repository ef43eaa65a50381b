//! The greeting state machine: it alternates between printing a numbered
//! greeting and idling. Entering the print state emits the current count,
//! increments it and restarts the two-second timer; entering idle does nothing.

use vstd::prelude::*;
use crate::time::{TickInstant, TickDuration, wrapping_add_ticks, millis_as_ticks, instant_at_or_after};
use crate::timer::Timer;

verus! {

/// Events the greeting machine reacts to.
#[derive(Clone, Copy, Debug, PartialEq, Eq)]
pub enum Event {
    TimerElapsed,
}

/// The states of the greeting machine.
#[derive(Clone, Copy, Debug, PartialEq, Eq)]
pub enum HelloState {
    Print,
    Idle,
}

/// What handling an event did: the state entered and, when the print state
/// was entered, the greeting number to send.
#[derive(Clone, Copy, Debug, PartialEq, Eq)]
pub struct HelloTransition {
    pub entered: HelloState,
    pub printed: Option<u32>,
}

/// The greeting machine: state, timer and the number of greetings sent.
pub struct Hello {
    state: HelloState,
    timer: Timer,
    count: u32,
}

/// The state an event leads to.
pub open spec fn hello_next(s: HelloState, e: Event) -> HelloState {
    match (s, e) {
        (HelloState::Print, Event::TimerElapsed) => HelloState::Idle,
        (HelloState::Idle, Event::TimerElapsed) => HelloState::Print,
    }
}

/// Ticks in the greeting period of two seconds.
pub open spec fn greeting_ticks() -> u64 {
    millis_as_ticks(2000) as u64
}

impl Hello {
    /// The current state.
    pub closed spec fn spec_state(&self) -> HelloState {
        self.state
    }

    /// When the timer ends.
    pub closed spec fn spec_timer_end(&self) -> u64 {
        self.timer.end_ticks()
    }

    /// Greetings sent so far.
    pub closed spec fn spec_count(&self) -> u32 {
        self.count
    }

    /// A machine in its initial state (print) with no greeting sent and a
    /// two-second timer started at `now`; the initial state has not been
    /// entered yet (see `init`).
    pub fn new(now: TickInstant) -> (r: Hello)
        ensures
            r.spec_state() == HelloState::Print,
            r.spec_count() == 0,
            r.spec_timer_end() == wrapping_add_ticks(now.ticks, greeting_ticks()),
    {
        Hello { state: HelloState::Print, timer: Timer::new(now, TickDuration::millis(2000)), count: 0 }
    }

    /// The current state.
    pub fn state(&self) -> (r: HelloState)
        ensures
            r == self.spec_state(),
    {
        self.state
    }

    /// Greetings sent so far.
    pub fn count(&self) -> (r: u32)
        ensures
            r == self.spec_count(),
    {
        self.count
    }

    /// Whether the timer has elapsed at `now`.
    pub fn timer_is_ready(&self, now: TickInstant) -> (r: bool)
        ensures
            r == instant_at_or_after(now.ticks, self.spec_timer_end()),
    {
        self.timer.is_ready(now)
    }

    /// The entry action of the print state: emit the count, count the
    /// greeting, restart the timer.
    fn enter_print(&mut self, now: TickInstant) -> (r: u32)
        requires
            old(self).spec_count() < u32::MAX,
        ensures
            r == old(self).spec_count(),
            final(self).spec_count() == old(self).spec_count() + 1,
            final(self).spec_state() == HelloState::Print,
            final(self).spec_timer_end() == wrapping_add_ticks(now.ticks, greeting_ticks()),
    {
        let printed = self.count;
        self.count = self.count + 1;
        self.timer = Timer::new(now, TickDuration::millis(2000));
        self.state = HelloState::Print;
        printed
    }

    /// Starts the machine: enters the print state at `now`.
    pub fn init(&mut self, now: TickInstant) -> (r: HelloTransition)
        requires
            old(self).spec_count() < u32::MAX,
        ensures
            r == (HelloTransition { entered: HelloState::Print, printed: Some(old(self).spec_count()) }),
            final(self).spec_state() == HelloState::Print,
            final(self).spec_count() == old(self).spec_count() + 1,
            final(self).spec_timer_end() == wrapping_add_ticks(now.ticks, greeting_ticks()),
    {
        let printed = self.enter_print(now);
        HelloTransition { entered: HelloState::Print, printed: Some(printed) }
    }

    /// Handles an event at `now`. Going to idle changes nothing else (the
    /// timer keeps its end); going to print sends the next greeting.
    pub fn handle(&mut self, event: &Event, now: TickInstant) -> (r: HelloTransition)
        requires
            hello_next(old(self).spec_state(), *event) == HelloState::Print ==> old(self).spec_count() < u32::MAX,
        ensures
            final(self).spec_state() == hello_next(old(self).spec_state(), *event),
            hello_next(old(self).spec_state(), *event) == HelloState::Idle ==> {
                &&& r == (HelloTransition { entered: HelloState::Idle, printed: None })
                &&& final(self).spec_count() == old(self).spec_count()
                &&& final(self).spec_timer_end() == old(self).spec_timer_end()
            },
            hello_next(old(self).spec_state(), *event) == HelloState::Print ==> {
                &&& r == (HelloTransition { entered: HelloState::Print, printed: Some(old(self).spec_count()) })
                &&& final(self).spec_count() == old(self).spec_count() + 1
                &&& final(self).spec_timer_end() == wrapping_add_ticks(now.ticks, greeting_ticks())
            },
    {
        match (self.state, event) {
            (HelloState::Print, Event::TimerElapsed) => {
                self.state = HelloState::Idle;
                HelloTransition { entered: HelloState::Idle, printed: None }
            },
            (HelloState::Idle, Event::TimerElapsed) => {
                let printed = self.enter_print(now);
                HelloTransition { entered: HelloState::Print, printed: Some(printed) }
            },
        }
    }
}

/// Polls the machine at `now`: when its timer has elapsed it handles a
/// `TimerElapsed` event, otherwise nothing changes.
pub fn hello_poll(hello: &mut Hello, now: TickInstant) -> (r: Option<HelloTransition>)
    requires
        instant_at_or_after(now.ticks, old(hello).spec_timer_end()) && old(hello).spec_state() == HelloState::Idle
            ==> old(hello).spec_count() < u32::MAX,
    ensures
        !instant_at_or_after(now.ticks, old(hello).spec_timer_end()) ==> r is None
            && final(hello).spec_state() == old(hello).spec_state()
            && final(hello).spec_count() == old(hello).spec_count()
            && final(hello).spec_timer_end() == old(hello).spec_timer_end(),
        instant_at_or_after(now.ticks, old(hello).spec_timer_end()) ==> {
            &&& final(hello).spec_state() == hello_next(old(hello).spec_state(), Event::TimerElapsed)
            &&& old(hello).spec_state() == HelloState::Print ==> {
                &&& r == Some(HelloTransition { entered: HelloState::Idle, printed: None })
                &&& final(hello).spec_count() == old(hello).spec_count()
                &&& final(hello).spec_timer_end() == old(hello).spec_timer_end()
            }
            &&& old(hello).spec_state() == HelloState::Idle ==> {
                &&& r == Some(HelloTransition { entered: HelloState::Print, printed: Some(old(hello).spec_count()) })
                &&& final(hello).spec_count() == old(hello).spec_count() + 1
                &&& final(hello).spec_timer_end() == wrapping_add_ticks(now.ticks, greeting_ticks())
            }
        },
{
    if hello.timer_is_ready(now) {
        Some(hello.handle(&Event::TimerElapsed, now))
    } else {
        None
    }
}

/// Law: two events bring the machine back to its state, and of any two
/// consecutive transitions exactly one enters the print state (and sends a greeting).
pub proof fn lemma_hello_alternates(s: HelloState)
    ensures
        hello_next(hello_next(s, Event::TimerElapsed), Event::TimerElapsed) == s,
        (hello_next(s, Event::TimerElapsed) == HelloState::Print)
            != (hello_next(hello_next(s, Event::TimerElapsed), Event::TimerElapsed) == HelloState::Print),
        greeting_ticks() == 65536,
{
}

/// The machine after `k` elapsed-timer events from state `s` with `count`
/// greetings sent: its state, its count, and the greeting numbers sent on the
/// way, in order. Each event follows `hello_next`; entering the print state
/// sends the current count and increments it (as `handle` and `hello_poll` do).
pub open spec fn hello_after(s: HelloState, count: int, k: nat) -> (HelloState, int, Seq<int>)
    decreases k,
{
    if k == 0 {
        (s, count, Seq::empty())
    } else {
        let prev = hello_after(s, count, (k - 1) as nat);
        match hello_next(prev.0, Event::TimerElapsed) {
            HelloState::Idle => (HelloState::Idle, prev.1, prev.2),
            HelloState::Print => (HelloState::Print, prev.1 + 1, prev.2.push(prev.1)),
        }
    }
}

/// Law: starting in the print state with `count` greetings sent (as `init`
/// leaves the machine, with `count` 1), after `k` elapsed-timer polls the
/// machine is in the print state exactly when `k` is even, has sent `k / 2`
/// more greetings, and the greetings sent are numbered `count`,
/// `count + 1`, ... in order.
pub proof fn lemma_hello_after_k_polls(count: int, k: nat)
    ensures
        hello_after(HelloState::Print, count, k).0 == (if k % 2 == 0 { HelloState::Print } else { HelloState::Idle }),
        hello_after(HelloState::Print, count, k).1 == count + k / 2,
        hello_after(HelloState::Print, count, k).2 =~= Seq::new(k / 2, |i: int| count + i),
    decreases k,
{
    if k > 0 {
        lemma_hello_after_k_polls(count, (k - 1) as nat);
    }
}

} // verus!
