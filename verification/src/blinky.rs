//! The blinking state machine: two states, LED on and LED off, that swap
//! whenever its timer elapses. Entering a state drives the LED pins and
//! restarts the one-second timer.

use vstd::prelude::*;
use crate::time::{TickInstant, TickDuration, wrapping_add_ticks, millis_as_ticks, instant_at_or_after};
use crate::timer::Timer;
use crate::led::LedLevels;

verus! {

/// Events the blinking machine reacts to.
#[derive(Clone, Copy, Debug, PartialEq, Eq)]
pub enum Event {
    TimerElapsed,
}

/// The states of the blinking machine.
#[derive(Clone, Copy, Debug, PartialEq, Eq)]
pub enum BlinkyState {
    LedOn,
    LedOff,
}

/// What handling an event did: the state left (if any), the state entered,
/// and the levels the entry action drives on the rows and columns.
#[derive(Clone, Copy, Debug, PartialEq, Eq)]
pub struct BlinkyTransition {
    pub exited: Option<BlinkyState>,
    pub entered: BlinkyState,
    pub levels: LedLevels,
}

/// The blinking machine: its state and the timer that ends it.
pub struct Blinky {
    state: BlinkyState,
    timer: Timer,
}

/// Pin levels driven on entering a state: rows high, columns high when the
/// LED is on and low when it is off.
pub open spec fn entry_levels(s: BlinkyState) -> LedLevels {
    match s {
        BlinkyState::LedOn => LedLevels { rows_high: true, cols_high: true },
        BlinkyState::LedOff => LedLevels { rows_high: true, cols_high: false },
    }
}

/// The state an event leads to.
pub open spec fn blinky_next(s: BlinkyState, e: Event) -> BlinkyState {
    match (s, e) {
        (BlinkyState::LedOn, Event::TimerElapsed) => BlinkyState::LedOff,
        (BlinkyState::LedOff, Event::TimerElapsed) => BlinkyState::LedOn,
    }
}

/// Ticks in the blink period of one second.
pub open spec fn blink_ticks() -> u64 {
    millis_as_ticks(1000) as u64
}

impl Blinky {
    /// The current state.
    pub closed spec fn spec_state(&self) -> BlinkyState {
        self.state
    }

    /// When the current state's timer ends.
    pub closed spec fn spec_timer_end(&self) -> u64 {
        self.timer.end_ticks()
    }

    /// A machine in its initial state (LED on) whose timer, started at `now`,
    /// runs one second; the initial state has not been entered yet (see `init`).
    pub fn new(now: TickInstant) -> (r: Blinky)
        ensures
            r.spec_state() == BlinkyState::LedOn,
            r.spec_timer_end() == wrapping_add_ticks(now.ticks, blink_ticks()),
    {
        Blinky { state: BlinkyState::LedOn, timer: Timer::new(now, TickDuration::millis(1000)) }
    }

    /// The current state.
    pub fn state(&self) -> (r: BlinkyState)
        ensures
            r == self.spec_state(),
    {
        self.state
    }

    /// Whether the state's timer has elapsed at `now`.
    pub fn timer_is_ready(&self, now: TickInstant) -> (r: bool)
        ensures
            r == instant_at_or_after(now.ticks, self.spec_timer_end()),
    {
        self.timer.is_ready(now)
    }

    /// Runs the entry action of `state`: restart the timer at `now`.
    fn enter(&mut self, state: BlinkyState, now: TickInstant) -> (r: LedLevels)
        ensures
            final(self).spec_state() == state,
            final(self).spec_timer_end() == wrapping_add_ticks(now.ticks, blink_ticks()),
            r == entry_levels(state),
    {
        self.state = state;
        self.timer = Timer::new(now, TickDuration::millis(1000));
        match state {
            BlinkyState::LedOn => LedLevels { rows_high: true, cols_high: true },
            BlinkyState::LedOff => LedLevels { rows_high: true, cols_high: false },
        }
    }

    /// Starts the machine: enters the initial state (LED on) at `now`.
    pub fn init(&mut self, now: TickInstant) -> (r: BlinkyTransition)
        ensures
            final(self).spec_state() == BlinkyState::LedOn,
            final(self).spec_timer_end() == wrapping_add_ticks(now.ticks, blink_ticks()),
            r == (BlinkyTransition { exited: None, entered: BlinkyState::LedOn, levels: entry_levels(BlinkyState::LedOn) }),
    {
        let levels = self.enter(BlinkyState::LedOn, now);
        BlinkyTransition { exited: None, entered: BlinkyState::LedOn, levels }
    }

    /// Handles an event at `now`: leaves the current state and enters the next.
    pub fn handle(&mut self, event: &Event, now: TickInstant) -> (r: BlinkyTransition)
        ensures
            final(self).spec_state() == blinky_next(old(self).spec_state(), *event),
            final(self).spec_timer_end() == wrapping_add_ticks(now.ticks, blink_ticks()),
            r == (BlinkyTransition {
                exited: Some(old(self).spec_state()),
                entered: blinky_next(old(self).spec_state(), *event),
                levels: entry_levels(blinky_next(old(self).spec_state(), *event)),
            }),
    {
        let from = self.state;
        let to = match (from, event) {
            (BlinkyState::LedOn, Event::TimerElapsed) => BlinkyState::LedOff,
            (BlinkyState::LedOff, Event::TimerElapsed) => BlinkyState::LedOn,
        };
        let levels = self.enter(to, now);
        BlinkyTransition { exited: Some(from), entered: to, levels }
    }
}

/// Polls the machine at `now`: when its timer has elapsed it handles a
/// `TimerElapsed` event, otherwise nothing changes.
pub fn blinky_poll(blinky: &mut Blinky, now: TickInstant) -> (r: Option<BlinkyTransition>)
    ensures
        !instant_at_or_after(now.ticks, old(blinky).spec_timer_end()) ==> r is None
            && final(blinky).spec_state() == old(blinky).spec_state()
            && final(blinky).spec_timer_end() == old(blinky).spec_timer_end(),
        instant_at_or_after(now.ticks, old(blinky).spec_timer_end()) ==> r == Some(BlinkyTransition {
                exited: Some(old(blinky).spec_state()),
                entered: blinky_next(old(blinky).spec_state(), Event::TimerElapsed),
                levels: entry_levels(blinky_next(old(blinky).spec_state(), Event::TimerElapsed)),
            })
            && final(blinky).spec_state() == blinky_next(old(blinky).spec_state(), Event::TimerElapsed)
            && final(blinky).spec_timer_end() == wrapping_add_ticks(now.ticks, blink_ticks()),
{
    if blinky.timer_is_ready(now) {
        Some(blinky.handle(&Event::TimerElapsed, now))
    } else {
        None
    }
}

/// Law: two elapsed timers bring the machine back to the state it was in,
/// and every transition changes the state and the column level while keeping
/// the rows high.
pub proof fn lemma_blinky_alternates(s: BlinkyState)
    ensures
        blinky_next(blinky_next(s, Event::TimerElapsed), Event::TimerElapsed) == s,
        blinky_next(s, Event::TimerElapsed) != s,
        entry_levels(s).rows_high,
        entry_levels(blinky_next(s, Event::TimerElapsed)).cols_high != entry_levels(s).cols_high,
{
}

/// Law: right after a transition at `now` the new state's timer has not
/// elapsed, and it elapses exactly `blink_ticks()` later.
pub proof fn lemma_blinky_waits_one_period(now: u64, k: u64)
    requires
        k <= 0x7FFF_FFFF_FFFF_FFFF,
    ensures
        instant_at_or_after(wrapping_add_ticks(now, k), wrapping_add_ticks(now, blink_ticks())) == (k >= blink_ticks()),
        blink_ticks() == 32768,
{
}

} // verus!
