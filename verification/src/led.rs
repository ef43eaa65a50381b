//! Driving the LED matrix: the levels given to its row and column pins, and
//! the endless on/off sequence of the LED task.

use vstd::prelude::*;
use crate::time::{TickDuration, millis_as_ticks};

verus! {

/// The level to drive on every row pin and on every column pin.
#[derive(Clone, Copy, Debug, PartialEq, Eq)]
pub struct LedLevels {
    pub rows_high: bool,
    pub cols_high: bool,
}

/// Where the LED task stands in its on/off sequence.
#[derive(Clone, Copy, Debug, PartialEq, Eq)]
pub enum LedPhase {
    /// About to light the LEDs: rows high, columns low.
    On,
    /// About to darken the LEDs: rows high, columns high.
    Off,
}

/// What the LED task does in one round: drive the pins, wait, and move on.
#[derive(Clone, Copy, Debug, PartialEq, Eq)]
pub struct LedStep {
    pub levels: LedLevels,
    pub wait: TickDuration,
    pub next: LedPhase,
}

/// The pin levels of a phase of the LED task.
pub open spec fn phase_levels(phase: LedPhase) -> LedLevels {
    match phase {
        LedPhase::On => LedLevels { rows_high: true, cols_high: false },
        LedPhase::Off => LedLevels { rows_high: true, cols_high: true },
    }
}

/// The phase that follows another.
pub open spec fn phase_after(phase: LedPhase) -> LedPhase {
    match phase {
        LedPhase::On => LedPhase::Off,
        LedPhase::Off => LedPhase::On,
    }
}

/// One round of the LED task: drive the phase's levels, wait one second,
/// then go on with the other phase.
pub fn task_led(phase: LedPhase) -> (r: LedStep)
    ensures
        r.levels == phase_levels(phase),
        r.wait.ticks == millis_as_ticks(1000),
        r.next == phase_after(phase),
{
    let levels = match phase {
        LedPhase::On => LedLevels { rows_high: true, cols_high: false },
        LedPhase::Off => LedLevels { rows_high: true, cols_high: true },
    };
    let next = match phase {
        LedPhase::On => LedPhase::Off,
        LedPhase::Off => LedPhase::On,
    };
    LedStep { levels, wait: TickDuration::millis(1000), next }
}

/// Law: the LED task alternates, coming back to a phase every second round,
/// and the rows stay high throughout.
pub proof fn lemma_led_task_alternates(phase: LedPhase)
    ensures
        phase_after(phase_after(phase)) == phase,
        phase_after(phase) != phase,
        phase_levels(phase).rows_high,
        phase_levels(phase).cols_high != phase_levels(phase_after(phase)).cols_high,
{
}

} // verus!
