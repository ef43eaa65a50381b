//! Tick-based timekeeping, deadline scheduling and small state machines
//! for a 32.768 kHz real-time counter, as driven by the applications in app/.

pub mod time;
pub mod ticker;
pub mod deadlines;
pub mod timer;
pub mod timers;
pub mod led;
pub mod blinky;
pub mod hello;
pub mod count;
