//! Instants and durations counted in ticks of a 32.768 kHz clock.
//!
//! The arithmetic and the ordering are those of `fugit::Instant<u64, 1, 32_768>`
//! and `fugit::Duration<u64, 1, 32_768>`, which are called through the wrappers
//! below: adding a duration wraps around, and comparing two instants assumes
//! that they lie less than half the tick range apart.

use vstd::prelude::*;

verus! {

/// Number of distinct `u64` tick values.
pub open spec fn tick_modulus() -> int {
    0x1_0000_0000_0000_0000
}

/// Half of the tick range: instants further apart than this are taken to have wrapped.
pub open spec fn half_range() -> int {
    0x7FFF_FFFF_FFFF_FFFF
}

/// `a + d` on ticks, wrapping around at `2^64`.
pub open spec fn wrapping_add_ticks(a: u64, d: u64) -> u64 {
    if a + d <= u64::MAX {
        (a + d) as u64
    } else {
        (a + d - tick_modulus()) as u64
    }
}

/// How far `a` lies ahead of `b`, counted modulo `2^64`.
pub open spec fn ticks_ahead(a: u64, b: u64) -> int {
    if a >= b {
        a - b
    } else {
        a - b + tick_modulus()
    }
}

/// `a >= b` under the wrap-around ordering of instants.
pub open spec fn instant_at_or_after(a: u64, b: u64) -> bool {
    ticks_ahead(a, b) <= half_range()
}

/// Ticks of the 32.768 kHz clock in `ms` milliseconds, rounded down.
pub open spec fn millis_as_ticks(ms: u64) -> int {
    (ms * 4096) / 125
}

/// Whole milliseconds in `ticks` ticks, rounded down.
pub open spec fn ticks_as_millis(ticks: u64) -> int {
    (ticks * 125) / 4096
}

/// Calls `Instant + Duration` of fugit (same tick base): fugit adds the tick
/// counts with `wrapping_add`, so the sum wraps around at `2^64` and never fails.
#[verifier::external_body]
fn fugit_instant_add(instant: u64, duration: u64) -> (r: u64)
    ensures
        r == wrapping_add_ticks(instant, duration),
{
    (fugit::Instant::<u64, 1, 32_768>::from_ticks(instant)
        + fugit::Duration::<u64, 1, 32_768>::from_ticks(duration)).ticks()
}

/// Calls `>=` on two fugit instants. fugit orders instants through
/// `const_cmp`: with `v = a.wrapping_sub(b)`, `a` is at or after `b` exactly
/// when `v <= u64::MAX / 2`.
#[verifier::external_body]
fn fugit_instant_ge(a: u64, b: u64) -> (r: bool)
    ensures
        r == instant_at_or_after(a, b),
{
    fugit::Instant::<u64, 1, 32_768>::from_ticks(a) >= fugit::Instant::<u64, 1, 32_768>::from_ticks(b)
}

/// Calls `>` on two fugit instants: `a` is strictly after `b` when
/// `v = a.wrapping_sub(b)` satisfies `0 < v < u64::MAX / 2`.
#[verifier::external_body]
fn fugit_instant_gt(a: u64, b: u64) -> (r: bool)
    ensures
        r == instant_strictly_after(a, b),
{
    fugit::Instant::<u64, 1, 32_768>::from_ticks(a) > fugit::Instant::<u64, 1, 32_768>::from_ticks(b)
}

/// `a > b` under the wrap-around ordering of instants.
pub open spec fn instant_strictly_after(a: u64, b: u64) -> bool {
    0 < ticks_ahead(a, b) < half_range()
}

/// Calls `fugit::ExtU64::millis` for a 32.768 kHz duration: fugit computes
/// `(4096 * ms) / 125` in `u64`, which overflows (and panics in debug builds)
/// when `4096 * ms` does not fit, so that input is left out.
#[verifier::external_body]
fn fugit_millis(ms: u64) -> (r: u64)
    requires
        ms * 4096 <= u64::MAX,
    ensures
        r == millis_as_ticks(ms),
{
    let d: fugit::Duration<u64, 1, 32_768> = fugit::ExtU64::millis(ms);
    d.ticks()
}

/// Calls `fugit::Duration::to_millis` for a 32.768 kHz duration: fugit computes
/// `(125 * ticks) / 4096` in `u64`, so inputs where `125 * ticks` overflows are left out.
#[verifier::external_body]
fn fugit_to_millis(ticks: u64) -> (r: u64)
    requires
        ticks * 125 <= u64::MAX,
    ensures
        r == ticks_as_millis(ticks),
{
    fugit::Duration::<u64, 1, 32_768>::from_ticks(ticks).to_millis()
}

/// A point in time, in ticks of the 32.768 kHz clock since it started.
#[derive(Clone, Copy, Debug, PartialEq, Eq)]
pub struct TickInstant {
    pub ticks: u64,
}

/// A span of time, in ticks of the 32.768 kHz clock.
#[derive(Clone, Copy, Debug, PartialEq, Eq)]
pub struct TickDuration {
    pub ticks: u64,
}

impl TickInstant {
    /// The instant `ticks` ticks after the clock started.
    pub fn from_ticks(ticks: u64) -> (r: TickInstant)
        ensures
            r.ticks == ticks,
    {
        TickInstant { ticks }
    }

    /// This instant plus `duration`, wrapping around at `2^64` ticks.
    pub fn add(self, duration: TickDuration) -> (r: TickInstant)
        ensures
            r.ticks == wrapping_add_ticks(self.ticks, duration.ticks),
    {
        TickInstant { ticks: fugit_instant_add(self.ticks, duration.ticks) }
    }

    /// Whether this instant is at or after `other`, under the wrap-around ordering.
    pub fn is_at_or_after(&self, other: &TickInstant) -> (r: bool)
        ensures
            r == instant_at_or_after(self.ticks, other.ticks),
    {
        fugit_instant_ge(self.ticks, other.ticks)
    }

    /// Whether this instant is strictly after `other`, under the wrap-around ordering.
    pub fn is_after(&self, other: &TickInstant) -> (r: bool)
        ensures
            r == instant_strictly_after(self.ticks, other.ticks),
    {
        fugit_instant_gt(self.ticks, other.ticks)
    }

    /// Whole milliseconds from the clock's start to this instant.
    pub fn millis_since_epoch(&self) -> (r: u64)
        requires
            self.ticks * 125 <= u64::MAX,
        ensures
            r == ticks_as_millis(self.ticks),
    {
        fugit_to_millis(self.ticks)
    }
}

impl TickDuration {
    /// A duration of `ticks` ticks.
    pub fn from_ticks(ticks: u64) -> (r: TickDuration)
        ensures
            r.ticks == ticks,
    {
        TickDuration { ticks }
    }

    /// A duration of `ms` milliseconds, rounded down to whole ticks.
    pub fn millis(ms: u64) -> (r: TickDuration)
        requires
            ms * 4096 <= u64::MAX,
        ensures
            r.ticks == millis_as_ticks(ms),
    {
        TickDuration { ticks: fugit_millis(ms) }
    }
}

} // verus!
