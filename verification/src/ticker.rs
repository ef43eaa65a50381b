//! The 56-bit tick count kept by the real-time counter: a 24-bit hardware
//! counter, extended by the number of times it has overflowed.
//!
//! Reading the counter and the overflow count is left to the caller; the
//! functions here decide what those reads mean.

use vstd::prelude::*;
use crate::time::{TickInstant, instant_strictly_after};

verus! {

/// Number of values of the 24-bit hardware counter.
pub open spec fn counter_range() -> int {
    0x100_0000
}

/// The tick count made of an overflow count and a counter value, as the
/// bitwise or of `ovf << 24` and the counter.
pub open spec fn composed_ticks(ovf: u32, counter: u32) -> u64 {
    ((ovf as u64) << 24u64) | (counter as u64)
}

/// The overflow-cycle (epoch) a tick count falls in, truncated to 32 bits.
pub open spec fn epoch_of(ticks: u64) -> u32 {
    (ticks >> 24u64) as u32
}

/// The counter value a tick count corresponds to within its epoch.
pub open spec fn counter_of(ticks: u64) -> u32 {
    (ticks & 0xFF_FFFFu64) as u32
}

/// Facts about the bitwise forms above, for counters that fit in 24 bits.
pub proof fn lemma_compose(ovf: u32, counter: u32)
    requires
        counter < 0x100_0000,
    ensures
        composed_ticks(ovf, counter) == ovf as int * counter_range() + counter as int,
        epoch_of(composed_ticks(ovf, counter)) == ovf,
        counter_of(composed_ticks(ovf, counter)) == counter,
{
    assert(((((ovf as u64) << 24u64) | (counter as u64)) as int) == (ovf as int) * 0x100_0000 + (counter as int)
        && ((((((ovf as u64) << 24u64) | (counter as u64)) >> 24u64) as u32) == ovf)
        && ((((((ovf as u64) << 24u64) | (counter as u64)) & 0xFF_FFFFu64) as u32) == counter)) by (bit_vector)
        requires counter < 0x100_0000u32;
}

/// Splitting a tick count into epoch and counter and composing them again
/// gives back the tick count, as long as the epoch fits in 32 bits.
pub proof fn lemma_split(ticks: u64)
    requires
        ticks < 0x100_0000_0000_0000,
    ensures
        composed_ticks(epoch_of(ticks), counter_of(ticks)) == ticks,
        counter_of(ticks) < 0x100_0000,
        ticks as int == epoch_of(ticks) as int * counter_range() + counter_of(ticks) as int,
{
    assert((((((ticks >> 24u64) as u32) as u64) << 24u64) | (((ticks & 0xFF_FFFFu64) as u32) as u64)) == ticks
        && ((ticks & 0xFF_FFFFu64) as u32) < 0x100_0000u32
        && (ticks as int) == (((ticks >> 24u64) as u32) as int) * 0x100_0000 + (((ticks & 0xFF_FFFFu64) as u32) as int)) by (bit_vector)
        requires ticks < 0x100_0000_0000_0000u64;
}

/// Composes an overflow count and a counter value into a tick count.
pub fn compose_ticks(ovf: u32, counter: u32) -> (r: u64)
    ensures
        r == composed_ticks(ovf, counter),
        counter < 0x100_0000 ==> r == ovf as int * counter_range() + counter as int,
{
    proof {
        if counter < 0x100_0000 {
            lemma_compose(ovf, counter);
        }
    }
    (ovf as u64) << 24 | counter as u64
}

/// The overflow-cycle a deadline falls in (its bits above the counter's 24, truncated to 32 bits).
pub fn deadline_epoch(deadline: u64) -> (r: u32)
    ensures
        r == epoch_of(deadline),
{
    (deadline >> 24) as u32
}

/// The counter value at which a deadline falls within its overflow-cycle.
pub fn deadline_counter(deadline: u64) -> (r: u32)
    ensures
        r == counter_of(deadline),
        r < 0x100_0000,
{
    assert((deadline & 0xFF_FFFFu64) < 0x100_0000u64) by (bit_vector);
    (deadline & 0xFF_FFFF) as u32
}

/// Law: an overflow count and a 24-bit counter value composed into a tick
/// count are recovered by splitting it again.
pub proof fn lemma_split_undoes_compose(ovf: u32, counter: u32)
    requires
        counter < 0x100_0000,
    ensures
        epoch_of(composed_ticks(ovf, counter)) == ovf,
        counter_of(composed_ticks(ovf, counter)) == counter,
{
    lemma_compose(ovf, counter);
}

/// Law: a tick count below `2^56` (one whose epoch fits in 32 bits) is
/// recovered by composing its epoch and its counter value.
pub proof fn lemma_compose_undoes_split(ticks: u64)
    requires
        ticks < 0x100_0000_0000_0000,
    ensures
        composed_ticks(epoch_of(ticks), counter_of(ticks)) == ticks,
{
    lemma_split(ticks);
}

/// Law: tick counts order as (overflow count, counter) pairs do, so a later
/// overflow cycle always means a later tick count.
pub proof fn lemma_compose_is_monotonic(o1: u32, c1: u32, o2: u32, c2: u32)
    requires
        c1 < 0x100_0000,
        c2 < 0x100_0000,
        o1 < o2 || (o1 == o2 && c1 <= c2),
    ensures
        composed_ticks(o1, c1) <= composed_ticks(o2, c2),
{
    lemma_compose(o1, c1);
    lemma_compose(o2, c2);
}

/// The real-time counter's clock, as seen through its two readings: the
/// overflow count kept by the overflow interrupt and the 24-bit hardware counter.
pub struct Ticker;

impl Ticker {
    /// One attempt at reading the current instant: the caller reads the
    /// overflow count, then the hardware counter, then the overflow count
    /// again. When the two overflow readings agree no overflow happened in
    /// between and the instant is composed from them; otherwise the caller
    /// has to read again.
    pub fn now(ovf_before: u32, counter: u32, ovf_after: u32) -> (r: Option<TickInstant>)
        ensures
            (ovf_before == ovf_after) == r.is_some(),
            r matches Some(t) ==> t.ticks == composed_ticks(ovf_after, counter),
    {
        if ovf_before == ovf_after {
            Some(TickInstant::from_ticks(compose_ticks(ovf_after, counter)))
        } else {
            None
        }
    }

    /// The value to load into the compare register so that it fires for
    /// `deadline`: a deadline that is at or before `now` (fugit's `<=`, that is,
    /// not strictly after `now`) is moved to the next tick, and only the low
    /// 24 bits (the counter part) are kept.
    pub fn set_compare(deadline: TickInstant, now: TickInstant) -> (r: u32)
        requires
            !instant_strictly_after(deadline.ticks, now.ticks) ==> now.ticks < u64::MAX,
        ensures
            r == counter_of(
                if !instant_strictly_after(deadline.ticks, now.ticks) {
                    (now.ticks + 1) as u64
                } else {
                    deadline.ticks
                },
            ),
    {
        let ticks = if !deadline.is_after(&now) {
            now.ticks + 1
        } else {
            deadline.ticks
        };
        deadline_counter(ticks)
    }

    /// The instant the bare hardware counter stands for when no overflow is
    /// counted (the counter as a tick count).
    pub fn counter_now(counter: u32) -> (r: TickInstant)
        ensures
            r.ticks == counter as u64,
    {
        TickInstant::from_ticks(counter as u64)
    }
}

} // verus!
