//! The counting future: every poll takes a ticket from a shared counter and
//! the future completes when the ticket is a multiple of its period.

use vstd::prelude::*;

verus! {

/// A future that completes once every `period` polls of the shared counter.
#[derive(Clone, Copy, Debug, PartialEq, Eq)]
pub struct CountFuture {
    pub period: u32,
}

/// What one poll did: the counter's value afterwards, and whether the future completed.
#[derive(Clone, Copy, Debug, PartialEq, Eq)]
pub struct CountPoll {
    pub next: u32,
    pub ready: bool,
}

/// The counter after taking a ticket: incremented, wrapping around at `2^32`.
pub open spec fn counter_after(ticket: u32) -> u32 {
    if ticket == u32::MAX {
        0
    } else {
        (ticket + 1) as u32
    }
}

impl CountFuture {
    /// One poll that took `ticket` from the shared counter (its value before
    /// the increment): the counter moves on by one, wrapping around, and the
    /// future is ready when the ticket is a multiple of the period.
    pub fn poll(&self, ticket: u32) -> (r: CountPoll)
        requires
            self.period > 0,
        ensures
            r.ready == (ticket % self.period == 0),
            r.next == counter_after(ticket),
            r.next as int == (ticket as int + 1) % 0x1_0000_0000,
    {
        proof {
            lemma_counter_after_wraps_at_2_pow_32(ticket);
        }
        let next = if ticket == u32::MAX { 0 } else { ticket + 1 };
        CountPoll { next, ready: ticket % self.period == 0 }
    }
}

/// Law: among `period` consecutive tickets (without wrapping) exactly the
/// first one that is a multiple of the period completes the future; a ready
/// ticket is followed by `period - 1` pending ones.
pub proof fn lemma_count_ready_once_per_period(period: u32, ticket: u32, k: u32)
    requires
        period > 0,
        ticket % period == 0,
        0 < k < period,
        ticket + k <= u32::MAX,
    ensures
        ((ticket + k) as u32) % period != 0,
        (ticket + period <= u32::MAX) ==> ((ticket + period) as u32) % period == 0,
{
    let t = ticket as int;
    let p = period as int;
    let kk = k as int;
    assert((t + kk) % p == kk) by (nonlinear_arith)
        requires t % p == 0, p > 0, t >= 0, 0 < kk < p;
    assert((t + p) % p == 0) by (nonlinear_arith)
        requires t % p == 0, p > 0, t >= 0;
}

/// Law: taking a ticket moves the shared counter on by one modulo `2^32`, as
/// `AtomicU32::fetch_add(1)` does: every ticket below `u32::MAX` is followed
/// by the next integer, and only `u32::MAX` wraps to 0.
pub proof fn lemma_counter_after_wraps_at_2_pow_32(ticket: u32)
    ensures
        counter_after(ticket) as int == (ticket as int + 1) % 0x1_0000_0000,
        ticket < u32::MAX ==> counter_after(ticket) == ticket + 1,
        counter_after(ticket) == 0 <==> ticket == u32::MAX,
{
}

} // verus!
