//! The list of armed timers served by the compare interrupt: a bounded
//! `heapless::Vec` of `(deadline ticks, task id)` entries. On each compare
//! event the expired entries are taken out (their tasks are to be woken) and
//! the earliest remaining deadline is found to program the next compare.

use vstd::prelude::*;
use vstd::multiset::Multiset;
use crate::time::{TickInstant, instant_at_or_after, instant_strictly_after, ticks_ahead, half_range};

verus! {

/// Room in the timer list.
pub const MAX_TIMERS: usize = 8;

#[verifier::external_type_specification]
#[verifier::external_body]
#[verifier::reject_recursive_types(T)]
pub struct ExHeaplessVec<T, const N: usize>(heapless::Vec<T, N>);

/// What a timer list holds, in order.
pub uninterp spec fn list_items(list: heapless::Vec<(u64, usize), 8>) -> Seq<(u64, usize)>;

/// Calls `heapless::Vec::new`: the vector starts empty.
#[verifier::external_body]
fn list_new() -> (r: heapless::Vec<(u64, usize), 8>)
    ensures
        list_items(r) == Seq::<(u64, usize)>::empty(),
{
    heapless::Vec::new()
}

/// Calls `len` on a `heapless::Vec`: the number of items, never above the capacity 8.
#[verifier::external_body]
fn list_len(list: &heapless::Vec<(u64, usize), 8>) -> (r: usize)
    ensures
        r == list_items(*list).len(),
        r <= 8,
{
    list.len()
}

/// Indexes a `heapless::Vec` (through its slice) and copies the item out.
#[verifier::external_body]
fn list_get(list: &heapless::Vec<(u64, usize), 8>, i: usize) -> (r: (u64, usize))
    requires
        i < list_items(*list).len(),
    ensures
        r == list_items(*list)[i as int],
{
    list[i]
}

/// Calls `heapless::Vec::push`: with room left the item is appended and `Ok`
/// returned; a full vector (8 items) is left as it was and `Err` returned.
#[verifier::external_body]
fn list_push(list: &mut heapless::Vec<(u64, usize), 8>, item: (u64, usize)) -> (r: bool)
    ensures
        list_items(*old(list)).len() < 8 ==> r && list_items(*final(list)) == list_items(*old(list)).push(item),
        list_items(*old(list)).len() >= 8 ==> !r && list_items(*final(list)) == list_items(*old(list)),
{
    list.push(item).is_ok()
}

/// Calls `heapless::Vec::swap_remove`: the item at `i` is returned and the
/// last item takes its place. It panics when `i` is out of bounds, which is left out.
#[verifier::external_body]
fn list_swap_remove(list: &mut heapless::Vec<(u64, usize), 8>, i: usize) -> (r: (u64, usize))
    requires
        i < list_items(*old(list)).len(),
    ensures
        r == list_items(*old(list))[i as int],
        list_items(*final(list)) == list_items(*old(list)).update(i as int, list_items(*old(list)).last()).drop_last(),
{
    list.swap_remove(i)
}

/// The deadline `Iterator::min` finds among the entries' deadlines: the first
/// one is kept until a later entry's deadline is strictly earlier under the
/// wrap-around ordering.
pub open spec fn earliest_deadline(s: Seq<(u64, usize)>) -> Option<u64>
    decreases s.len(),
{
    if s.len() == 0 {
        None
    } else {
        match earliest_deadline(s.drop_last()) {
            None => Some(s.last().0),
            Some(acc) => Some(if instant_strictly_after(acc, s.last().0) { s.last().0 } else { acc }),
        }
    }
}

/// The expiry pass over `s` from position `i` at `now`: an expired entry at
/// `i` is taken out and the last entry moved into its place (`swap_remove`),
/// and the same position is looked at again; an entry that has not expired is
/// passed over. The result is the list that remains and the entries taken
/// out, in the order they were taken out.
pub open spec fn expire_pass(s: Seq<(u64, usize)>, i: int, now: u64) -> (Seq<(u64, usize)>, Seq<(u64, usize)>)
    decreases s.len() - i,
{
    if i < 0 || i >= s.len() {
        (s, Seq::empty())
    } else if instant_at_or_after(now, s[i].0) {
        let rest = expire_pass(s.update(i, s.last()).drop_last(), i, now);
        (rest.0, seq![s[i]] + rest.1)
    } else {
        expire_pass(s, i + 1, now)
    }
}

/// All deadlines of `s` lie less than half the tick range after `lo`, so
/// that the wrap-around ordering among them is the ordinary one.
pub open spec fn deadlines_within_half_range(s: Seq<(u64, usize)>, lo: u64) -> bool {
    forall|i: int| 0 <= i < s.len() ==> #[trigger] ticks_ahead(s[i].0, lo) < half_range()
}

/// Within half the tick range after `lo`, "strictly after" is the ordinary
/// order of distances from `lo`.
pub proof fn lemma_strictly_after_in_window(a: u64, b: u64, lo: u64)
    requires
        ticks_ahead(a, lo) < half_range(),
        ticks_ahead(b, lo) < half_range(),
    ensures
        instant_strictly_after(a, b) <==> ticks_ahead(a, lo) > ticks_ahead(b, lo),
{
}

/// Law: the earliest deadline exists exactly when there are entries, and it
/// is the deadline of one of them.
pub proof fn lemma_earliest_deadline_is_an_entry(s: Seq<(u64, usize)>)
    ensures
        earliest_deadline(s).is_some() == (s.len() > 0),
        earliest_deadline(s) matches Some(t) ==> exists|i: int| 0 <= i < s.len() && #[trigger] s[i].0 == t,
    decreases s.len(),
{
    if s.len() > 0 {
        let p = s.drop_last();
        lemma_earliest_deadline_is_an_entry(p);
        if let Some(acc) = earliest_deadline(p) {
            let i = choose|i: int| 0 <= i < p.len() && #[trigger] p[i].0 == acc;
            assert(s[i] == p[i]);
            assert(s[s.len() - 1] == s.last());
        } else {
            assert(s[s.len() - 1] == s.last());
        }
    }
}

/// Law: when all deadlines lie within half the tick range of a common
/// start, no entry's deadline is strictly before the earliest deadline found
/// (it is their minimum).
pub proof fn lemma_earliest_deadline_is_least(s: Seq<(u64, usize)>, lo: u64)
    requires
        deadlines_within_half_range(s, lo),
    ensures
        earliest_deadline(s) matches Some(t) ==> forall|j: int| 0 <= j < s.len() ==> !instant_strictly_after(t, #[trigger] s[j].0),
        earliest_deadline(s) matches Some(t) ==> forall|j: int| 0 <= j < s.len() ==> ticks_ahead(t, lo) <= #[trigger] ticks_ahead(s[j].0, lo),
    decreases s.len(),
{
    lemma_earliest_deadline_is_an_entry(s);
    if s.len() > 0 {
        let p = s.drop_last();
        assert forall|i: int| 0 <= i < p.len() implies #[trigger] ticks_ahead(p[i].0, lo) < half_range() by {
            assert(p[i] == s[i]);
        }
        lemma_earliest_deadline_is_least(p, lo);
        let t = earliest_deadline(s).unwrap();
        let i = choose|i: int| 0 <= i < s.len() && #[trigger] s[i].0 == t;
        assert(ticks_ahead(s[i].0, lo) < half_range());
        let last = s.last();
        assert(s[s.len() - 1] == last);
        assert(ticks_ahead(s[s.len() - 1].0, lo) < half_range());
        if let Some(acc) = earliest_deadline(p) {
            lemma_earliest_deadline_is_an_entry(p);
            let k = choose|k: int| 0 <= k < p.len() && #[trigger] p[k].0 == acc;
            assert(p[k] == s[k]);
            assert(ticks_ahead(s[k].0, lo) < half_range());
            lemma_strictly_after_in_window(acc, last.0, lo);
            assert forall|j: int| 0 <= j < s.len() implies ticks_ahead(t, lo) <= #[trigger] ticks_ahead(s[j].0, lo) by {
                if j < p.len() {
                    assert(p[j] == s[j]);
                }
            }
        }
        assert forall|j: int| 0 <= j < s.len() implies !instant_strictly_after(t, #[trigger] s[j].0) by {
            assert(ticks_ahead(t, lo) <= ticks_ahead(s[j].0, lo));
            assert(ticks_ahead(s[j].0, lo) < half_range());
            lemma_strictly_after_in_window(t, s[j].0, lo);
        }
    }
}

/// A timer entry: the instant at which it expires and the task to wake then.
#[derive(Clone, Copy, Debug, PartialEq, Eq)]
pub struct TimerEntry {
    pub deadline: TickInstant,
    pub task_id: usize,
}

/// The armed timers.
pub struct TimerList {
    entries: heapless::Vec<(u64, usize), 8>,
}

impl View for TimerList {
    type V = Seq<(u64, usize)>;

    closed spec fn view(&self) -> Seq<(u64, usize)> {
        list_items(self.entries)
    }
}

/// Taking out the item at `i` by moving the last one there removes exactly that item.
proof fn lemma_swap_remove_multiset(s: Seq<(u64, usize)>, i: int)
    requires
        0 <= i < s.len(),
    ensures
        s.update(i, s.last()).drop_last().to_multiset() =~= s.to_multiset().remove(s[i]),
{
    broadcast use vstd::seq_lib::group_to_multiset_ensures;
    broadcast use vstd::multiset::group_multiset_axioms;
    let u = s.update(i, s.last());
    vstd::seq_lib::to_multiset_update(s, i, s.last());
    assert(u.remove(u.len() - 1) =~= u.drop_last());
    assert(u[u.len() - 1] == s.last());
    assert(u.drop_last().to_multiset() =~= u.to_multiset().remove(s.last()));
}

impl TimerList {
    /// An empty list.
    pub fn new() -> (r: TimerList)
        ensures
            r@ == Seq::<(u64, usize)>::empty(),
    {
        TimerList { entries: list_new() }
    }

    /// Number of armed timers.
    pub fn len(&self) -> (r: usize)
        ensures
            r == self@.len(),
            r <= MAX_TIMERS,
    {
        list_len(&self.entries)
    }

    /// The entry at position `i`.
    pub fn get(&self, i: usize) -> (r: TimerEntry)
        requires
            i < self@.len(),
        ensures
            r.deadline.ticks == self@[i as int].0,
            r.task_id == self@[i as int].1,
    {
        let (d, id) = list_get(&self.entries, i);
        TimerEntry { deadline: TickInstant::from_ticks(d), task_id: id }
    }

    /// Arms a timer; `false` (and no change) when the list is full.
    pub fn push(&mut self, entry: TimerEntry) -> (r: bool)
        ensures
            r == (old(self)@.len() < MAX_TIMERS),
            r ==> final(self)@ == old(self)@.push((entry.deadline.ticks, entry.task_id)),
            !r ==> final(self)@ == old(self)@,
    {
        list_push(&mut self.entries, (entry.deadline.ticks, entry.task_id))
    }

    /// Takes out every entry whose deadline is at or before `now` and returns
    /// them, in the order they were taken out; the entries that stay have not
    /// expired.
    pub fn expire(&mut self, now: TickInstant) -> (woken: Vec<TimerEntry>)
        ensures
            forall|j: int| 0 <= j < final(self)@.len() ==> !instant_at_or_after(now.ticks, #[trigger] final(self)@[j].0),
            forall|j: int| 0 <= j < woken@.len() ==> instant_at_or_after(now.ticks, #[trigger] woken@[j].deadline.ticks),
            final(self)@.to_multiset().add(woken@.map_values(|e: TimerEntry| (e.deadline.ticks, e.task_id)).to_multiset())
                =~= old(self)@.to_multiset(),
            final(self)@ == expire_pass(old(self)@, 0, now.ticks).0,
            woken@.map_values(|e: TimerEntry| (e.deadline.ticks, e.task_id)) == expire_pass(old(self)@, 0, now.ticks).1,
    {
        let mut woken: Vec<TimerEntry> = Vec::new();
        let mut i: usize = 0;
        proof {
            broadcast use vstd::seq_lib::group_to_multiset_ensures;
            broadcast use vstd::multiset::group_multiset_axioms;
            let f = |e: TimerEntry| (e.deadline.ticks, e.task_id);
            assert(woken@.map_values(f) =~= Seq::<(u64, usize)>::empty());
            assert(woken@.map_values(f).to_multiset() =~= Multiset::<(u64, usize)>::empty());
            assert(woken@.map_values(f) + expire_pass(self@, 0, now.ticks).1 =~= expire_pass(self@, 0, now.ticks).1);
        }
        while i < list_len(&self.entries)
            invariant
                i <= self@.len(),
                forall|j: int| 0 <= j < i ==> !instant_at_or_after(now.ticks, #[trigger] self@[j].0),
                forall|j: int| 0 <= j < woken@.len() ==> instant_at_or_after(now.ticks, #[trigger] woken@[j].deadline.ticks),
                self@.to_multiset().add(woken@.map_values(|e: TimerEntry| (e.deadline.ticks, e.task_id)).to_multiset())
                    =~= old(self)@.to_multiset(),
                expire_pass(old(self)@, 0, now.ticks).0 == expire_pass(self@, i as int, now.ticks).0,
                expire_pass(old(self)@, 0, now.ticks).1
                    == woken@.map_values(|e: TimerEntry| (e.deadline.ticks, e.task_id)) + expire_pass(self@, i as int, now.ticks).1,
            decreases self@.len() - i,
        {
            let (d, id) = list_get(&self.entries, i);
            if now.is_at_or_after(&TickInstant::from_ticks(d)) {
                let ghost before = self@;
                let ghost woken_before = woken@;
                let removed = list_swap_remove(&mut self.entries, i);
                woken.push(TimerEntry { deadline: TickInstant::from_ticks(removed.0), task_id: removed.1 });
                proof {
                    lemma_swap_remove_multiset(before, i as int);
                    broadcast use vstd::seq_lib::group_to_multiset_ensures;
                    broadcast use vstd::multiset::group_multiset_axioms;
                    let f = |e: TimerEntry| (e.deadline.ticks, e.task_id);
                    assert(woken@.map_values(f) =~= woken_before.map_values(f).push((d, id)));
                    let rest = expire_pass(self@, i as int, now.ticks);
                    assert(expire_pass(before, i as int, now.ticks).1 == seq![(d, id)] + rest.1);
                    assert(woken_before.map_values(f) + (seq![(d, id)] + rest.1) =~= woken@.map_values(f) + rest.1);
                    assert forall|j: int| 0 <= j < i implies !instant_at_or_after(now.ticks, #[trigger] self@[j].0) by {
                        assert(self@[j] == before[j]);
                    }
                }
            } else {
                i = i + 1;
            }
        }
        woken
    }

    /// The earliest deadline among the armed timers (as `Iterator::min` finds
    /// it under the wrap-around ordering), or `None` when none is armed.
    pub fn next_deadline(&self) -> (r: Option<TickInstant>)
        ensures
            r.is_some() == earliest_deadline(self@).is_some(),
            r matches Some(t) ==> earliest_deadline(self@) == Some(t.ticks),
            r.is_some() == (self@.len() > 0),
            r matches Some(t) ==> exists|i: int| 0 <= i < self@.len() && #[trigger] self@[i].0 == t.ticks,
            forall|lo: u64| #[trigger] deadlines_within_half_range(self@, lo) ==> (r matches Some(t) ==>
                forall|j: int| 0 <= j < self@.len() ==> !instant_strictly_after(t.ticks, #[trigger] self@[j].0)),
    {
        let n = list_len(&self.entries);
        let mut best: Option<u64> = None;
        let mut i: usize = 0;
        while i < n
            invariant
                n == self@.len(),
                i <= n,
                best == earliest_deadline(self@.take(i as int)),
            decreases n - i,
        {
            let (d, _) = list_get(&self.entries, i);
            proof {
                assert(self@.take(i as int + 1).drop_last() =~= self@.take(i as int));
            }
            best = match best {
                None => Some(d),
                Some(acc) => Some(if TickInstant::from_ticks(acc).is_after(&TickInstant::from_ticks(d)) { d } else { acc }),
            };
            i = i + 1;
        }
        proof {
            assert(self@.take(n as int) =~= self@);
            lemma_earliest_deadline_is_an_entry(self@);
            assert forall|lo: u64| #[trigger] deadlines_within_half_range(self@, lo) implies (best matches Some(t) ==>
                forall|j: int| 0 <= j < self@.len() ==> !instant_strictly_after(t, #[trigger] self@[j].0)) by {
                lemma_earliest_deadline_is_least(self@, lo);
            }
        }
        match best {
            None => None,
            Some(t) => Some(TickInstant::from_ticks(t)),
        }
    }
}

} // verus!
