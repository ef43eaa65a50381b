//! The queue of wake-up deadlines: a bounded min-heap of
//! `(deadline ticks, task id)` pairs from `heapless`, and the decision of what
//! to do with its earliest entry when the compare register is to be set.

use vstd::prelude::*;
use vstd::multiset::Multiset;
use crate::ticker::{epoch_of, counter_of, composed_ticks, deadline_epoch, deadline_counter, lemma_compose, lemma_split};

verus! {

/// Room in the deadline queue.
pub const MAX_DEADLINES: usize = 8;

#[verifier::external_type_specification]
#[verifier::external_body]
#[verifier::reject_recursive_types(T)]
#[verifier::reject_recursive_types(K)]
pub struct ExBinaryHeap<T, K, const N: usize>(heapless::BinaryHeap<T, K, N>);

#[verifier::external_type_specification]
#[verifier::external_body]
pub struct ExMin(heapless::binary_heap::Min);

/// What a deadline heap holds.
pub uninterp spec fn heap_items(heap: heapless::BinaryHeap<(u64, usize), heapless::binary_heap::Min, 8>) -> Multiset<(u64, usize)>;

/// The order of `(u64, usize)` tuples: by the first field, then by the second.
pub open spec fn pair_le(a: (u64, usize), b: (u64, usize)) -> bool {
    a.0 < b.0 || (a.0 == b.0 && a.1 <= b.1)
}

/// `x` is the least item of `m`.
pub open spec fn is_least(m: Multiset<(u64, usize)>, x: (u64, usize)) -> bool {
    &&& m.contains(x)
    &&& forall|y: (u64, usize)| m.contains(y) ==> pair_le(x, y)
}

/// Calls `heapless::BinaryHeap::new`: the heap starts empty.
#[verifier::external_body]
fn heap_new() -> (r: heapless::BinaryHeap<(u64, usize), heapless::binary_heap::Min, 8>)
    ensures
        heap_items(r) == Multiset::<(u64, usize)>::empty(),
{
    heapless::BinaryHeap::new()
}

/// Calls `heapless::BinaryHeap::len`: the number of items, which never exceeds the capacity 8.
#[verifier::external_body]
fn heap_len(heap: &heapless::BinaryHeap<(u64, usize), heapless::binary_heap::Min, 8>) -> (r: usize)
    ensures
        r == heap_items(*heap).len(),
        r <= 8,
{
    heap.len()
}

/// Calls `heapless::BinaryHeap::peek` on a min-heap and copies the item out:
/// `None` when the heap is empty, else its least item.
#[verifier::external_body]
fn heap_peek(heap: &heapless::BinaryHeap<(u64, usize), heapless::binary_heap::Min, 8>) -> (r: Option<(u64, usize)>)
    ensures
        r is None <==> heap_items(*heap).len() == 0,
        r matches Some(x) ==> is_least(heap_items(*heap), x),
{
    heap.peek().copied()
}

/// Calls `heapless::BinaryHeap::push`: with room left the item is added and
/// `Ok` returned; a full heap (8 items) is left as it was and `Err` returned.
#[verifier::external_body]
fn heap_push(heap: &mut heapless::BinaryHeap<(u64, usize), heapless::binary_heap::Min, 8>, item: (u64, usize)) -> (r: bool)
    ensures
        heap_items(*old(heap)).len() < 8 ==> r && heap_items(*final(heap)) == heap_items(*old(heap)).insert(item),
        heap_items(*old(heap)).len() >= 8 ==> !r && heap_items(*final(heap)) == heap_items(*old(heap)),
{
    heap.push(item).is_ok()
}

/// Calls `heapless::BinaryHeap::pop` on a min-heap: `None` when empty, else
/// the least item, which is taken out.
#[verifier::external_body]
fn heap_pop(heap: &mut heapless::BinaryHeap<(u64, usize), heapless::binary_heap::Min, 8>) -> (r: Option<(u64, usize)>)
    ensures
        r is None <==> heap_items(*old(heap)).len() == 0,
        r is None ==> heap_items(*final(heap)) == heap_items(*old(heap)),
        r matches Some(x) ==> is_least(heap_items(*old(heap)), x)
            && heap_items(*final(heap)) == heap_items(*old(heap)).remove(x),
{
    heap.pop()
}

/// The pending wake-up deadlines, each a `(deadline ticks, task id)` pair,
/// earliest first.
pub struct DeadlineQueue {
    heap: heapless::BinaryHeap<(u64, usize), heapless::binary_heap::Min, 8>,
}

impl View for DeadlineQueue {
    type V = Multiset<(u64, usize)>;

    closed spec fn view(&self) -> Multiset<(u64, usize)> {
        heap_items(self.heap)
    }
}

/// The least item of a multiset under `pair_le` is unique.
pub proof fn lemma_least_unique(m: Multiset<(u64, usize)>, x: (u64, usize), y: (u64, usize))
    requires
        is_least(m, x),
        is_least(m, y),
    ensures
        x == y,
{
    assert(pair_le(x, y) && pair_le(y, x));
}

impl DeadlineQueue {
    /// An empty queue.
    pub fn new() -> (r: DeadlineQueue)
        ensures
            r@ == Multiset::<(u64, usize)>::empty(),
    {
        DeadlineQueue { heap: heap_new() }
    }

    /// Number of pending deadlines.
    pub fn len(&self) -> (r: usize)
        ensures
            r == self@.len(),
            r <= MAX_DEADLINES,
    {
        heap_len(&self.heap)
    }

    /// Whether no deadline is pending.
    pub fn is_empty(&self) -> (r: bool)
        ensures
            r == (self@.len() == 0),
    {
        heap_len(&self.heap) == 0
    }

    /// Whether the queue has no room left.
    pub fn is_full(&self) -> (r: bool)
        ensures
            r == (self@.len() >= MAX_DEADLINES),
    {
        heap_len(&self.heap) >= MAX_DEADLINES
    }

    /// The earliest pending `(deadline, task id)`, if any.
    pub fn peek(&self) -> (r: Option<(u64, usize)>)
        ensures
            r is None <==> self@.len() == 0,
            r matches Some(x) ==> is_least(self@, x),
    {
        heap_peek(&self.heap)
    }

    /// Adds a deadline for a task; `false` (and no change) when the queue is full.
    pub fn push(&mut self, deadline: u64, task_id: usize) -> (r: bool)
        ensures
            r == (old(self)@.len() < MAX_DEADLINES),
            r ==> final(self)@ == old(self)@.insert((deadline, task_id)),
            !r ==> final(self)@ == old(self)@,
    {
        heap_push(&mut self.heap, (deadline, task_id))
    }

    /// Takes out the earliest pending `(deadline, task id)`, if any.
    pub fn pop(&mut self) -> (r: Option<(u64, usize)>)
        ensures
            r is None <==> old(self)@.len() == 0,
            r is None ==> final(self)@ == old(self)@,
            r matches Some(x) ==> is_least(old(self)@, x) && final(self)@ == old(self)@.remove(x),
    {
        heap_pop(&mut self.heap)
    }
}

/// What to do next while programming the compare register for the queue.
#[derive(Clone, Copy, Debug, PartialEq, Eq)]
pub enum WakeupStep {
    /// Wake the given task now (its deadline is due or too near for the compare
    /// register) and ask for the next step; the entry is gone from the queue.
    Wake(usize),
    /// Load this counter value into the compare register and enable its event.
    Arm(u32),
    /// The earliest deadline lies in a later overflow-cycle: leave it for the
    /// overflow interrupt.
    Defer,
    /// No deadline is pending: disable the compare event.
    Disarm,
}

/// The step that the queue's earliest entry `x` calls for, given the current
/// overflow count and hardware counter.
pub open spec fn step_for(x: (u64, usize), ovf_count: u32, counter: u32) -> WakeupStep {
    if epoch_of(x.0) != ovf_count {
        WakeupStep::Defer
    } else if counter_of(x.0) > counter + 1 {
        WakeupStep::Arm(counter_of(x.0))
    } else {
        WakeupStep::Wake(x.1)
    }
}

/// The least item of a non-empty multiset (see `lemma_least_exists`).
pub open spec fn least_of(m: Multiset<(u64, usize)>) -> (u64, usize) {
    choose|x: (u64, usize)| is_least(m, x)
}

/// Every non-empty multiset of `(u64, usize)` pairs has a least item.
pub proof fn lemma_least_exists(m: Multiset<(u64, usize)>)
    requires
        m.len() > 0,
    ensures
        is_least(m, least_of(m)),
    decreases m.len(),
{
    broadcast use vstd::multiset::group_multiset_axioms;
    broadcast use vstd::multiset::lemma_multiset_empty_len;
    let e = m.choose();
    assert(m.contains(e));
    let r = m.remove(e);
    assert(r.len() == m.len() - 1);
    if r.len() == 0 {
        assert forall|y: (u64, usize)| m.contains(y) implies pair_le(e, y) by {
            if y != e {
                assert(r.count(y) == m.count(y));
                assert(r =~= Multiset::empty());
            }
        }
        assert(is_least(m, e));
    } else {
        lemma_least_exists(r);
        let y = least_of(r);
        assert(r.count(y) <= m.count(y));
        if pair_le(e, y) {
            assert forall|z: (u64, usize)| m.contains(z) implies pair_le(e, z) by {
                if z != e {
                    assert(r.count(z) == m.count(z));
                    assert(pair_le(y, z));
                }
            }
            assert(is_least(m, e));
        } else {
            assert forall|z: (u64, usize)| m.contains(z) implies pair_le(y, z) by {
                if z != e {
                    assert(r.count(z) == m.count(z));
                }
            }
            assert(is_least(m, y));
        }
    }
}

/// The whole wake-up loop run at a fixed overflow count and counter: the
/// entries woken, earliest first, while the earliest entry is due; the step
/// it ends with (arm, defer or disarm); and the entries left.
pub open spec fn wakeup_run(m: Multiset<(u64, usize)>, ovf_count: u32, counter: u32) -> (Seq<(u64, usize)>, WakeupStep, Multiset<(u64, usize)>)
    decreases m.len(),
{
    if m.len() == 0 {
        (Seq::empty(), WakeupStep::Disarm, m)
    } else {
        let x = least_of(m);
        if m.contains(x) && step_for(x, ovf_count, counter) is Wake {
            proof {
                broadcast use vstd::multiset::group_multiset_axioms;
            }
            let rest = wakeup_run(m.remove(x), ovf_count, counter);
            (seq![x] + rest.0, rest.1, rest.2)
        } else {
            (Seq::empty(), step_for(x, ovf_count, counter), m)
        }
    }
}

/// Law: the wake-up loop at a fixed counter wakes only due entries, in
/// ascending order of `(deadline, task id)`; what it wakes and what it leaves
/// make up the queue it started from; and it ends by disarming when nothing is
/// left, else with the (non-waking) step the earliest remaining entry calls for.
pub proof fn lemma_wakeup_run(m: Multiset<(u64, usize)>, ovf_count: u32, counter: u32)
    ensures
        forall|i: int| 0 <= i < wakeup_run(m, ovf_count, counter).0.len()
            ==> step_for(#[trigger] wakeup_run(m, ovf_count, counter).0[i], ovf_count, counter) is Wake,
        forall|i: int, j: int| 0 <= i < j < wakeup_run(m, ovf_count, counter).0.len()
            ==> pair_le(#[trigger] wakeup_run(m, ovf_count, counter).0[i], #[trigger] wakeup_run(m, ovf_count, counter).0[j]),
        wakeup_run(m, ovf_count, counter).2.add(wakeup_run(m, ovf_count, counter).0.to_multiset()) =~= m,
        wakeup_run(m, ovf_count, counter).2.len() == 0 ==> wakeup_run(m, ovf_count, counter).1 == WakeupStep::Disarm,
        wakeup_run(m, ovf_count, counter).2.len() > 0 ==> {
            &&& wakeup_run(m, ovf_count, counter).1 == step_for(least_of(wakeup_run(m, ovf_count, counter).2), ovf_count, counter)
            &&& !(wakeup_run(m, ovf_count, counter).1 is Wake)
        },
    decreases m.len(),
{
    broadcast use vstd::multiset::group_multiset_axioms;
    broadcast use vstd::seq_lib::group_to_multiset_ensures;
    if m.len() == 0 {
        assert(Seq::<(u64, usize)>::empty().to_multiset() =~= Multiset::empty());
    } else {
        lemma_least_exists(m);
        let x = least_of(m);
        if step_for(x, ovf_count, counter) is Wake {
            let mr = m.remove(x);
            lemma_wakeup_run(mr, ovf_count, counter);
            let rest = wakeup_run(mr, ovf_count, counter);
            let w = seq![x] + rest.0;
            assert(wakeup_run(m, ovf_count, counter) == (w, rest.1, rest.2));
            vstd::seq_lib::lemma_multiset_commutative(seq![x], rest.0);
            assert(seq![x].to_multiset() =~= Multiset::empty().insert(x)) by {
                assert(seq![x] =~= Seq::<(u64, usize)>::empty().push(x));
                assert(Seq::<(u64, usize)>::empty().to_multiset() =~= Multiset::empty());
            }
            assert(w.to_multiset() =~= Multiset::empty().insert(x).add(rest.0.to_multiset()));
            assert(rest.2.add(rest.0.to_multiset()) =~= mr);
            assert forall|z: (u64, usize)| #[trigger] rest.2.add(w.to_multiset()).count(z) == m.count(z) by {
                assert(rest.2.add(w.to_multiset()).count(z) == rest.2.count(z) + rest.0.to_multiset().count(z)
                    + Multiset::empty().insert(x).count(z));
                assert(mr.count(z) == rest.2.count(z) + rest.0.to_multiset().count(z));
                if z == x {
                    assert(m.count(z) > 0);
                    assert(mr.count(z) == m.count(z) - 1);
                } else {
                    assert(mr.count(z) == m.count(z));
                }
            }
            assert(rest.2.add(w.to_multiset()) =~= m);
            assert forall|j: int| 0 <= j < rest.0.len() implies #[trigger] m.contains(rest.0[j]) by {
                assert(rest.0.to_multiset().count(rest.0[j]) > 0);
                assert(mr.count(rest.0[j]) > 0);
            }
            assert forall|i: int, j: int| 0 <= i < j < w.len() implies pair_le(#[trigger] w[i], #[trigger] w[j]) by {
                if i == 0 {
                    assert(w[j] == rest.0[j - 1]);
                    assert(m.contains(rest.0[j - 1]));
                } else {
                    assert(w[i] == rest.0[i - 1] && w[j] == rest.0[j - 1]);
                }
            }
            assert forall|i: int| 0 <= i < w.len() implies step_for(#[trigger] w[i], ovf_count, counter) is Wake by {
                if i > 0 {
                    assert(w[i] == rest.0[i - 1]);
                }
            }
        } else {
            assert(Seq::<(u64, usize)>::empty().to_multiset() =~= Multiset::empty());
        }
    }
}

/// One round of scheduling the next wake-up. A deadline can only be loaded
/// into the compare register when it falls in the current overflow-cycle and
/// more than one tick ahead of the counter; an earlier one is woken at once.
pub fn schedule_wakeup(queue: &mut DeadlineQueue, ovf_count: u32, counter: u32) -> (r: WakeupStep)
    requires
        counter < u32::MAX,
    ensures
        old(queue)@.len() == 0 ==> r == WakeupStep::Disarm && final(queue)@ == old(queue)@,
        forall|x: (u64, usize)| #[trigger] is_least(old(queue)@, x) ==> {
            &&& r == step_for(x, ovf_count, counter)
            &&& r is Wake ==> final(queue)@ == old(queue)@.remove(x)
            &&& !(r is Wake) ==> final(queue)@ == old(queue)@
        },
        r matches WakeupStep::Wake(id) ==> {
            let run = wakeup_run(old(queue)@, ovf_count, counter);
            &&& run.0.len() > 0
            &&& run.0[0].1 == id
            &&& run.0.drop_first() == wakeup_run(final(queue)@, ovf_count, counter).0
            &&& run.1 == wakeup_run(final(queue)@, ovf_count, counter).1
            &&& run.2 == wakeup_run(final(queue)@, ovf_count, counter).2
        },
        !(r is Wake) ==> wakeup_run(old(queue)@, ovf_count, counter) == (Seq::<(u64, usize)>::empty(), r, old(queue)@),
        (r == WakeupStep::Disarm) == (old(queue)@.len() == 0),
{
    match queue.peek() {
        None => WakeupStep::Disarm,
        Some((deadline, task_id)) => {
            proof {
                lemma_step_follows_the_clock((deadline, task_id), ovf_count, counter);
                assert forall|x: (u64, usize)| #[trigger] is_least(old(queue)@, x) implies x == (deadline, task_id) by {
                    lemma_least_unique(old(queue)@, x, (deadline, task_id));
                }
            }
            if deadline_epoch(deadline) == ovf_count {
                let compare = deadline_counter(deadline);
                if compare > counter + 1 {
                    WakeupStep::Arm(compare)
                } else {
                    let popped = queue.pop();
                    proof {
                        let p = popped.unwrap();
                        lemma_least_unique(old(queue)@, p, (deadline, task_id));
                    }
                    WakeupStep::Wake(task_id)
                }
            } else {
                WakeupStep::Defer
            }
        },
    }
}

/// Law: scheduling never wakes a task early and never arms the compare
/// register for a deadline it could miss. With the clock at
/// `now = composed_ticks(ovf_count, counter)`, a woken deadline is at most one
/// tick after `now`, and an armed compare value is the counter part of a
/// deadline in the current overflow-cycle more than one tick after `now`
/// (for deadlines below `2^56`, whose epoch fits in 32 bits).
pub proof fn lemma_schedule_wakes_only_due_deadlines(x: (u64, usize), ovf_count: u32, counter: u32)
    requires
        x.0 < 0x100_0000_0000_0000,
        counter < 0x100_0000,
    ensures
        step_for(x, ovf_count, counter) is Wake ==> x.0 <= composed_ticks(ovf_count, counter) + 1,
        step_for(x, ovf_count, counter) matches WakeupStep::Arm(c) ==> {
            &&& x.0 == composed_ticks(ovf_count, c)
            &&& x.0 > composed_ticks(ovf_count, counter) + 1
        },
        step_for(x, ovf_count, counter) is Defer ==> epoch_of(x.0) != ovf_count,
{
    lemma_split(x.0);
    lemma_compose(ovf_count, counter);
}

/// Law: the step for the earliest entry `x` follows from where its deadline
/// lies relative to the clock `now = composed_ticks(ovf_count, counter)`
/// (for deadlines below `2^56` and a 24-bit counter): a deadline in the
/// current overflow-cycle at most one tick after `now` (due, or too close for
/// the compare register) wakes its task; one in the current cycle further
/// ahead arms the compare register with the counter value at which it falls;
/// one in another cycle is deferred. A pending entry never disarms.
pub proof fn lemma_step_follows_the_clock(x: (u64, usize), ovf_count: u32, counter: u32)
    ensures
        step_for(x, ovf_count, counter) != WakeupStep::Disarm,
        (x.0 < 0x100_0000_0000_0000 && counter < 0x100_0000) ==> {
            let now = composed_ticks(ovf_count, counter);
            &&& (epoch_of(x.0) == ovf_count && x.0 <= now + 1) ==> step_for(x, ovf_count, counter) == WakeupStep::Wake(x.1)
            &&& (epoch_of(x.0) == ovf_count && x.0 > now + 1) ==> {
                &&& step_for(x, ovf_count, counter) matches WakeupStep::Arm(c)
                &&& composed_ticks(ovf_count, step_for(x, ovf_count, counter)->Arm_0) == x.0
            }
            &&& epoch_of(x.0) != ovf_count ==> step_for(x, ovf_count, counter) == WakeupStep::Defer
        },
{
    if x.0 < 0x100_0000_0000_0000 && counter < 0x100_0000 {
        lemma_split(x.0);
        lemma_compose(ovf_count, counter);
        if epoch_of(x.0) == ovf_count && x.0 > composed_ticks(ovf_count, counter) + 1 {
            lemma_compose(ovf_count, counter_of(x.0));
        }
    }
}

} // verus!
