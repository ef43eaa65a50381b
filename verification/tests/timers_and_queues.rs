use zero_to_async::deadlines::{schedule_wakeup, DeadlineQueue, WakeupStep, MAX_DEADLINES};
use zero_to_async::time::{TickDuration, TickInstant};
use zero_to_async::timer::{Timer, TimerPoll};
use zero_to_async::timers::{TimerEntry, TimerList, MAX_TIMERS};

#[test]
fn timer_is_ready_after_its_duration() {
    let t = Timer::new(TickInstant::from_ticks(100), TickDuration::from_ticks(50));
    assert_eq!(t.end_time().ticks, 150);
    assert!(!t.is_ready(TickInstant::from_ticks(100)));
    assert!(!t.is_ready(TickInstant::from_ticks(149)));
    assert!(t.is_ready(TickInstant::from_ticks(150)));
    assert!(t.is_ready(TickInstant::from_ticks(1000)));
    let zero = Timer::new(TickInstant::from_ticks(7), TickDuration::from_ticks(0));
    assert!(zero.is_ready(TickInstant::from_ticks(7)));
}

#[test]
fn timer_across_tick_wrap() {
    let t = Timer::new(TickInstant::from_ticks(u64::MAX - 1), TickDuration::from_ticks(4));
    assert_eq!(t.end_time().ticks, 2);
    assert!(!t.is_ready(TickInstant::from_ticks(u64::MAX)));
    assert!(t.is_ready(TickInstant::from_ticks(2)));
}

#[test]
fn timer_poll_registers_then_waits() {
    let mut t = Timer::new(TickInstant::from_ticks(0), TickDuration::from_ticks(10));
    assert_eq!(t.poll(TickInstant::from_ticks(50)), TimerPoll::Register);
    assert_eq!(t.poll(TickInstant::from_ticks(5)), TimerPoll::Pending);
    assert_eq!(t.poll(TickInstant::from_ticks(10)), TimerPoll::Ready);
}

#[test]
fn register_reports_earliest_deadline() {
    let mut q = DeadlineQueue::new();
    let a = Timer::new(TickInstant::from_ticks(0), TickDuration::from_ticks(100));
    let b = Timer::new(TickInstant::from_ticks(0), TickDuration::from_ticks(50));
    let c = Timer::new(TickInstant::from_ticks(0), TickDuration::from_ticks(70));
    assert!(a.register(&mut q, 1));
    assert!(b.register(&mut q, 2));
    assert!(!c.register(&mut q, 3));
    assert_eq!(q.len(), 3);
    assert_eq!(q.peek(), Some((50, 2)));
}

#[test]
fn deadline_queue_pops_in_order_and_fills_up() {
    let mut q = DeadlineQueue::new();
    assert!(q.is_empty());
    assert_eq!(q.peek(), None);
    for (i, d) in [40u64, 10, 30, 10, 20, 50, 60, 70].iter().enumerate() {
        assert!(q.push(*d, i));
    }
    assert!(q.is_full());
    assert_eq!(q.len(), MAX_DEADLINES);
    assert!(!q.push(5, 99));
    assert_eq!(q.pop(), Some((10, 1)));
    assert_eq!(q.pop(), Some((10, 3)));
    assert_eq!(q.pop(), Some((20, 4)));
    assert_eq!(q.pop(), Some((30, 2)));
    assert_eq!(q.len(), 4);
}

#[test]
fn schedule_wakeup_steps() {
    let mut q = DeadlineQueue::new();
    assert_eq!(schedule_wakeup(&mut q, 0, 0), WakeupStep::Disarm);
    // deadline in overflow-cycle 1 while the counter is in cycle 0
    q.push(0x100_0010, 4);
    assert_eq!(schedule_wakeup(&mut q, 0, 0x20), WakeupStep::Defer);
    assert_eq!(q.len(), 1);
    // now in cycle 1, far enough ahead: arm the compare register
    assert_eq!(schedule_wakeup(&mut q, 1, 0x5), WakeupStep::Arm(0x10));
    assert_eq!(q.len(), 1);
    // too close (one tick ahead): wake now
    assert_eq!(schedule_wakeup(&mut q, 1, 0xF), WakeupStep::Wake(4));
    assert!(q.is_empty());
    assert_eq!(schedule_wakeup(&mut q, 1, 0xF), WakeupStep::Disarm);
}

#[test]
fn schedule_wakeup_wakes_all_passed_deadlines() {
    let mut q = DeadlineQueue::new();
    q.push(5, 1);
    q.push(3, 2);
    q.push(100, 3);
    let mut woken = Vec::new();
    loop {
        match schedule_wakeup(&mut q, 0, 10) {
            WakeupStep::Wake(id) => woken.push(id),
            other => {
                assert_eq!(other, WakeupStep::Arm(100));
                break;
            }
        }
    }
    assert_eq!(woken, vec![2, 1]);
    assert_eq!(q.len(), 1);
}

fn entry(d: u64, id: usize) -> TimerEntry {
    TimerEntry { deadline: TickInstant::from_ticks(d), task_id: id }
}

#[test]
fn timer_list_expires_due_entries() {
    let mut l = TimerList::new();
    assert!(l.push(entry(10, 0)));
    assert!(l.push(entry(50, 1)));
    assert!(l.push(entry(20, 2)));
    assert!(l.push(entry(60, 3)));
    let woken = l.expire(TickInstant::from_ticks(25));
    // taken out in the order of the swap-remove pass
    let ids: Vec<usize> = woken.iter().map(|e| e.task_id).collect();
    assert_eq!(ids, vec![0, 2]);
    assert_eq!(l.len(), 2);
    // the last entry moved into the first hole
    let left: Vec<usize> = (0..l.len()).map(|i| l.get(i).task_id).collect();
    assert_eq!(left, vec![3, 1]);
    assert_eq!(l.next_deadline(), Some(TickInstant::from_ticks(50)));
    assert_eq!(l.expire(TickInstant::from_ticks(0)).len(), 0);
}

#[test]
fn timer_list_capacity_and_empty_min() {
    let mut l = TimerList::new();
    assert_eq!(l.next_deadline(), None);
    for i in 0..MAX_TIMERS {
        assert!(l.push(entry(100 + i as u64, i)));
    }
    assert!(!l.push(entry(1, 99)));
    assert_eq!(l.len(), MAX_TIMERS);
    assert_eq!(l.next_deadline(), Some(TickInstant::from_ticks(100)));
}

#[test]
fn timer_list_min_follows_wrap_around() {
    let mut l = TimerList::new();
    l.push(entry(u64::MAX - 1, 0));
    l.push(entry(3, 1));
    // 3 lies after u64::MAX - 1 once the ticks wrap
    assert_eq!(l.next_deadline(), Some(TickInstant::from_ticks(u64::MAX - 1)));
}

#[test]
fn ready_timer_stays_ready() {
    let mut t = Timer::new(TickInstant::from_ticks(0), TickDuration::from_ticks(10));
    t.poll(TickInstant::from_ticks(0));
    assert_eq!(t.poll(TickInstant::from_ticks(10)), TimerPoll::Ready);
    assert_eq!(t.poll(TickInstant::from_ticks(1_000_000)), TimerPoll::Ready);
    assert!(t.is_ready(TickInstant::from_ticks(10 + (u64::MAX / 2))));
    // beyond half the range the end looks like it lies ahead again
    assert!(!t.is_ready(TickInstant::from_ticks(11 + (u64::MAX / 2))));
}

#[test]
fn wakeup_loop_wakes_due_deadlines_in_order() {
    let mut q = DeadlineQueue::new();
    q.push(0x0000_0030, 7);
    q.push(0x0000_0005, 9);
    q.push(0x0000_0005, 2);
    q.push(0x0100_0001, 4);
    let mut woken = Vec::new();
    let last = loop {
        match schedule_wakeup(&mut q, 0, 0x10) {
            WakeupStep::Wake(id) => woken.push(id),
            other => break other,
        }
    };
    assert_eq!(woken, vec![2, 9]);
    assert_eq!(last, WakeupStep::Arm(0x30));
    assert_eq!(q.len(), 2);
}
