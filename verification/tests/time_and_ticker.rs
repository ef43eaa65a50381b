use zero_to_async::time::{TickDuration, TickInstant};
use zero_to_async::ticker::{compose_ticks, deadline_counter, deadline_epoch, Ticker};

#[test]
fn millis_convert_to_32768_hz_ticks() {
    assert_eq!(TickDuration::millis(1000).ticks, 32768);
    assert_eq!(TickDuration::millis(2000).ticks, 65536);
    // 100 ms is 3276.8 ticks, rounded down
    assert_eq!(TickDuration::millis(100).ticks, 3276);
    assert_eq!(TickDuration::millis(0).ticks, 0);
}

#[test]
fn instant_plus_duration_wraps() {
    let i = TickInstant::from_ticks(10);
    assert_eq!(i.add(TickDuration::from_ticks(5)).ticks, 15);
    let top = TickInstant::from_ticks(u64::MAX);
    assert_eq!(top.add(TickDuration::from_ticks(2)).ticks, 1);
}

#[test]
fn instants_order_with_wrap_around() {
    let a = TickInstant::from_ticks(5);
    let b = TickInstant::from_ticks(3);
    assert!(a.is_at_or_after(&b));
    assert!(!b.is_at_or_after(&a));
    assert!(a.is_at_or_after(&a));
    // 1 comes after u64::MAX once the ticks have wrapped
    let wrapped = TickInstant::from_ticks(1);
    let last = TickInstant::from_ticks(u64::MAX);
    assert!(wrapped.is_at_or_after(&last));
    assert!(!last.is_at_or_after(&wrapped));
    // exactly half the range apart still counts as at-or-after, one more does not
    let zero = TickInstant::from_ticks(0);
    assert!(TickInstant::from_ticks(u64::MAX / 2).is_at_or_after(&zero));
    assert!(!TickInstant::from_ticks(u64::MAX / 2 + 1).is_at_or_after(&zero));
}

#[test]
fn millis_since_epoch_rounds_down() {
    assert_eq!(TickInstant::from_ticks(32768).millis_since_epoch(), 1000);
    assert_eq!(TickInstant::from_ticks(32767).millis_since_epoch(), 999);
}

#[test]
fn compose_and_split_ticks() {
    assert_eq!(compose_ticks(0, 0), 0);
    assert_eq!(compose_ticks(1, 5), 0x100_0005);
    assert_eq!(compose_ticks(3, 0xFF_FFFF), 0x3FF_FFFF);
    // a counter wider than 24 bits is or-ed into the overflow bits
    assert_eq!(compose_ticks(1, 0x100_0000), 0x100_0000);
    let t = compose_ticks(42, 1234);
    assert_eq!(deadline_epoch(t), 42);
    assert_eq!(deadline_counter(t), 1234);
    assert_eq!(deadline_epoch(0x1234_5678_9ABC), 0x1234_56);
    assert_eq!(deadline_counter(0x1234_5678_9ABC), 0x78_9ABC);
}

#[test]
fn ticker_now_needs_matching_overflow_reads() {
    assert_eq!(Ticker::now(2, 100, 2), Some(TickInstant::from_ticks(0x200_0064)));
    assert_eq!(Ticker::now(2, 100, 3), None);
    assert_eq!(Ticker::counter_now(77).ticks, 77);
}

#[test]
fn set_compare_moves_past_deadlines_to_next_tick() {
    let now = TickInstant::from_ticks(0x100_0010);
    // deadline in the future: its counter part
    assert_eq!(Ticker::set_compare(TickInstant::from_ticks(0x100_0020), now), 0x20);
    // deadline already passed: one tick after now
    assert_eq!(Ticker::set_compare(TickInstant::from_ticks(0x100_0001), now), 0x11);
    // deadline equal to now: one tick after now
    assert_eq!(Ticker::set_compare(now, now), 0x11);
    // the next tick crosses into a new overflow cycle
    // half the tick range apart: fugit's `deadline <= now` holds, so the next tick is used
    assert_eq!(Ticker::set_compare(TickInstant::from_ticks(0), TickInstant::from_ticks(1u64 << 63)), 1);
    assert_eq!(Ticker::set_compare(TickInstant::from_ticks(0), TickInstant::from_ticks((1u64 << 63) + 1)), 2);
    // a deadline strictly after now keeps its own counter part
    assert_eq!(Ticker::set_compare(TickInstant::from_ticks(0x1_0000_0007), TickInstant::from_ticks(0x1_0000_0000)), 7);
    let end = TickInstant::from_ticks(0xFF_FFFF);
    assert_eq!(Ticker::set_compare(TickInstant::from_ticks(5), end), 0);
}
