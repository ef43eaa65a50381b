use zero_to_async::blinky::{blinky_poll, Blinky, BlinkyState, BlinkyTransition, Event as BlinkyEvent};
use zero_to_async::count::CountFuture;
use zero_to_async::hello::{hello_poll, Event as HelloEvent, Hello, HelloState, HelloTransition};
use zero_to_async::led::{task_led, LedLevels, LedPhase};
use zero_to_async::time::TickInstant;

fn at(t: u64) -> TickInstant {
    TickInstant::from_ticks(t)
}

#[test]
fn blinky_starts_led_on() {
    let mut b = Blinky::new(at(0));
    assert_eq!(b.state(), BlinkyState::LedOn);
    let t = b.init(at(10));
    assert_eq!(t, BlinkyTransition {
        exited: None,
        entered: BlinkyState::LedOn,
        levels: LedLevels { rows_high: true, cols_high: true },
    });
    assert!(!b.timer_is_ready(at(10 + 32767)));
    assert!(b.timer_is_ready(at(10 + 32768)));
}

#[test]
fn blinky_alternates_on_timer() {
    let mut b = Blinky::new(at(0));
    b.init(at(0));
    assert_eq!(blinky_poll(&mut b, at(100)), None);
    let t = blinky_poll(&mut b, at(32768)).unwrap();
    assert_eq!(t.exited, Some(BlinkyState::LedOn));
    assert_eq!(t.entered, BlinkyState::LedOff);
    assert_eq!(t.levels, LedLevels { rows_high: true, cols_high: false });
    assert_eq!(blinky_poll(&mut b, at(32769)), None);
    let t = blinky_poll(&mut b, at(65536)).unwrap();
    assert_eq!(t.entered, BlinkyState::LedOn);
    let t = b.handle(&BlinkyEvent::TimerElapsed, at(70000));
    assert_eq!(t.entered, BlinkyState::LedOff);
}

#[test]
fn hello_counts_greetings() {
    let mut h = Hello::new(at(0));
    assert_eq!(h.count(), 0);
    assert_eq!(h.init(at(0)), HelloTransition { entered: HelloState::Print, printed: Some(0) });
    assert_eq!(h.count(), 1);
    assert_eq!(hello_poll(&mut h, at(65535)), None);
    assert_eq!(hello_poll(&mut h, at(65536)), Some(HelloTransition { entered: HelloState::Idle, printed: None }));
    // idle keeps the expired timer, so the next poll prints again at once
    assert_eq!(hello_poll(&mut h, at(65537)), Some(HelloTransition { entered: HelloState::Print, printed: Some(1) }));
    assert_eq!(h.count(), 2);
    assert_eq!(h.state(), HelloState::Print);
    assert_eq!(hello_poll(&mut h, at(65538)), None);
    assert_eq!(h.handle(&HelloEvent::TimerElapsed, at(70000)).entered, HelloState::Idle);
}

#[test]
fn led_task_alternates_every_second() {
    let s = task_led(LedPhase::On);
    assert_eq!(s.levels, LedLevels { rows_high: true, cols_high: false });
    assert_eq!(s.wait.ticks, 32768);
    assert_eq!(s.next, LedPhase::Off);
    let s = task_led(s.next);
    assert_eq!(s.levels, LedLevels { rows_high: true, cols_high: true });
    assert_eq!(s.next, LedPhase::On);
}

#[test]
fn count_future_ready_once_per_period() {
    let f = CountFuture { period: 30000 };
    let p = f.poll(0);
    assert!(p.ready);
    assert_eq!(p.next, 1);
    assert!(!f.poll(1).ready);
    assert!(!f.poll(29999).ready);
    assert!(f.poll(60000).ready);
    let wrap = f.poll(u32::MAX);
    assert_eq!(wrap.next, 0);
    assert!(!wrap.ready);
    let five = CountFuture { period: 5 };
    let ready: Vec<u32> = (0..12).filter(|x| five.poll(*x).ready).collect();
    assert_eq!(ready, vec![0, 5, 10]);
}

#[test]
fn hello_after_k_polls_counts_half() {
    let mut h = Hello::new(at(0));
    h.init(at(0));
    let mut printed = vec![0u32];
    let mut t = 65536u64;
    for k in 1..=7u32 {
        let r = hello_poll(&mut h, at(t)).unwrap();
        if let Some(n) = r.printed {
            printed.push(n);
        }
        assert_eq!(h.state() == HelloState::Print, k % 2 == 0);
        assert_eq!(h.count(), 1 + k / 2);
        t += 65536;
    }
    assert_eq!(printed, vec![0, 1, 2, 3]);
}
