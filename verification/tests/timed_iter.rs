use std::time::Instant;
use wsclient::timer::duration_to_polls;
use wsclient::timer::timer;
use wsclient::timer::timer_tick;
use wsclient::timer::TimedIter;
use wsclient::timer::TimedIterExt;
use wsclient::timer::TimerMessage;

#[test]
fn test_can_wrap() {
    let range = vec![1, 2, 3];
    let mut timed = TimedIter {
        time_since_last: Instant::now(),
        inner: range.iter(),
        timeout_ns: 1_000_000,
    };

    let mut res: Vec<&i32> = Vec::new();
    while let Some(x) = timed.next_item() {
        res.push(x);
    }
    assert!(res.len() == 3);
    assert!(*res[0] == range[0]);
    assert!(*res[1] == range[1]);
    assert!(*res[2] == range[2]);
}

#[test]
fn test_can_consume() {
    let range = vec![1, 2, 3];
    let mut timed = range.iter().timed(1_000_000);
    let mut res: Vec<&i32> = Vec::new();
    while let Some(x) = timed.next_item() {
        res.push(x);
    }
    assert!(res.len() == 3);
    assert!(*res[0] == range[0]);
    assert!(*res[1] == range[1]);
    assert!(*res[2] == range[2]);
}

#[test]
fn test_infinite() {
    let _r = std::iter::repeat(()).take(3).timed(1_000_000);
}

#[test]
fn test_timeout() {
    let mut r = timer(50_000_000);
    let mut clock = Instant::now();
    for _ in 0..3 {
        r.next_item();
        println!("Elapsed: {}", clock.elapsed().as_secs_f32());
        clock = Instant::now();
    }
}

#[test]
fn dispatcher_tick_decrements_and_rearms() {
    let mut timers = vec![
        TimerMessage { message: 1u32, repeat: false, ticks: 2, interval_polls: 2 },
        TimerMessage { message: 2u32, repeat: true, ticks: 1, interval_polls: 3 },
    ];
    // First wake: the repeating entry fires and is re-armed; the one-shot
    // merely counts down.
    let dispatched = timer_tick(&mut timers);
    assert_eq!(dispatched, vec![2]);
    assert_eq!(timers.len(), 2);
    assert_eq!(timers[0].ticks, 1);
    assert_eq!(timers[1].ticks, 3);
    // Second wake: the one-shot fires and leaves.
    let dispatched = timer_tick(&mut timers);
    assert_eq!(dispatched, vec![1]);
    assert_eq!(timers.len(), 1);
    assert_eq!(timers[0].message, 2);
    assert_eq!(timers[0].ticks, 2);
}

#[test]
fn polls_cover_duration() {
    // 16 ms polls: a 50 ms duration needs 4 wakes (ceiling), a 16 ms one 1.
    assert_eq!(duration_to_polls(50_000_000, 16_000_000), 4);
    assert_eq!(duration_to_polls(16_000_000, 16_000_000), 1);
    assert_eq!(duration_to_polls(0, 16_000_000), 1);
}
