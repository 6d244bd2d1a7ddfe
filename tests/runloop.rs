use mtime::runloop::{random_pause, Action, Event, LoopError, RunLoop};
use mtime::usage::{usage_delta, RUsage, RunMetrics};

fn usage(user: i64, sys: i64) -> RUsage {
    RUsage { user_tv_usec: user, system_tv_usec: sys }
}

#[test]
fn zero_runs_finish_without_running() {
    let mut l = RunLoop::new(0, 0, 0);
    assert_eq!(l.next(Event::Begin), Ok(Action::TakeSnapshot));
    assert_eq!(l.next(Event::Snapshot { usage: usage(5, 5) }), Ok(Action::Finish));
    assert!(l.runs().is_empty());
    assert_eq!(mtime::stats::stats(l.into_runs()), Err(mtime::stats::StatsError::NoSamples));
}

#[test]
fn no_pause_when_sleep_is_zero() {
    let mut l = RunLoop::new(3, 0, 0);
    assert_eq!(l.next(Event::Begin), Ok(Action::TakeSnapshot));
    assert_eq!(l.next(Event::Snapshot { usage: usage(0, 0) }), Ok(Action::RunCommand));
    let c1 = Event::Completed { wall_clock_usec: 10, usage: usage(4, 1) };
    assert_eq!(l.next(c1), Ok(Action::RunCommand));
    let c2 = Event::Completed { wall_clock_usec: 12, usage: usage(9, 3) };
    assert_eq!(l.next(c2), Ok(Action::RunCommand));
    let c3 = Event::Completed { wall_clock_usec: 11, usage: usage(9, 3) };
    assert_eq!(l.next(c3), Ok(Action::Finish));
    let runs = l.into_runs();
    assert_eq!(
        runs,
        vec![
            RunMetrics { wall_clock_usec: 10, rusage: usage(4, 1) },
            RunMetrics { wall_clock_usec: 12, rusage: usage(5, 2) },
            RunMetrics { wall_clock_usec: 11, rusage: usage(0, 0) },
        ]
    );
}

#[test]
fn delays_and_pauses() {
    let mut l = RunLoop::new(2, 4, 7);
    assert_eq!(l.next(Event::Begin), Ok(Action::Wait { secs: 7 }));
    assert_eq!(l.next(Event::Waited), Ok(Action::TakeSnapshot));
    assert_eq!(l.next(Event::Snapshot { usage: usage(1, 1) }), Ok(Action::RunCommand));
    let c1 = Event::Completed { wall_clock_usec: 5, usage: usage(2, 2) };
    assert_eq!(l.next(c1), Ok(Action::Pause { max_secs: 4 }));
    assert_eq!(l.next(Event::Waited), Ok(Action::RunCommand));
    let c2 = Event::Completed { wall_clock_usec: 6, usage: usage(3, 3) };
    assert_eq!(l.next(c2), Ok(Action::Finish));
    assert_eq!(l.runs().len(), 2);
}

#[test]
fn out_of_order_event_is_refused() {
    let mut l = RunLoop::new(1, 0, 0);
    assert_eq!(l.next(Event::Waited), Err(LoopError::OutOfOrder));
    assert_eq!(l.next(Event::Begin), Ok(Action::TakeSnapshot));
    assert_eq!(l.next(Event::Begin), Err(LoopError::OutOfOrder));
}

#[test]
fn counter_going_back_is_refused() {
    let mut l = RunLoop::new(2, 0, 0);
    assert_eq!(l.next(Event::Begin), Ok(Action::TakeSnapshot));
    assert_eq!(l.next(Event::Snapshot { usage: usage(10, 10) }), Ok(Action::RunCommand));
    let bad = Event::Completed { wall_clock_usec: 1, usage: usage(9, 12) };
    assert_eq!(l.next(bad), Err(LoopError::CounterWentBack));
    assert!(l.runs().is_empty());
    let good = Event::Completed { wall_clock_usec: 1, usage: usage(11, 12) };
    assert_eq!(l.next(good), Ok(Action::RunCommand));
}

#[test]
fn random_pause_stays_in_range() {
    for _ in 0..50 {
        assert!(random_pause(3) <= 3);
    }
    assert_eq!(random_pause(0), 0);
}

#[test]
fn same_snapshot_twice_gives_zero() {
    let u = usage(1234, 567);
    assert_eq!(usage_delta(&u, &u), Some(usage(0, 0)));
}
