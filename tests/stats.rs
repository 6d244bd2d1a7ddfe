use mtime::stats::{max, median_doubled, min, spread, stats, total, ContextStat, StatsError, SummaryStat};
use mtime::usage::{RUsage, RunMetrics};

fn run(wall: i64, user: i64, sys: i64) -> RunMetrics {
    RunMetrics { wall_clock_usec: wall, rusage: RUsage { user_tv_usec: user, system_tv_usec: sys } }
}

#[test]
fn three_samples_summary() {
    let s = SummaryStat::new(vec![1, 2, 3]).unwrap();
    assert_eq!(s.count, 3);
    assert_eq!(s.total, 6);
    assert_eq!(s.min, 1);
    assert_eq!(s.max, 3);
    assert_eq!(s.median_doubled, 4);
    // sum((3v - 6)^2) = 9 + 0 + 9; variance = 18 / 27 = 2/3
    assert_eq!(s.spread, 18);
    let std_dev = ((s.spread as f64) / (s.count as f64).powi(3)).sqrt();
    assert!((std_dev - 0.8165).abs() < 1e-4);
    assert_eq!(s.total as f64 / s.count as f64, 2.0);
}

#[test]
fn four_samples_even_median_formula() {
    let s = SummaryStat::new(vec![4, 2, 1, 3]).unwrap();
    // sorted [1, 2, 3, 4]: t[2] + t[1] / 2 = 3 + 1 = 4
    assert_eq!(s.median_doubled, 8);
    assert_eq!(s.median_doubled as f64 / 2.0, 4.0);
    assert_eq!(s.total, 10);
    // 4v - 10 = -6, -2, 2, 6
    assert_eq!(s.spread, 80);
    assert_eq!((s.spread as f64) / 64.0, 1.25);
}

#[test]
fn constant_samples_have_no_spread() {
    let s = SummaryStat::new(vec![5, 5, 5]).unwrap();
    assert_eq!(s.total, 15);
    assert_eq!(s.spread, 0);
    assert_eq!(s.min, 5);
    assert_eq!(s.max, 5);
    assert_eq!(s.median_doubled, 10);
    let even = SummaryStat::new(vec![5, 5]).unwrap();
    assert_eq!(even.spread, 0);
    assert_eq!(even.median_doubled, 15);
}

#[test]
fn single_sample() {
    let s = SummaryStat::new(vec![-7]).unwrap();
    assert_eq!(s.count, 1);
    assert_eq!(s.total, -7);
    assert_eq!(s.spread, 0);
    assert_eq!(s.min, -7);
    assert_eq!(s.max, -7);
    assert_eq!(s.median_doubled, -14);
}

#[test]
fn odd_median_between_extremes() {
    let s = SummaryStat::new(vec![9, -3, 4, 7, 1]).unwrap();
    assert_eq!(s.median_doubled, 8);
    assert_eq!(s.min, -3);
    assert_eq!(s.max, 9);
    assert!(2 * (s.min as i128) <= s.median_doubled && s.median_doubled <= 2 * (s.max as i128));
}

#[test]
fn empty_samples_are_refused() {
    assert_eq!(SummaryStat::new(vec![]), Err(StatsError::NoSamples));
    assert_eq!(stats(vec![]), Err(StatsError::NoSamples));
}

#[test]
fn huge_spread_is_refused() {
    assert_eq!(SummaryStat::new(vec![i64::MAX, i64::MIN]), Err(StatsError::SpreadOverflow));
    assert_eq!(spread(&vec![i64::MAX, i64::MIN], -1), None);
}

#[test]
fn extreme_samples_sum_exactly() {
    assert_eq!(total(&vec![i64::MAX, i64::MAX, i64::MAX]), 3 * (i64::MAX as i128));
    assert_eq!(total(&vec![]), 0);
}

#[test]
fn min_and_max() {
    let v = vec![3, -1, 8, 8, 0];
    assert_eq!(min(&v), Some(&-1));
    assert_eq!(max(&v), Some(&8));
    assert_eq!(min(&vec![]), None);
    assert_eq!(max(&vec![]), None);
}

#[test]
fn median_sorts_its_input() {
    assert_eq!(median_doubled(&vec![30, 10, 20]), 40);
    assert_eq!(median_doubled(&vec![40, 10, 30, 20]), 80);
}

#[test]
fn channels_are_summarised_separately() {
    let runs = vec![run(100, 10, 1), run(300, 30, 3), run(200, 20, 2)];
    let c: ContextStat = stats(runs).unwrap();
    assert_eq!(c.wall.total, 600);
    assert_eq!(c.wall.median_doubled, 400);
    assert_eq!(c.user.min, 10);
    assert_eq!(c.user.max, 30);
    assert_eq!(c.sys.total, 6);
    assert_eq!(c.sys.median_doubled, 4);
}
