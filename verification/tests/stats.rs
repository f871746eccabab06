use std::time::Duration;

use apitester::span::Span;
use apitester::stats::Stats;

fn quantile(stats: &Stats, q: f64) -> Duration {
    Duration::from_micros(stats.histogram().histogram.value_at_quantile(q))
}

fn p50(stats: &Stats) -> Duration {
    quantile(stats, 0.50)
}

fn p90(stats: &Stats) -> Duration {
    quantile(stats, 0.90)
}

fn p99(stats: &Stats) -> Duration {
    quantile(stats, 0.99)
}

#[test]
fn empty_histogram_returns_zero() {
    let stats = Stats::new();
    assert_eq!(p50(&stats), Duration::ZERO);
    assert_eq!(p90(&stats), Duration::ZERO);
    assert_eq!(p99(&stats), Duration::ZERO);
}

#[test]
fn records_single_value() {
    let mut stats = Stats::new();
    stats.record(Span::from_millis(100));
    assert!(p50(&stats) >= Duration::from_millis(99));
    assert!(p50(&stats) <= Duration::from_millis(101));
}

#[test]
fn percentiles_reflect_distribution() {
    let mut stats = Stats::new();
    for _ in 0..90 {
        stats.record(Span::from_millis(10));
    }
    for _ in 0..9 {
        stats.record(Span::from_millis(100));
    }
    stats.record(Span::from_millis(1000));

    assert!(p50(&stats) <= Duration::from_millis(15));
    assert!(p90(&stats) <= Duration::from_millis(110));
    assert!(p99(&stats) >= Duration::from_millis(100));
}

#[test]
fn p99_higher_than_p50() {
    let mut stats = Stats::new();
    for ms in [10, 20, 30, 40, 50, 60, 70, 80, 90, 1000] {
        stats.record(Span::from_millis(ms));
    }
    assert!(p99(&stats) > p50(&stats));
}

#[test]
fn every_recorded_latency_counts() {
    let mut stats = Stats::default();
    for ms in 1..=25 {
        stats.record(Span::from_millis(ms));
    }
    assert_eq!(stats.histogram().histogram.len(), 25);
}

#[test]
fn huge_latency_is_recorded() {
    let mut stats = Stats::new();
    stats.record(Span::from_secs(10_000_000));
    assert_eq!(stats.histogram().histogram.len(), 1);
}
