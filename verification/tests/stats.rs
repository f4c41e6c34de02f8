use latency_stats::metrics::compute_jitter;
use latency_stats::model::Ratio;
use latency_stats::stats::{latency_summary_from_samples, OnlineStats};

#[test]
fn test_online_stats_matches_batch() {
    let samples: Vec<i64> = vec![10000, 20000, 30000, 40000, 50000];
    let mut acc = OnlineStats::new();
    for &x in &samples {
        acc.push(x);
    }
    assert_eq!(acc.stddev(), Some(15811));
    assert_eq!(acc.stddev(), compute_jitter(&samples));
}

#[test]
fn test_online_stats_insufficient_samples() {
    let mut acc = OnlineStats::new();
    assert!(acc.stddev().is_none());
    acc.push(42);
    assert!(acc.stddev().is_none());
    acc.push(44);
    assert!(acc.stddev().is_some());
}

#[test]
fn test_online_stats_default_is_empty() {
    let acc = OnlineStats::default();
    assert!(acc.stddev().is_none());
}

#[test]
fn test_summary_no_samples() {
    let summary = latency_summary_from_samples(10, 8, &vec![], None);
    assert_eq!(summary.sent, 10);
    assert_eq!(summary.received, 8);
    // loss 2/10 = 0.2
    assert_eq!(summary.loss, Ratio { num: 2, den: 10 });
    assert!(summary.min_ms.is_none());
    assert!(summary.mean_ms.is_none());
    assert!(summary.median_ms.is_none());
    assert!(summary.p25_ms.is_none());
    assert!(summary.p75_ms.is_none());
    assert!(summary.max_ms.is_none());
    assert!(summary.jitter_ms.is_none());
}

#[test]
fn test_summary_sent_zero() {
    let summary = latency_summary_from_samples(0, 0, &vec![5, 1, 3], None);
    assert_eq!(summary.loss, Ratio { num: 0, den: 1 });
    assert_eq!(summary.min_ms, Some(1));
    assert_eq!(summary.max_ms, Some(5));
    assert_eq!(summary.mean_ms, Some(Ratio { num: 9, den: 3 }));
    // sorted copy is [1, 3, 5]
    assert_eq!(summary.median_ms, Some(3));
    assert_eq!(summary.p25_ms, Some(1));
    assert_eq!(summary.p75_ms, Some(5));
    // no hint supplied: jitter computed, variance (4 + 4 + 0) / 2 = 4
    assert_eq!(summary.jitter_ms, Some(2));
}

#[test]
fn test_summary_jitter_hint_passed_through() {
    let summary = latency_summary_from_samples(5, 5, &vec![1, 2, 3], Some(7));
    assert_eq!(summary.jitter_ms, Some(7));
    let computed = latency_summary_from_samples(5, 5, &vec![1, 2, 3], None);
    assert_eq!(computed.jitter_ms, Some(1));
}

#[test]
fn test_summary_single_sample() {
    let summary = latency_summary_from_samples(3, 3, &vec![42], None);
    assert_eq!(summary.loss, Ratio { num: 0, den: 3 });
    assert!(summary.min_ms.is_none());
    assert!(summary.mean_ms.is_none());
    assert!(summary.median_ms.is_none());
    assert!(summary.p25_ms.is_none());
    assert!(summary.p75_ms.is_none());
    assert!(summary.max_ms.is_none());
    assert!(summary.jitter_ms.is_none());
}

#[test]
fn test_summary_single_sample_keeps_hint() {
    let summary = latency_summary_from_samples(3, 3, &vec![42], Some(9));
    assert!(summary.min_ms.is_none());
    assert_eq!(summary.jitter_ms, Some(9));
}

#[test]
fn test_summary_negative_loss_not_clamped() {
    let summary = latency_summary_from_samples(2, 3, &vec![], None);
    assert_eq!(summary.loss, Ratio { num: -1, den: 2 });
}

#[test]
fn test_summary_two_samples_boundary() {
    let summary = latency_summary_from_samples(4, 4, &vec![20, 10], None);
    assert_eq!(summary.min_ms, Some(10));
    assert_eq!(summary.max_ms, Some(20));
    assert_eq!(summary.mean_ms, Some(Ratio { num: 30, den: 2 }));
    assert_eq!(summary.median_ms, Some(20));
    assert_eq!(summary.p25_ms, Some(10));
    assert_eq!(summary.p75_ms, Some(20));
    // variance 50, stddev rounds down from 7.07... to 7
    assert_eq!(summary.jitter_ms, Some(7));
}

#[test]
fn test_summary_does_not_mutate_samples() {
    let samples: Vec<i64> = vec![9, 2, 6];
    let _ = latency_summary_from_samples(1, 1, &samples, None);
    assert_eq!(samples, vec![9, 2, 6]);
}
