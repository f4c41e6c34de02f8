use latency_stats::metrics::{compute_jitter, compute_metrics};
use latency_stats::model::Ratio;

#[test]
fn test_compute_metrics_basic() {
    let samples: Vec<i64> = vec![1, 2, 3, 4, 5];
    let (mean, median, p25, p75) = compute_metrics(&samples).unwrap();
    assert_eq!(mean, Ratio { num: 15, den: 5 });
    assert_eq!(median, 3);
    assert_eq!(p25, 2);
    assert_eq!(p75, 4);
}

#[test]
fn test_compute_metrics_insufficient_samples() {
    assert!(compute_metrics(&vec![1]).is_none());
    assert!(compute_metrics(&vec![]).is_none());
}

#[test]
fn test_compute_metrics_two_samples() {
    let samples: Vec<i64> = vec![10, 20];
    let result = compute_metrics(&samples);
    assert!(result.is_some());
    let (mean, _, _, _) = result.unwrap();
    assert_eq!(mean, Ratio { num: 30, den: 2 });
}

#[test]
fn test_compute_metrics_unsorted_input() {
    let samples: Vec<i64> = vec![5, 1, 3, 2, 4];
    let (mean, median, p25, p75) = compute_metrics(&samples).unwrap();
    assert_eq!(mean, Ratio { num: 15, den: 5 });
    assert_eq!(median, 3);
    assert_eq!(p25, 2);
    assert_eq!(p75, 4);
}

#[test]
fn test_compute_jitter_basic() {
    // samples 1..=5 in units of 1/10000: mean 3, variance 10/4 = 2.5,
    // stddev sqrt(2.5) = 1.5811..., so 15811 in the same units
    let samples: Vec<i64> = vec![10000, 20000, 30000, 40000, 50000];
    let jitter = compute_jitter(&samples).unwrap();
    assert_eq!(jitter, 15811);
}

#[test]
fn test_compute_jitter_insufficient_samples() {
    assert!(compute_jitter(&vec![1]).is_none());
    assert!(compute_jitter(&vec![]).is_none());
}

#[test]
fn test_compute_jitter_exact_values() {
    // samples 1, 2, 3: variance (1 + 0 + 1) / 2 = 1, stddev exactly 1
    assert_eq!(compute_jitter(&vec![1, 2, 3]), Some(1));
    // samples 0, 3: variance (9/4 + 9/4) / 1 rounds down to 4, stddev 2
    assert_eq!(compute_jitter(&vec![0, 3]), Some(2));
    // samples 10, 20: variance 50, stddev rounds down from 7.07... to 7
    assert_eq!(compute_jitter(&vec![10, 20]), Some(7));
}

#[test]
fn test_compute_jitter_unsorted_input() {
    let shuffled: Vec<i64> = vec![30000, 50000, 10000, 40000, 20000];
    let ascending: Vec<i64> = vec![10000, 20000, 30000, 40000, 50000];
    assert_eq!(compute_jitter(&shuffled), compute_jitter(&ascending));
    assert_eq!(compute_jitter(&shuffled), Some(15811));
}

#[test]
fn test_batch_functions_idempotent() {
    let samples: Vec<i64> = vec![7, 3, 9, 1, 1, 4];
    assert_eq!(compute_metrics(&samples), compute_metrics(&samples));
    assert_eq!(compute_jitter(&samples), compute_jitter(&samples));
    assert_eq!(samples, vec![7, 3, 9, 1, 1, 4]);
}

#[test]
fn test_compute_metrics_duplicates() {
    // sorted copy is [2, 2, 5, 5]: median index 2, p25 index 1, p75 index 3
    let samples: Vec<i64> = vec![5, 2, 5, 2];
    let (mean, median, p25, p75) = compute_metrics(&samples).unwrap();
    assert_eq!(mean, Ratio { num: 14, den: 4 });
    assert_eq!(median, 5);
    assert_eq!(p25, 2);
    assert_eq!(p75, 5);
}

#[test]
fn test_compute_metrics_negative_samples() {
    // sorted copy is [-4, -1, 2]: median index 1, p25 index 0, p75 index 2
    let samples: Vec<i64> = vec![2, -4, -1];
    let (mean, median, p25, p75) = compute_metrics(&samples).unwrap();
    assert_eq!(mean, Ratio { num: -3, den: 3 });
    assert_eq!(median, -1);
    assert_eq!(p25, -4);
    assert_eq!(p75, 2);
}
