//! Properties that relate the library's functions to one another:
//! permutation invariance of the batch statistics, agreement of the online
//! and the batch standard deviation, and determinism of every computation.

use vstd::prelude::*;

use crate::metrics::{jitter_spec, metrics_spec};
use crate::model::{
    is_jitter, le_sample, lemma_floor_sqrt_unique, lemma_le_sample_total_ordering,
    lemma_sorted_of_ensures, lemma_sum_permutation, sorted_of, sum_of, sum_sq_of, variance_floor,
    Ratio,
};
use crate::stats::{summary_spec, LatencySummary};

verus! {

/// Rearranging the samples changes neither their sum, their sum of squares,
/// nor their sorted copy: every batch statistic depends only on the multiset
/// of samples, not on the order they arrived in.
pub proof fn lemma_batch_permutation_invariant(s1: Seq<i64>, s2: Seq<i64>)
    requires
        s1.to_multiset() == s2.to_multiset(),
    ensures
        s1.len() == s2.len(),
        sum_of(s1) == sum_of(s2),
        sum_sq_of(s1) == sum_sq_of(s2),
        sorted_of(s1) == sorted_of(s2),
{
    lemma_sum_permutation(s1, s2);
    lemma_sorted_of_ensures(s1);
    lemma_sorted_of_ensures(s2);
    lemma_le_sample_total_ordering();
    vstd::seq_lib::lemma_sorted_unique(sorted_of(s1), sorted_of(s2), le_sample());
}

/// `compute_metrics` returns the same mean, median and percentiles for any
/// two orderings of the same samples.
pub proof fn lemma_metrics_permutation_invariant(
    s1: Seq<i64>,
    s2: Seq<i64>,
    r1: Option<(Ratio, i64, i64, i64)>,
    r2: Option<(Ratio, i64, i64, i64)>,
)
    requires
        s1.to_multiset() == s2.to_multiset(),
        metrics_spec(s1, r1),
        metrics_spec(s2, r2),
    ensures
        r1 == r2,
{
    lemma_batch_permutation_invariant(s1, s2);
}

/// `compute_jitter` returns the same value for any two orderings of the same
/// samples.
pub proof fn lemma_jitter_permutation_invariant(
    s1: Seq<i64>,
    s2: Seq<i64>,
    r1: Option<i64>,
    r2: Option<i64>,
)
    requires
        s1.to_multiset() == s2.to_multiset(),
        jitter_spec(s1, r1),
        jitter_spec(s2, r2),
    ensures
        r1 == r2,
{
    lemma_batch_permutation_invariant(s1, s2);
    if r1.is_some() {
        lemma_floor_sqrt_unique(variance_floor(s1), r1.unwrap() as int, r2.unwrap() as int);
    }
}

/// An accumulator fed exactly the samples of `s` one at a time and the batch
/// jitter computed on `s` report the same standard deviation: `is_jitter`
/// holds of at most one value.
pub proof fn lemma_online_matches_batch(s: Seq<i64>, online: i64, batch: i64)
    requires
        is_jitter(s, online as int),
        is_jitter(s, batch as int),
    ensures
        online == batch,
{
    lemma_floor_sqrt_unique(variance_floor(s), online as int, batch as int);
}

/// Two calls of `compute_metrics` on the same unmodified samples return the
/// same result: the contract leaves it no freedom.
pub proof fn lemma_metrics_deterministic(
    s: Seq<i64>,
    r1: Option<(Ratio, i64, i64, i64)>,
    r2: Option<(Ratio, i64, i64, i64)>,
)
    requires
        metrics_spec(s, r1),
        metrics_spec(s, r2),
    ensures
        r1 == r2,
{
}

/// Two calls of `compute_jitter` on the same unmodified samples return the
/// same result.
pub proof fn lemma_jitter_deterministic(s: Seq<i64>, r1: Option<i64>, r2: Option<i64>)
    requires
        jitter_spec(s, r1),
        jitter_spec(s, r2),
    ensures
        r1 == r2,
{
    if r1.is_some() {
        lemma_floor_sqrt_unique(variance_floor(s), r1.unwrap() as int, r2.unwrap() as int);
    }
}

/// Two calls of `latency_summary_from_samples` with the same counts, samples
/// and hint return the same record.
pub proof fn lemma_summary_deterministic(
    sent: u64,
    received: u64,
    s: Seq<i64>,
    hint: Option<i64>,
    r1: LatencySummary,
    r2: LatencySummary,
)
    requires
        summary_spec(sent, received, s, hint, r1),
        summary_spec(sent, received, s, hint, r2),
    ensures
        r1 == r2,
{
    if s.len() >= 2 && hint.is_none() {
        lemma_floor_sqrt_unique(
            variance_floor(s),
            r1.jitter_ms.unwrap() as int,
            r2.jitter_ms.unwrap() as int,
        );
    }
}

} // verus!
