//! Batch statistics over a finite sample collection: mean, median,
//! percentiles, and jitter (sample standard deviation).

use vstd::prelude::*;

use crate::isqrt::{floor_sqrt, FLOOR_SQRT_MAX};
use crate::model::{
    bounded, is_jitter, lemma_sum_bounds, lemma_sum_take_next, lemma_variance_num_nonneg, mean_of,
    sorted_of, sum_of, sum_sq_of, variance_floor, variance_num, Ratio, MAX_SAMPLES, SAMPLE_LIMIT,
};
use crate::sorting::sort_samples;

verus! {

/// What `compute_metrics` returns: a result exactly when there are at least
/// two samples, and then the exact mean together with the elements of the
/// sorted copy at ranks `n/2`, `n/4` and `3n/4`.
pub open spec fn metrics_spec(s: Seq<i64>, r: Option<(Ratio, i64, i64, i64)>) -> bool {
    &&& (r.is_some() <==> s.len() >= 2)
    &&& (r.is_some() ==> {
        &&& mean_of(s, r.unwrap().0)
        &&& r.unwrap().1 == sorted_of(s)[s.len() as int / 2]
        &&& r.unwrap().2 == sorted_of(s)[s.len() as int / 4]
        &&& r.unwrap().3 == sorted_of(s)[3 * (s.len() as int) / 4]
    })
}

/// What `compute_jitter` returns: a value exactly when there are at least two
/// samples, and then the integer part of the sample standard deviation.
pub open spec fn jitter_spec(s: Seq<i64>, r: Option<i64>) -> bool {
    &&& (r.is_some() <==> s.len() >= 2)
    &&& (r.is_some() ==> is_jitter(s, r.unwrap() as int))
}

/// Mean, median, 25th and 75th percentile of the samples, or nothing when
/// fewer than two samples are given. The mean is the exact rational
/// `sum / n`; median and percentiles are the elements at the fixed ranks
/// `n/2`, `n/4` and `3n/4` of the ascending sorted copy (truncating
/// division), not interpolated.
pub fn compute_metrics(samples: &Vec<i64>) -> (r: Option<(Ratio, i64, i64, i64)>)
    requires
        samples@.len() <= MAX_SAMPLES,
    ensures
        metrics_spec(samples@, r),
{
    if samples.len() < 2 {
        return None;
    }
    let n = samples.len();
    let mut sum: i128 = 0;
    let mut i: usize = 0;
    proof {
        assert(samples@.take(0) =~= Seq::<i64>::empty());
    }
    while i < n
        invariant
            i <= n,
            n == samples@.len() <= MAX_SAMPLES,
            sum == sum_of(samples@.take(i as int)),
            (i as int) * (i64::MIN as int) <= sum <= (i as int) * (i64::MAX as int),
        decreases n - i,
    {
        proof {
            lemma_sum_take_next(samples@, i as int);
        }
        sum = sum + (samples[i] as i128);
        i += 1;
    }
    proof {
        assert(samples@.take(n as int) =~= samples@);
    }
    let sorted = sort_samples(samples);
    let mean = Ratio { num: sum, den: n as u64 };
    let median = sorted[n / 2];
    let p25 = sorted[n / 4];
    let p75 = sorted[3 * n / 4];
    Some((mean, median, p25, p75))
}

/// Jitter of the samples: the integer part of the sample standard deviation
/// with Bessel's correction, `sqrt((n * sum of squares - sum^2) / (n * (n - 1)))`
/// rounded down; nothing when fewer than two samples are given.
pub fn compute_jitter(samples: &Vec<i64>) -> (r: Option<i64>)
    requires
        samples@.len() <= MAX_SAMPLES,
        bounded(samples@),
    ensures
        jitter_spec(samples@, r),
{
    if samples.len() < 2 {
        return None;
    }
    let n = samples.len();
    let mut sum: i128 = 0;
    let mut sum_sq: i128 = 0;
    let mut i: usize = 0;
    proof {
        assert(samples@.take(0) =~= Seq::<i64>::empty());
    }
    while i < n
        invariant
            i <= n,
            n == samples@.len() <= MAX_SAMPLES,
            bounded(samples@),
            sum == sum_of(samples@.take(i as int)),
            sum_sq == sum_sq_of(samples@.take(i as int)),
            -((i as int) * (SAMPLE_LIMIT as int)) <= sum <= (i as int) * (SAMPLE_LIMIT as int),
            0 <= sum_sq <= (i as int) * (SAMPLE_LIMIT as int) * (SAMPLE_LIMIT as int),
        decreases n - i,
    {
        let x = samples[i];
        proof {
            lemma_sum_take_next(samples@, i as int);
            assert(-SAMPLE_LIMIT <= samples@[i as int] <= SAMPLE_LIMIT);
            assert(0 <= (x as int) * (x as int) <= (SAMPLE_LIMIT as int) * (SAMPLE_LIMIT as int))
                by (nonlinear_arith)
                requires
                    -(SAMPLE_LIMIT as int) <= x as int <= SAMPLE_LIMIT as int,
            {}
        }
        sum = sum + (x as i128);
        sum_sq = sum_sq + (x as i128) * (x as i128);
        i += 1;
    }
    proof {
        assert(samples@.take(n as int) =~= samples@);
    }
    Some(stddev_of_moments(n as u64, sum, sum_sq, Ghost(samples@)))
}

/// Standard deviation from the running moments of a sample collection: the
/// integer square root of the variance `(n * sum_sq - sum^2) / (n * (n - 1))`
/// rounded down. Shared by the batch function and the online accumulator.
pub(crate) fn stddev_of_moments(n: u64, sum: i128, sum_sq: i128, samples: Ghost<Seq<i64>>) -> (r:
    i64)
    requires
        2 <= samples@.len() <= MAX_SAMPLES,
        n == samples@.len(),
        sum == sum_of(samples@),
        sum_sq == sum_sq_of(samples@),
        bounded(samples@),
    ensures
        is_jitter(samples@, r as int),
{
    proof {
        lemma_sum_bounds(samples@);
        lemma_variance_num_nonneg(samples@);
    }
    let nn = n as i128;
    proof {
        assert(nn * sum_sq <= 1_000_000_000_000_000_000_000_000_000_000_000_000) by (nonlinear_arith)
            requires
                0 <= nn <= 1_000_000,
                0 <= sum_sq <= nn * 1_000_000_000_000_000_000_000_000,
        {}
        assert(0 <= sum * sum <= 1_000_000_000_000_000_000_000_000_000_000_000_000)
            by (nonlinear_arith)
            requires
                -1_000_000_000_000_000_000 <= sum <= 1_000_000_000_000_000_000,
        {}
        assert(0 <= nn * sum_sq) by (nonlinear_arith)
            requires
                0 <= nn,
                0 <= sum_sq,
        {}
        assert(2 <= nn * (nn - 1) <= 1_000_000_000_000) by (nonlinear_arith)
            requires
                2 <= nn <= 1_000_000,
        {}
    }
    let var_num = nn * sum_sq - sum * sum;
    let den = nn * (nn - 1);
    assert(var_num == variance_num(samples@));
    assert(var_num >= 0);
    let v = (var_num as u128) / (den as u128);
    proof {
        assert(v <= var_num as u128) by (nonlinear_arith)
            requires
                v == (var_num as u128) / (den as u128),
                2 <= den as u128,
        {}
        assert(v as int == variance_floor(samples@));
    }
    let root = floor_sqrt(v);
    root as i64
}

} // verus!
