//! The mathematical model of a sample collection: sums, sums of squares,
//! the sorted copy, and the exact characterization of the jitter value.

use vstd::prelude::*;
use vstd::relations::{sorted_by, total_ordering};

verus! {

/// Largest number of samples one computation accepts; keeps every
/// intermediate sum within `i128`.
pub const MAX_SAMPLES: usize = 1_000_000;

/// Largest magnitude a sample may have; keeps every intermediate sum of
/// squares within `i128`.
pub const SAMPLE_LIMIT: i64 = 1_000_000_000_000;

/// An exact rational value, `num / den`; the library never reduces it.
#[derive(Clone, Copy, Debug, PartialEq, Eq, Structural)]
pub struct Ratio {
    pub num: i128,
    pub den: u64,
}

/// `m` is the arithmetic mean of `s`: the exact rational
/// `sum of samples / number of samples`.
pub open spec fn mean_of(s: Seq<i64>, m: Ratio) -> bool {
    m.num == sum_of(s) && m.den == s.len()
}

/// All samples lie within `[-SAMPLE_LIMIT, SAMPLE_LIMIT]`.
pub open spec fn bounded(s: Seq<i64>) -> bool {
    forall|i: int| 0 <= i < s.len() ==> -SAMPLE_LIMIT <= #[trigger] s[i] <= SAMPLE_LIMIT
}

/// Sum of all samples.
pub open spec fn sum_of(s: Seq<i64>) -> int
    decreases s.len(),
{
    if s.len() == 0 {
        0
    } else {
        sum_of(s.drop_last()) + s.last()
    }
}

/// Sum of the squares of all samples.
pub open spec fn sum_sq_of(s: Seq<i64>) -> int
    decreases s.len(),
{
    if s.len() == 0 {
        0
    } else {
        sum_sq_of(s.drop_last()) + s.last() * s.last()
    }
}

/// The total order the sorted copy follows.
pub open spec fn le_sample() -> spec_fn(i64, i64) -> bool {
    |a: i64, b: i64| a <= b
}

/// The ascending sorted copy of a sample collection.
pub open spec fn sorted_of(s: Seq<i64>) -> Seq<i64> {
    s.sort_by(le_sample())
}

/// The sequence is ascending.
pub open spec fn ascending(s: Seq<i64>) -> bool {
    sorted_by(s, le_sample())
}

/// `r` is the integer square root of `v`: the largest integer whose square
/// does not exceed `v`.
pub open spec fn is_floor_sqrt(v: int, r: int) -> bool {
    &&& 0 <= r
    &&& r * r <= v
    &&& v < (r + 1) * (r + 1)
}

/// Numerator of the sample variance over the common denominator
/// `n * (n - 1)`: the identity `n * sum of squares - (sum)^2` equals
/// `n * sum((x_i - mean)^2)` exactly.
pub open spec fn variance_num(s: Seq<i64>) -> int {
    s.len() * sum_sq_of(s) - sum_of(s) * sum_of(s)
}

/// The sample variance (with Bessel's correction) rounded down to an integer.
pub open spec fn variance_floor(s: Seq<i64>) -> int {
    variance_num(s) / (s.len() * (s.len() - 1))
}

/// `r` is the jitter of `s`: the integer part of the sample standard
/// deviation, the square root of `variance_num(s) / (n * (n - 1))`.
pub open spec fn is_jitter(s: Seq<i64>, r: int) -> bool {
    is_floor_sqrt(variance_floor(s), r)
}

/// `le_sample` is a total order, so a sample collection has exactly one
/// sorted copy.
pub proof fn lemma_le_sample_total_ordering()
    ensures
        total_ordering(le_sample()),
{
    let leq = le_sample();
    assert forall|x: i64| #[trigger] leq(x, x) by {}
}

/// What `sorted_of` yields: an ascending rearrangement of the input.
pub proof fn lemma_sorted_of_ensures(s: Seq<i64>)
    ensures
        sorted_of(s).to_multiset() == s.to_multiset(),
        ascending(sorted_of(s)),
        sorted_of(s).len() == s.len(),
{
    lemma_le_sample_total_ordering();
    s.lemma_sort_by_ensures(le_sample());
    s.to_multiset_ensures();
    sorted_of(s).to_multiset_ensures();
}

/// Appending a sample adds its value to the sum and its square to the sum of
/// squares.
pub proof fn lemma_sum_push(s: Seq<i64>, x: i64)
    ensures
        sum_of(s.push(x)) == sum_of(s) + x,
        sum_sq_of(s.push(x)) == sum_sq_of(s) + x * x,
{
    assert(s.push(x).drop_last() =~= s);
    assert(s.push(x).last() == x);
}

/// Extending a prefix by one element adds that element to the prefix sums.
pub proof fn lemma_sum_take_next(s: Seq<i64>, i: int)
    requires
        0 <= i < s.len(),
    ensures
        sum_of(s.take(i + 1)) == sum_of(s.take(i)) + s[i],
        sum_sq_of(s.take(i + 1)) == sum_sq_of(s.take(i)) + s[i] * s[i],
{
    assert(s.take(i + 1).drop_last() =~= s.take(i));
    assert(s.take(i + 1).last() == s[i]);
}

/// Bounded samples give bounded sums.
pub proof fn lemma_sum_bounds(s: Seq<i64>)
    requires
        bounded(s),
    ensures
        -(s.len() * SAMPLE_LIMIT) <= sum_of(s) <= s.len() * SAMPLE_LIMIT,
        0 <= sum_sq_of(s) <= s.len() * SAMPLE_LIMIT * SAMPLE_LIMIT,
    decreases s.len(),
{
    if s.len() > 0 {
        assert(bounded(s.drop_last())) by {
            assert(forall|i: int|
                0 <= i < s.drop_last().len() ==> s.drop_last()[i] == #[trigger] s[i]);
        }
        lemma_sum_bounds(s.drop_last());
        let x = s.last();
        assert(x * x <= SAMPLE_LIMIT * SAMPLE_LIMIT) by (nonlinear_arith)
            requires
                -SAMPLE_LIMIT <= x <= SAMPLE_LIMIT,
        {}
        assert(0 <= x * x) by (nonlinear_arith) {}
    }
}

/// Removing one sample takes its value out of the sum and its square out of
/// the sum of squares.
pub proof fn lemma_sum_remove(s: Seq<i64>, i: int)
    requires
        0 <= i < s.len(),
    ensures
        sum_of(s.remove(i)) == sum_of(s) - s[i],
        sum_sq_of(s.remove(i)) == sum_sq_of(s) - s[i] * s[i],
    decreases s.len(),
{
    if i == s.len() - 1 {
        assert(s.remove(i) =~= s.drop_last());
    } else {
        assert(s.remove(i).drop_last() =~= s.drop_last().remove(i));
        assert(s.remove(i).last() == s.last());
        lemma_sum_remove(s.drop_last(), i);
    }
}

/// Two rearrangements of the same samples have the same length, the same sum
/// and the same sum of squares.
pub proof fn lemma_sum_permutation(s1: Seq<i64>, s2: Seq<i64>)
    requires
        s1.to_multiset() == s2.to_multiset(),
    ensures
        s1.len() == s2.len(),
        sum_of(s1) == sum_of(s2),
        sum_sq_of(s1) == sum_sq_of(s2),
    decreases s1.len(),
{
    s1.to_multiset_ensures();
    s2.to_multiset_ensures();
    if s1.len() > 0 {
        let x = s1.last();
        let last = s1.len() - 1;
        assert(s1.contains(x));
        assert(s2.to_multiset().count(x) > 0);
        assert(s2.contains(x));
        let j = choose|j: int| 0 <= j < s2.len() && s2[j] == x;
        assert(s1.remove(last).to_multiset() =~= s1.to_multiset().remove(x));
        assert(s2.remove(j).to_multiset() =~= s2.to_multiset().remove(x));
        lemma_sum_permutation(s1.remove(last), s2.remove(j));
        assert(s1.remove(last) =~= s1.drop_last());
        lemma_sum_remove(s2, j);
    }
}

/// Sum of squared deviations of the samples from `t / n`, with every term
/// scaled by `n` to stay in the integers: the term for sample `x` is
/// `(n * x - t)^2`, which is `n^2 * (x - t/n)^2`.
pub open spec fn scaled_dev_sq(s: Seq<i64>, n: int, t: int) -> int
    decreases s.len(),
{
    if s.len() == 0 {
        0
    } else {
        scaled_dev_sq(s.drop_last(), n, t) + (n * s.last() - t) * (n * s.last() - t)
    }
}

/// Expanding every squared deviation gives a closed form in the sums.
proof fn lemma_scaled_dev_sq_expand(s: Seq<i64>, n: int, t: int)
    ensures
        scaled_dev_sq(s, n, t) == n * n * sum_sq_of(s) - 2 * n * t * sum_of(s) + s.len() * (t * t),
    decreases s.len(),
{
    if s.len() > 0 {
        lemma_scaled_dev_sq_expand(s.drop_last(), n, t);
        let x = s.last() as int;
        assert((n * x - t) * (n * x - t) == n * n * (x * x) - 2 * n * t * x + t * t)
            by (nonlinear_arith)
        {}
        assert(n * n * sum_sq_of(s) == n * n * sum_sq_of(s.drop_last()) + n * n * (x * x))
            by (nonlinear_arith)
            requires
                sum_sq_of(s) == sum_sq_of(s.drop_last()) + x * x,
        {}
        assert(2 * n * t * sum_of(s) == 2 * n * t * sum_of(s.drop_last()) + 2 * n * t * x)
            by (nonlinear_arith)
            requires
                sum_of(s) == sum_of(s.drop_last()) + x,
        {}
        let l = s.len() as int;
        assert((l - 1) * (t * t) + t * t == l * (t * t)) by (nonlinear_arith) {}
        assert(s.drop_last().len() as int == l - 1);
    }
}

/// The variance numerator is `n` times the sum of squared deviations from
/// the mean, scaled by `n^2`: with `n` the sample count and `t` the sum,
/// `sum((n * x_i - t)^2) == n * (n * sum_sq - t^2)`. Dividing both sides by
/// `n^2 * (n - 1)` shows that `variance_num(s) / (n * (n - 1))` is exactly
/// the sample variance with Bessel's correction.
pub proof fn lemma_variance_num_is_deviation_sum(s: Seq<i64>)
    ensures
        scaled_dev_sq(s, s.len() as int, sum_of(s)) == s.len() * variance_num(s),
{
    let n = s.len() as int;
    let t = sum_of(s);
    lemma_scaled_dev_sq_expand(s, n, t);
    assert(n * n * sum_sq_of(s) - 2 * n * t * t + n * (t * t) == n * (n * sum_sq_of(s) - t * t))
        by (nonlinear_arith)
    {}
}

/// The first and last element of the sorted copy are the minimum and the
/// maximum of the samples.
pub proof fn lemma_sorted_extremes(s: Seq<i64>)
    requires
        s.len() >= 1,
    ensures
        s.contains(sorted_of(s)[0]),
        s.contains(sorted_of(s)[s.len() - 1]),
        forall|i: int|
            0 <= i < s.len() ==> sorted_of(s)[0] <= #[trigger] s[i] <= sorted_of(s)[s.len() - 1],
{
    broadcast use vstd::multiset::group_multiset_axioms;

    let t = sorted_of(s);
    lemma_sorted_of_ensures(s);
    s.to_multiset_ensures();
    t.to_multiset_ensures();
    assert(t.contains(t[0]));
    assert(s.to_multiset().count(t[0]) > 0);
    assert(t.contains(t[s.len() - 1]));
    assert(s.to_multiset().count(t[s.len() - 1]) > 0);
    let leq = le_sample();
    assert forall|i: int| 0 <= i < s.len() implies t[0] <= #[trigger] s[i] <= t[s.len() - 1] by {
        assert(s.contains(s[i]));
        assert(t.to_multiset().count(s[i]) > 0);
        assert(t.contains(s[i]));
        let j = choose|j: int| 0 <= j < t.len() && t[j] == s[i];
        if j > 0 {
            assert(leq(t[0], t[j]));
        }
        if j < s.len() - 1 {
            assert(leq(t[j], t[s.len() - 1]));
        }
    }
}

/// The variance numerator is never negative: an instance of the
/// Cauchy-Schwarz inequality, `(sum)^2 <= n * sum of squares`.
pub proof fn lemma_variance_num_nonneg(s: Seq<i64>)
    ensures
        variance_num(s) >= 0,
    decreases s.len(),
{
    if s.len() == 0 {
    } else {
        let t = s.drop_last();
        lemma_variance_num_nonneg(t);
        let n = t.len() as int;
        let q = sum_sq_of(t);
        let a = sum_of(t);
        let x = s.last() as int;
        assert(0 <= q) by {
            lemma_sum_sq_nonneg(t);
        }
        assert((n + 1) * (q + x * x) >= (a + x) * (a + x)) by (nonlinear_arith)
            requires
                n >= 0,
                q >= 0,
                n * q >= a * a,
        {
            assert((n * (x * x) - q) * (n * (x * x) - q) >= 0);
            assert((2 * a * x) * (2 * a * x) <= 4 * (n * q) * (x * x));
            assert(4 * (n * q) * (x * x) <= (n * (x * x) + q) * (n * (x * x) + q));
            assert(2 * a * x <= n * (x * x) + q);
        }
        assert(sum_of(s) == a + x);
        assert(sum_sq_of(s) == q + x * x);
        assert(s.len() as int == n + 1);
    }
}

/// A sum of squares is never negative.
pub proof fn lemma_sum_sq_nonneg(s: Seq<i64>)
    ensures
        sum_sq_of(s) >= 0,
    decreases s.len(),
{
    if s.len() > 0 {
        lemma_sum_sq_nonneg(s.drop_last());
        let x = s.last();
        assert(0 <= x * x) by (nonlinear_arith) {}
    }
}

/// A value has exactly one integer square root.
pub proof fn lemma_floor_sqrt_unique(v: int, r1: int, r2: int)
    requires
        is_floor_sqrt(v, r1),
        is_floor_sqrt(v, r2),
    ensures
        r1 == r2,
{
    assert(r1 == r2) by (nonlinear_arith)
        requires
            0 <= r1,
            0 <= r2,
            r1 * r1 <= v,
            v < (r1 + 1) * (r1 + 1),
            r2 * r2 <= v,
            v < (r2 + 1) * (r2 + 1),
    {
        if r1 < r2 {
            assert((r1 + 1) * (r1 + 1) <= r2 * r2);
        }
        if r2 < r1 {
            assert((r2 + 1) * (r2 + 1) <= r1 * r1);
        }
    }
}

} // verus!
