//! The streaming accumulator and the summary record one reporting interval
//! produces.

use vstd::prelude::*;

use crate::metrics::{compute_jitter, compute_metrics, stddev_of_moments};
use crate::model::{
    bounded, is_jitter, lemma_sum_bounds, lemma_sum_push, mean_of, sorted_of, sum_of, sum_sq_of,
    Ratio, MAX_SAMPLES, SAMPLE_LIMIT,
};
use crate::sorting::sort_samples;

verus! {

/// Running mean and variance of a stream of samples, kept as the count, the
/// sum and the sum of squares: constant memory, one update per observation,
/// and a standard deviation that agrees exactly with the batch computation
/// on the same values.
#[derive(Clone, Copy)]
pub struct OnlineStats {
    count: u64,
    sum: i128,
    sum_sq: i128,
    history: Ghost<Seq<i64>>,
}

impl OnlineStats {
    /// The samples observed so far, in order.
    pub closed spec fn samples(self) -> Seq<i64> {
        self.history@
    }

    /// The stored moments are those of the observed samples.
    pub closed spec fn wf(self) -> bool {
        &&& self.count == self.samples().len()
        &&& self.sum == sum_of(self.samples())
        &&& self.sum_sq == sum_sq_of(self.samples())
        &&& bounded(self.samples())
        &&& self.samples().len() <= MAX_SAMPLES
    }

    /// An accumulator that has observed nothing.
    pub fn new() -> (r: Self)
        ensures
            r.wf(),
            r.samples() == Seq::<i64>::empty(),
    {
        OnlineStats { count: 0, sum: 0, sum_sq: 0, history: Ghost(Seq::empty()) }
    }

    /// Observe one sample: adds it to the running moments in constant time
    /// and memory.
    pub fn push(&mut self, x: i64)
        requires
            old(self).wf(),
            old(self).samples().len() < MAX_SAMPLES,
            -SAMPLE_LIMIT <= x <= SAMPLE_LIMIT,
        ensures
            final(self).wf(),
            final(self).samples() == old(self).samples().push(x),
    {
        proof {
            lemma_sum_bounds(old(self).samples());
            lemma_sum_push(old(self).samples(), x);
            assert(0 <= (x as int) * (x as int) <= (SAMPLE_LIMIT as int) * (SAMPLE_LIMIT as int))
                by (nonlinear_arith)
                requires
                    -(SAMPLE_LIMIT as int) <= x as int <= SAMPLE_LIMIT as int,
            {}
        }
        self.count = self.count + 1;
        self.sum = self.sum + (x as i128);
        self.sum_sq = self.sum_sq + (x as i128) * (x as i128);
        proof {
            self.history@ = self.history@.push(x);
        }
        proof {
            let s = old(self).samples();
            assert(bounded(s.push(x))) by {
                assert(forall|i: int| 0 <= i < s.len() ==> s.push(x)[i] == #[trigger] s[i]);
                assert(s.push(x)[s.len() as int] == x);
            }
        }
    }

    /// Standard deviation of everything observed so far, rounded down to an
    /// integer; nothing before the second observation. Equals what
    /// `compute_jitter` returns for the same samples gathered in a batch.
    pub fn stddev(&self) -> (r: Option<i64>)
        requires
            self.wf(),
        ensures
            r.is_some() <==> self.samples().len() >= 2,
            r.is_some() ==> is_jitter(self.samples(), r.unwrap() as int),
    {
        if self.count < 2 {
            None
        } else {
            Some(stddev_of_moments(self.count, self.sum, self.sum_sq, Ghost(self.samples())))
        }
    }
}

impl Default for OnlineStats {
    /// Same as `new`: an accumulator that has observed nothing.
    fn default() -> (r: Self)
        ensures
            r.wf(),
            r.samples() == Seq::<i64>::empty(),
    {
        OnlineStats::new()
    }
}

/// One reporting interval's aggregate quality-of-service record. The
/// distributional fields are all present or all absent; they are absent
/// exactly when fewer than two samples were available.
#[derive(Clone, Copy, Debug)]
pub struct LatencySummary {
    pub sent: u64,
    pub received: u64,
    pub loss: Ratio,
    pub min_ms: Option<i64>,
    pub mean_ms: Option<Ratio>,
    pub median_ms: Option<i64>,
    pub p25_ms: Option<i64>,
    pub p75_ms: Option<i64>,
    pub max_ms: Option<i64>,
    pub jitter_ms: Option<i64>,
}

/// `loss` is the loss ratio: `(sent - received) / sent`, zero when nothing
/// was sent. More received than sent yields a negative ratio; it is not
/// clamped.
pub open spec fn loss_of(sent: u64, received: u64, loss: Ratio) -> bool {
    if sent == 0 {
        loss.num == 0 && loss.den == 1
    } else {
        loss.num == sent - received && loss.den == sent
    }
}

/// What `latency_summary_from_samples` returns: counts and loss always; with
/// at least two samples also min, max, the exact mean, the rank statistics of
/// the sorted copy, and a jitter (the caller's, or else the computed one);
/// with fewer, every distributional field absent and the jitter passed
/// through.
pub open spec fn summary_spec(
    sent: u64,
    received: u64,
    s: Seq<i64>,
    hint: Option<i64>,
    r: LatencySummary,
) -> bool {
    &&& r.sent == sent
    &&& r.received == received
    &&& loss_of(sent, received, r.loss)
    &&& (s.len() < 2 ==> {
        &&& r.min_ms.is_none()
        &&& r.mean_ms.is_none()
        &&& r.median_ms.is_none()
        &&& r.p25_ms.is_none()
        &&& r.p75_ms.is_none()
        &&& r.max_ms.is_none()
        &&& r.jitter_ms == hint
    })
    &&& (s.len() >= 2 ==> {
        &&& r.min_ms == Some(sorted_of(s)[0])
        &&& r.max_ms == Some(sorted_of(s)[s.len() - 1])
        &&& r.mean_ms.is_some() && mean_of(s, r.mean_ms.unwrap())
        &&& r.median_ms == Some(sorted_of(s)[s.len() as int / 2])
        &&& r.p25_ms == Some(sorted_of(s)[s.len() as int / 4])
        &&& r.p75_ms == Some(sorted_of(s)[3 * (s.len() as int) / 4])
        &&& (hint.is_some() ==> r.jitter_ms == hint)
        &&& (hint.is_none() ==> r.jitter_ms.is_some() && is_jitter(s, r.jitter_ms.unwrap() as int))
    })
}

/// Build the summary record for one interval from the sent and received
/// counts, the collected samples, and an optional jitter a running
/// accumulator already produced. The sample collection is only read.
pub fn latency_summary_from_samples(
    sent: u64,
    received: u64,
    samples_ms: &Vec<i64>,
    jitter_ms: Option<i64>,
) -> (r: LatencySummary)
    requires
        samples_ms@.len() <= MAX_SAMPLES,
        bounded(samples_ms@),
    ensures
        summary_spec(sent, received, samples_ms@, jitter_ms, r),
{
    let loss = if sent == 0 {
        Ratio { num: 0, den: 1 }
    } else {
        Ratio { num: (sent as i128) - (received as i128), den: sent }
    };

    if samples_ms.len() == 0 {
        return LatencySummary {
            sent,
            received,
            loss,
            min_ms: None,
            mean_ms: None,
            median_ms: None,
            p25_ms: None,
            p75_ms: None,
            max_ms: None,
            jitter_ms,
        };
    }

    let sorted = sort_samples(samples_ms);
    let n = sorted.len();
    let min_v = sorted[0];
    let max_v = sorted[n - 1];

    match compute_metrics(samples_ms) {
        Some((mean, median, p25, p75)) => {
            let jitter = match jitter_ms {
                Some(j) => Some(j),
                None => compute_jitter(samples_ms),
            };
            LatencySummary {
                sent,
                received,
                loss,
                min_ms: Some(min_v),
                mean_ms: Some(mean),
                median_ms: Some(median),
                p25_ms: Some(p25),
                p75_ms: Some(p75),
                max_ms: Some(max_v),
                jitter_ms: jitter,
            }
        },
        None => LatencySummary {
            sent,
            received,
            loss,
            min_ms: None,
            mean_ms: None,
            median_ms: None,
            p25_ms: None,
            p75_ms: None,
            max_ms: None,
            jitter_ms,
        },
    }
}

} // verus!
