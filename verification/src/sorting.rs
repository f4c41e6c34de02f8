//! A verified insertion sort: the executable counterpart of `sorted_of`.

use vstd::prelude::*;

use crate::model::{ascending, le_sample, lemma_le_sample_total_ordering, sorted_of};

verus! {

/// Inserting a sample into its multiset adds one occurrence of it.
proof fn lemma_insert_multiset(s: Seq<i64>, j: int, x: i64)
    requires
        0 <= j <= s.len(),
    ensures
        s.insert(j, x).to_multiset() == s.to_multiset().insert(x),
{
    broadcast use vstd::multiset::group_multiset_axioms;

    let t = s.insert(j, x);
    s.insert_ensures(j, x);
    t.to_multiset_ensures();
    assert(t.remove(j) =~= s);
    assert(t.remove(j).to_multiset() =~= t.to_multiset().remove(t[j]));
    assert(t.contains(x));
    assert(t.to_multiset().count(x) > 0);
    assert(t.to_multiset() =~= t.to_multiset().remove(x).insert(x));
}

/// Inserting a sample right before the first larger element keeps the
/// sequence ascending.
proof fn lemma_insert_ascending(s: Seq<i64>, j: int, x: i64)
    requires
        0 <= j <= s.len(),
        ascending(s),
        forall|k: int| 0 <= k < j ==> #[trigger] s[k] <= x,
        j < s.len() ==> x < s[j],
    ensures
        ascending(s.insert(j, x)),
{
    let t = s.insert(j, x);
    s.insert_ensures(j, x);
    let leq = le_sample();
    assert forall|a: int, b: int| 0 <= a < b < t.len() implies #[trigger] leq(t[a], t[b]) by {
        if a < j && b < j {
            assert(leq(s[a], s[b]));
        } else if a < j && b == j {
            assert(t[a] == s[a] && t[b] == x);
        } else if a < j && b > j {
            assert(t[a] == s[a] && t[b] == s[b - 1]);
            if b - 1 > a {
                assert(leq(s[a], s[b - 1]));
            }
        } else if a == j && b > j {
            assert(t[a] == x && t[b] == s[b - 1]);
            assert(x <= s[j]);
            if b - 1 > j {
                assert(leq(s[j], s[b - 1]));
            }
        } else {
            assert(t[a] == s[a - 1] && t[b] == s[b - 1]);
            assert(leq(s[a - 1], s[b - 1]));
        }
    }
}

/// Returns the ascending sorted copy of the samples; the input is left as it
/// stands.
pub fn sort_samples(samples: &Vec<i64>) -> (r: Vec<i64>)
    ensures
        r@ == sorted_of(samples@),
        r@.len() == samples@.len(),
{
    let ghost all = samples@;
    let mut r: Vec<i64> = Vec::new();
    let mut i: usize = 0;
    proof {
        assert(all.take(0) =~= Seq::<i64>::empty());
        Seq::<i64>::empty().to_multiset_ensures();
        assert(r@.to_multiset() =~= all.take(0).to_multiset());
    }
    while i < samples.len()
        invariant
            i <= all.len(),
            samples@ == all,
            r@.len() == i,
            ascending(r@),
            r@.to_multiset() == all.take(i as int).to_multiset(),
        decreases all.len() - i,
    {
        let x = samples[i];
        let mut j: usize = 0;
        while j < r.len() && r[j] <= x
            invariant
                j <= r@.len(),
                forall|k: int| 0 <= k < j ==> #[trigger] r@[k] <= x,
            decreases r@.len() - j,
        {
            j += 1;
        }
        proof {
            let ghost prev = r@;
            lemma_insert_multiset(prev, j as int, x);
            lemma_insert_ascending(prev, j as int, x);
            prev.to_multiset_ensures();
            assert(all.take(i + 1).drop_last() =~= all.take(i as int));
            assert(all.take(i + 1) =~= all.take(i as int).push(all[i as int]));
            all.take(i as int).to_multiset_ensures();
        }
        r.insert(j, x);
        i += 1;
    }
    proof {
        assert(all.take(all.len() as int) =~= all);
        lemma_le_sample_total_ordering();
        all.lemma_sort_by_ensures(le_sample());
        vstd::seq_lib::lemma_sorted_unique(r@, sorted_of(all), le_sample());
        assert(r@ =~= sorted_of(all));
        all.to_multiset_ensures();
        r@.to_multiset_ensures();
    }
    r
}

} // verus!
