//! Integer square root by binary search, used for the standard deviation.

use vstd::prelude::*;

use crate::model::is_floor_sqrt;

verus! {

/// Largest argument `floor_sqrt` accepts; every variance numerator the
/// library builds stays below it.
pub const FLOOR_SQRT_MAX: u128 = 1_000_000_000_000_000_000_000_000_000_000_000_000;

/// Returns the largest integer whose square does not exceed `v`.
pub fn floor_sqrt(v: u128) -> (r: u128)
    requires
        v <= FLOOR_SQRT_MAX,
    ensures
        is_floor_sqrt(v as int, r as int),
        r <= 1_000_000_000_000_000_000,
{
    let mut lo: u128 = 0;
    let mut hi: u128 = 1_000_000_000_000_000_001;
    proof {
        assert((hi * hi) > FLOOR_SQRT_MAX) by (nonlinear_arith)
            requires
                hi == 1_000_000_000_000_000_001u128,
        {}
    }
    while hi - lo > 1
        invariant
            lo < hi <= 1_000_000_000_000_000_001,
            lo * lo <= v,
            v < hi * hi,
        decreases hi - lo,
    {
        let mid = lo + (hi - lo) / 2;
        proof {
            assert(mid * mid <= 1_000_000_000_000_000_001 * 1_000_000_000_000_000_001)
                by (nonlinear_arith)
                requires
                    0 <= mid <= 1_000_000_000_000_000_001,
            {}
        }
        if mid * mid <= v {
            lo = mid;
        } else {
            hi = mid;
        }
    }
    lo
}

} // verus!
