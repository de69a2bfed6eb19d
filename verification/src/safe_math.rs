//! The guard in front of the inverse sine and cosine.
//!
//! Rounding can push a sine or cosine that was computed from other values a
//! hair beyond 1 or -1, where its inverse is undefined. The argument is
//! therefore brought back into [-1, 1] first.

use crate::binary64::{
    lemma_normal_value, lemma_rank_orders_values, lemma_within_by_value, Double, ONE, SIGN_BIT,
};
use vstd::arithmetic::power2::{lemma2_to64_rest, pow2};
use vstd::prelude::*;

verus! {

/// Whether -1 <= x <= 1.
pub open spec fn in_unit_interval(x: Double) -> bool {
    x.within(Double { bits: (ONE + SIGN_BIT) as u64 }, Double { bits: ONE })
}

/// `x` restricted to [-1, 1]: -1 for what is below, 1 for what is above, and
/// `x` itself, bit for bit, for what is inside or is a NaN.
pub open spec fn clamped_to_unit(x: Double) -> Double {
    if x.below(Double { bits: (ONE + SIGN_BIT) as u64 }) {
        Double { bits: (ONE + SIGN_BIT) as u64 }
    } else if (Double { bits: ONE }).below(x) {
        Double { bits: ONE }
    } else {
        x
    }
}

/// Restricts `x` to [-1, 1]. The result is a valid argument of the inverse
/// sine and cosine unless `x` is a NaN.
pub fn clamp_to_unit(x: Double) -> (r: Double)
    ensures
        r == clamped_to_unit(x),
        x.nan() ==> r == x,
        !x.nan() ==> in_unit_interval(r),
        in_unit_interval(x) ==> r == x,
{
    let low = Double { bits: ONE + SIGN_BIT };
    let high = Double { bits: ONE };
    proof {
        lemma_rank_orders_values(low, high);
    }
    if x.lt(low) {
        low
    } else if high.lt(x) {
        high
    } else {
        x
    }
}

/// The unit interval holds the finite numbers whose value lies between -1
/// and 1, both ends included.
pub proof fn lemma_unit_interval_by_value(x: Double)
    ensures
        in_unit_interval(x) <==> x.finite() && -pow2(1074) <= x.scaled() <= pow2(1074),
{
    let high = Double { bits: ONE };
    lemma2_to64_rest();
    lemma_normal_value(high, 1023, 0, 1, 52);
    assert(high.negated().scaled() == -high.scaled());
    lemma_within_by_value(x, high.negated(), high);
}

/// Clamping a second time changes nothing.
pub proof fn lemma_clamp_is_idempotent(x: Double)
    ensures
        clamped_to_unit(clamped_to_unit(x)) == clamped_to_unit(x),
{
    lemma_rank_orders_values(Double { bits: (ONE + SIGN_BIT) as u64 }, Double { bits: ONE });
}

} // verus!
