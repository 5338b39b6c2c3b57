//! Fixed-point ratio arithmetic shared by the signal sources.
//!
//! A ratio is `numerator / denominator` scaled by `1_000_000` and floored;
//! every helper caps its result, since each signal declares a bounded domain.

use vstd::prelude::*;

verus! {

/// `num / den` in fixed-point form (floored); meaningful for positive `den`.
pub open spec fn spec_ratio_micro(num: int, den: int) -> int {
    (num * 1_000_000) / den
}

/// The smaller of two values.
pub open spec fn spec_min_int(a: int, b: int) -> int {
    if a < b {
        a
    } else {
        b
    }
}

/// The fixed-point ratio of two machine words, capped.
pub fn ratio_capped(num: u64, den: u64, cap: u64) -> (r: u64)
    requires
        den > 0,
    ensures
        r as int == spec_min_int(spec_ratio_micro(num as int, den as int), cap as int),
{
    let q: u128 = (num as u128) * 1_000_000 / (den as u128);
    if q > cap as u128 {
        cap
    } else {
        q as u64
    }
}

/// The fixed-point ratio of two wide counters, capped.  The numerator must
/// leave room for the scale factor.
pub fn ratio_capped_wide(num: u128, den: u128, cap: u64) -> (r: u64)
    requires
        den > 0,
        num <= 0xffff_ffff_ffff_ffff_ffff_ffff,
    ensures
        r as int == spec_min_int(spec_ratio_micro(num as int, den as int), cap as int),
{
    let q: u128 = num * 1_000_000 / den;
    if q > cap as u128 {
        cap
    } else {
        q as u64
    }
}

} // verus!
