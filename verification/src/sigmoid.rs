//! The pressure transform: a fixed-point sigmoid.
//!
//! A signal's raw ratio `x` is mapped to the pressure
//! `1 / (1 + exp(-steepness * (x - midpoint)))`, computed entirely in
//! fixed-point arithmetic (`1_000_000` stands for `1.0`).  The exponential is
//! approximated by a lookup table for whole exponents and a degree-four
//! series for the fractional part; the argument saturates at `20.0`, beyond
//! which the output is pinned to the edge of the open unit interval.
//!
//! The transform is exact at the midpoint (`0.5`), proved monotone in `x`
//! for any non-negative steepness, and proved to stay strictly inside
//! `(0, 1)`.

use vstd::prelude::*;
use vstd::arithmetic::div_mod::{
    lemma_div_is_ordered, lemma_div_is_ordered_by_denominator, lemma_div_multiples_vanish,
    lemma_div_pos_is_pos, lemma_fundamental_div_mod, lemma_mod_division_less_than_divisor,
    lemma_remainder_lower,
};
use vstd::arithmetic::mul::{
    lemma_mul_inequality, lemma_mul_left_inequality, lemma_mul_upper_bound,
};
use crate::{SCALE, HALF_SCALE};

verus! {

/// Largest magnitude accepted for a midpoint, a steepness, or a raw input:
/// `1000.0` in fixed-point form.
pub const PARAM_CAP: i64 = 1_000_000_000;

/// Saturation bound on the sigmoid argument: `20.0` in fixed-point form.
/// `exp` of anything larger would drown the rest of the formula anyway.
pub const ARG_CAP: u64 = 20_000_000;

/// Fixed-point value of `exp(20)`, the largest entry of the table.
pub const EXP_MAX: u64 = 485_165_195_409_790;

/// Largest value the fractional-part series can take (its value just
/// below `f == 1.0`).
pub const FRAC_MAX: u64 = 2_708_330;

/// `exp(i)` in fixed-point form, for whole `i` between 0 and 20.
pub open spec fn exp_cell(i: int) -> int {
    if i <= 0 {
        1_000_000
    } else if i == 1 {
        2_718_282
    } else if i == 2 {
        7_389_056
    } else if i == 3 {
        20_085_537
    } else if i == 4 {
        54_598_150
    } else if i == 5 {
        148_413_159
    } else if i == 6 {
        403_428_793
    } else if i == 7 {
        1_096_633_158
    } else if i == 8 {
        2_980_957_987
    } else if i == 9 {
        8_103_083_928
    } else if i == 10 {
        22_026_465_795
    } else if i == 11 {
        59_874_141_715
    } else if i == 12 {
        162_754_791_419
    } else if i == 13 {
        442_413_392_009
    } else if i == 14 {
        1_202_604_284_165
    } else if i == 15 {
        3_269_017_372_472
    } else if i == 16 {
        8_886_110_520_508
    } else if i == 17 {
        24_154_952_753_575
    } else if i == 18 {
        65_659_969_137_331
    } else if i == 19 {
        178_482_300_963_187
    } else {
        485_165_195_409_790
    }
}

fn exp_cell_at(i: u64) -> (r: u64)
    requires
        i <= 20,
    ensures
        r as int == exp_cell(i as int),
{
    if i == 0 {
        1_000_000
    } else if i == 1 {
        2_718_282
    } else if i == 2 {
        7_389_056
    } else if i == 3 {
        20_085_537
    } else if i == 4 {
        54_598_150
    } else if i == 5 {
        148_413_159
    } else if i == 6 {
        403_428_793
    } else if i == 7 {
        1_096_633_158
    } else if i == 8 {
        2_980_957_987
    } else if i == 9 {
        8_103_083_928
    } else if i == 10 {
        22_026_465_795
    } else if i == 11 {
        59_874_141_715
    } else if i == 12 {
        162_754_791_419
    } else if i == 13 {
        442_413_392_009
    } else if i == 14 {
        1_202_604_284_165
    } else if i == 15 {
        3_269_017_372_472
    } else if i == 16 {
        8_886_110_520_508
    } else if i == 17 {
        24_154_952_753_575
    } else if i == 18 {
        65_659_969_137_331
    } else if i == 19 {
        178_482_300_963_187
    } else {
        485_165_195_409_790
    }
}

/// Truncated series for `exp(f)` with `0.0 <= f < 1.0`:
/// `1 + f + f^2/2 + f^3/6 + f^4/24`, every division floored.
pub open spec fn spec_exp_frac(f: int) -> int {
    let t1 = f;
    let t2 = (t1 * f) / 2_000_000;
    let t3 = (t2 * f) / 3_000_000;
    let t4 = (t3 * f) / 4_000_000;
    1_000_000 + t1 + t2 + t3 + t4
}

/// Fixed-point `exp(u)` for `0 <= u <= ARG_CAP`: table entry for the whole
/// part times the series for the fractional part.
pub open spec fn spec_exp(u: int) -> int {
    (exp_cell(u / 1_000_000) * spec_exp_frac(u % 1_000_000)) / 1_000_000
}

/// Clamp a value into the open unit interval's fixed-point image,
/// `[1, 999_999]`.
pub open spec fn clamp_unit(v: int) -> int {
    if v < 1 {
        1
    } else if v > 999_999 {
        999_999
    } else {
        v
    }
}

/// The pressure the transform assigns to input `x` under midpoint `m` and
/// steepness `k` (all three in fixed-point form).
pub open spec fn spec_pressure(m: int, k: int, x: int) -> int {
    let p = k * (x - m);
    let mag = if p >= 0 { p } else { -p };
    let u0 = mag / 1_000_000;
    let u = if u0 > 20_000_000 { 20_000_000 } else { u0 };
    let e = spec_exp(u);
    if p >= 0 {
        clamp_unit((e * 1_000_000) / (e + 1_000_000))
    } else {
        clamp_unit((1_000_000int * 1_000_000) / (e + 1_000_000))
    }
}

/// Sigmoid shape: where the curve crosses one half, and how sharply it rises.
#[derive(Debug, Clone, Copy, PartialEq, Eq, Structural)]
pub struct SigmoidFn {
    /// Input at which the output is exactly one half, in fixed-point form.
    pub midpoint: i64,
    /// Slope parameter, in fixed-point form; zero flattens the curve to a
    /// constant one half, a negative value flips its direction.
    pub steepness: i64,
}

impl SigmoidFn {
    /// Both parameters within the cap the arithmetic is sized for.
    pub open spec fn wf(self) -> bool {
        &&& -(PARAM_CAP as int) <= self.midpoint as int <= PARAM_CAP as int
        &&& -(PARAM_CAP as int) <= self.steepness as int <= PARAM_CAP as int
    }

    /// Evaluate the sigmoid at `x` (fixed-point), returning the pressure in
    /// `[1, 999_999]`, the fixed-point image of the open interval `(0, 1)`.
    pub fn evaluate(self, x: i64) -> (r: u64)
        requires
            self.wf(),
            -(PARAM_CAP as int) <= x as int <= PARAM_CAP as int,
        ensures
            r as int == spec_pressure(self.midpoint as int, self.steepness as int, x as int),
            1 <= r <= 999_999,
            x == self.midpoint ==> r == HALF_SCALE,
            self.steepness == 0 ==> r == HALF_SCALE,
    {
        let dx: i64 = x - self.midpoint;
        let prod: i64 = {
            proof {
                mul_magnitude_bound(
                    self.steepness as int,
                    dx as int,
                    1_000_000_000,
                    2_000_000_000,
                );
            }
            self.steepness * dx
        };
        let pos: bool = prod >= 0;
        let mag: u64 = if prod >= 0 {
            prod as u64
        } else {
            (-prod) as u64
        };
        let u0: u64 = mag / SCALE;
        let u: u64 = if u0 > ARG_CAP {
            ARG_CAP
        } else {
            u0
        };
        let e: u64 = exp_at(u);
        let q: u64 = if pos {
            proof {
                lemma_mul_upper_bound(e as int, EXP_MAX as int, 1_000_000, 1_000_000);
                lemma_ratio_below_scale(e as int);
            }
            let num: u128 = (e as u128) * (SCALE as u128);
            let den: u128 = (e as u128) + (SCALE as u128);
            (num / den) as u64
        } else {
            proof {
                lemma_div_is_ordered_by_denominator(
                    1_000_000int * 1_000_000,
                    1_000_000,
                    e as int + 1_000_000,
                );
            }
            let num: u64 = SCALE * SCALE;
            let den: u64 = e + SCALE;
            num / den
        };
        let r: u64 = if q < 1 {
            1
        } else if q > SCALE - 1 {
            SCALE - 1
        } else {
            q
        };
        proof {
            if x == self.midpoint || self.steepness == 0 {
                assert(prod as int == 0) by {
                    lemma_mul_by_zero(self.steepness as int, dx as int);
                };
                assert(mag == 0);
                assert(u == 0);
                lemma_exp_zero();
                assert(e == 1_000_000);
                assert((1_000_000int * 1_000_000) / 2_000_000 == 500_000);
                assert(q == 500_000);
                assert(r == 500_000);
            }
        }
        r
    }
}

impl Default for SigmoidFn {
    /// The fallback shape: midpoint `0.5`, steepness `8.0`.
    fn default() -> (r: Self)
        ensures
            r.midpoint == 500_000i64,
            r.steepness == 8_000_000i64,
    {
        SigmoidFn { midpoint: 500_000, steepness: 8_000_000 }
    }
}

/// The fixed-point exponential of zero is exactly `1.0`.
proof fn lemma_exp_zero()
    ensures
        spec_exp(0) == 1_000_000,
{
    assert(0int / 1_000_000 == 0);
    assert(0int % 1_000_000 == 0);
    assert(exp_cell(0) == 1_000_000);
    assert(spec_exp_frac(0) == 1_000_000);
    assert((1_000_000int * 1_000_000) / 1_000_000 == 1_000_000);
}

/// The parameter an override resolves to: the override's value when it is
/// usable, the default otherwise — an unusable override falls back
/// silently.  Usable means a plain decimal literal (an optional sign, then
/// digits with an optional fraction; exponent forms and named floats are
/// not read) whose magnitude stays within `PARAM_CAP`, the `1000.0` the
/// fixed-point arithmetic is sized for — far beyond every documented
/// parameter.
pub open spec fn spec_resolve_param(default: i64, ov: Option<Seq<char>>) -> i64 {
    match ov {
        None => default,
        Some(s) => match crate::text::spec_parse_micro(s) {
            Some(v) => if -(PARAM_CAP as int) <= v as int <= PARAM_CAP as int {
                v
            } else {
                default
            },
            None => default,
        },
    }
}

/// Resolve one parameter against an optional override, matching
/// `spec_resolve_param`.
fn resolve_param(default: i64, ov: Option<&str>) -> (r: i64)
    ensures
        r == spec_resolve_param(
            default,
            match ov {
                Some(s) => Some(s@),
                None => None,
            },
        ),
{
    match ov {
        None => default,
        Some(s) => {
            let v = crate::text::chars_of(s);
            match crate::text::parse_micro_chars(&v) {
                Some(value) => {
                    if -PARAM_CAP <= value && value <= PARAM_CAP {
                        value
                    } else {
                        default
                    }
                },
                None => default,
            }
        },
    }
}

/// Build a sigmoid shape from per-signal defaults and optional overrides:
/// each parameter independently takes a usable override or falls back to
/// its default, so the result is always well formed.  An override is
/// usable when it is a plain decimal literal within `PARAM_CAP` (see
/// `spec_resolve_param`); anything else — unset, unreadable, exotic
/// notation, or out of the arithmetic's range — is treated as no override.
pub fn get_sigmoid_config(
    default_midpoint: i64,
    default_steepness: i64,
    midpoint_override: Option<&str>,
    steepness_override: Option<&str>,
) -> (r: SigmoidFn)
    requires
        -(PARAM_CAP as int) <= default_midpoint as int <= PARAM_CAP as int,
        -(PARAM_CAP as int) <= default_steepness as int <= PARAM_CAP as int,
    ensures
        r.midpoint == spec_resolve_param(
            default_midpoint,
            match midpoint_override {
                Some(s) => Some(s@),
                None => None,
            },
        ),
        r.steepness == spec_resolve_param(
            default_steepness,
            match steepness_override {
                Some(s) => Some(s@),
                None => None,
            },
        ),
        r.wf(),
{
    SigmoidFn {
        midpoint: resolve_param(default_midpoint, midpoint_override),
        steepness: resolve_param(default_steepness, steepness_override),
    }
}

/// A product with a zero factor is zero.
proof fn lemma_mul_by_zero(a: int, b: int)
    requires
        a == 0 || b == 0,
    ensures
        a * b == 0,
{
    if a == 0 {
        assert(a * b == 0) by (nonlinear_arith)
            requires
                a == 0,
        ;
    } else {
        assert(a * b == 0) by (nonlinear_arith)
            requires
                b == 0,
        ;
    }
}

/// `|a| <= ca` and `|b| <= cb` bound `|a * b|` by `ca * cb`.
proof fn mul_magnitude_bound(a: int, b: int, ca: int, cb: int)
    requires
        -ca <= a <= ca,
        -cb <= b <= cb,
        0 <= ca,
        0 <= cb,
    ensures
        -(ca * cb) <= a * b <= ca * cb,
{
    assert(-(ca * cb) <= a * b <= ca * cb) by (nonlinear_arith)
        requires
            -ca <= a <= ca,
            -cb <= b <= cb,
            0 <= ca,
            0 <= cb,
    ;
}

/// For a positive exponential, `e / (e + 1)` floors to at most `1.0 - 1`.
proof fn lemma_ratio_below_scale(e: int)
    requires
        0 <= e,
    ensures
        0 <= (e * 1_000_000) / (e + 1_000_000) <= 999_999,
{
    lemma_mul_nonneg_pair(e, 1_000_000);
    lemma_div_pos_is_pos(e * 1_000_000, e + 1_000_000);
    assert(e * 1_000_000 <= (e + 1_000_000) * 1_000_000 - 1_000_000);
    lemma_div_is_ordered(e * 1_000_000, (e + 1_000_000) * 1_000_000 - 1_000_000, e + 1_000_000);
    assert(((e + 1_000_000) * 1_000_000 - 1_000_000) / (e + 1_000_000) <= 999_999) by {
        let d = e + 1_000_000;
        assert(d * 1_000_000 - 1_000_000 <= d * 1_000_000 - 1);
        lemma_div_is_ordered(d * 1_000_000 - 1_000_000, d * 1_000_000 - 1, d);
        lemma_fundamental_div_mod(d * 1_000_000 - 1, d);
        lemma_div_multiples_vanish(1_000_000, d);
        assert((d * 1_000_000 - 1) / d <= 999_999) by (nonlinear_arith)
            requires
                d >= 1_000_000,
                d * (((d * 1_000_000 - 1) as int) / d) + ((d * 1_000_000 - 1) as int) % d == d
                    * 1_000_000 - 1,
                0 <= ((d * 1_000_000 - 1) as int) % d < d,
        ;
    };
}

/// Both factors non-negative makes the product non-negative.
proof fn lemma_mul_nonneg_pair(a: int, b: int)
    requires
        0 <= a,
        0 <= b,
    ensures
        0 <= a * b,
{
    vstd::arithmetic::mul::lemma_mul_nonnegative(a, b);
}

/// Multiply a fixed non-negative left factor into an ordered pair.
proof fn lemma_mul_left_le(c: int, a: int, b: int)
    requires
        0 <= c,
        a <= b,
    ensures
        c * a <= c * b,
{
    if c > 0 {
        lemma_mul_left_inequality(c, a, b);
    } else {
        lemma_mul_by_zero(c, a);
        lemma_mul_by_zero(c, b);
    }
}

/// Exact fixed-point exponential of the fractional part, matching
/// `spec_exp_frac`.
fn exp_frac(f: u64) -> (r: u64)
    requires
        f < 1_000_000,
    ensures
        r as int == spec_exp_frac(f as int),
        1_000_000 <= r <= FRAC_MAX,
{
    let t1: u64 = f;
    proof {
        lemma_mul_upper_bound(t1 as int, 999_999, f as int, 999_999);
    }
    let p2: u64 = t1 * f;
    let t2: u64 = p2 / 2_000_000;
    proof {
        lemma_div_is_ordered(p2 as int, 999_999int * 999_999, 2_000_000);
        lemma_mul_upper_bound(t2 as int, 499_999, f as int, 999_999);
    }
    let p3: u64 = t2 * f;
    let t3: u64 = p3 / 3_000_000;
    proof {
        lemma_div_is_ordered(p3 as int, 499_999int * 999_999, 3_000_000);
        lemma_mul_upper_bound(t3 as int, 166_666, f as int, 999_999);
    }
    let p4: u64 = t3 * f;
    let t4: u64 = p4 / 4_000_000;
    proof {
        lemma_div_is_ordered(p4 as int, 166_666int * 999_999, 4_000_000);
        lemma_frac_bounds(f as int);
    }
    1_000_000 + t1 + t2 + t3 + t4
}

/// Exact fixed-point exponential, matching `spec_exp`.
fn exp_at(u: u64) -> (r: u64)
    requires
        u <= ARG_CAP,
    ensures
        r as int == spec_exp(u as int),
        1_000_000 <= r <= EXP_MAX,
{
    let i: u64 = u / SCALE;
    proof {
        lemma_div_is_ordered(u as int, 20_000_000, 1_000_000);
    }
    let f: u64 = u % SCALE;
    let cell: u64 = exp_cell_at(i);
    let frac: u64 = exp_frac(f);
    proof {
        lemma_cell_mono(0, i as int);
        lemma_cell_mono(i as int, 20);
        lemma_mul_upper_bound(cell as int, exp_cell(20), frac as int, FRAC_MAX as int);
        lemma_exp_bounds(u as int);
    }
    let wide: u128 = (cell as u128) * (frac as u128) / 1_000_000;
    wide as u64
}

/// Every term of the fractional series grows with `f`, so the series does.
proof fn lemma_frac_mono(f1: int, f2: int)
    requires
        0 <= f1 <= f2 < 1_000_000,
    ensures
        spec_exp_frac(f1) <= spec_exp_frac(f2),
{
    lemma_mul_inequality(f1, f2, f1);
    lemma_mul_left_le(f2, f1, f2);
    assert(f1 * f1 <= f2 * f2);
    lemma_mul_nonneg_pair(f1, f1);
    lemma_div_is_ordered(f1 * f1, f2 * f2, 2_000_000);
    let b1 = (f1 * f1) / 2_000_000;
    let b2 = (f2 * f2) / 2_000_000;
    lemma_div_pos_is_pos(f1 * f1, 2_000_000);
    lemma_mul_inequality(b1, b2, f1);
    lemma_mul_left_le(b2, f1, f2);
    assert(b1 * f1 <= b2 * f2);
    lemma_mul_nonneg_pair(b1, f1);
    lemma_div_is_ordered(b1 * f1, b2 * f2, 3_000_000);
    let c1 = (b1 * f1) / 3_000_000;
    let c2 = (b2 * f2) / 3_000_000;
    lemma_div_pos_is_pos(b1 * f1, 3_000_000);
    lemma_mul_inequality(c1, c2, f1);
    lemma_mul_left_le(c2, f1, f2);
    assert(c1 * f1 <= c2 * f2);
    lemma_mul_nonneg_pair(c1, f1);
    lemma_div_is_ordered(c1 * f1, c2 * f2, 4_000_000);
}

/// The series' value just below `1.0` is `FRAC_MAX`.
#[verifier::rlimit(50)]
proof fn lemma_frac_top()
    ensures
        spec_exp_frac(999_999) == FRAC_MAX as int,
{
    let f = 999_999int;
    assert(f * f == 999_998_000_001);
    assert(999_998_000_001int / 2_000_000 == 499_999);
    assert(499_999int * f == 499_998_500_001);
    assert(499_998_500_001int / 3_000_000 == 166_666);
    assert(166_666int * f == 166_665_833_334);
    assert(166_665_833_334int / 4_000_000 == 41_666);
    assert(spec_exp_frac(999_999) == 1_000_000 + 999_999 + 499_999 + 166_666 + 41_666);
}

/// The fractional series stays between `1.0` and `FRAC_MAX`.
proof fn lemma_frac_bounds(f: int)
    requires
        0 <= f < 1_000_000,
    ensures
        1_000_000 <= spec_exp_frac(f) <= FRAC_MAX as int,
{
    lemma_mul_nonneg_pair(f, f);
    lemma_div_pos_is_pos(f * f, 2_000_000);
    let t2 = (f * f) / 2_000_000;
    lemma_mul_nonneg_pair(t2, f);
    lemma_div_pos_is_pos(t2 * f, 3_000_000);
    let t3 = (t2 * f) / 3_000_000;
    lemma_mul_nonneg_pair(t3, f);
    lemma_div_pos_is_pos(t3 * f, 4_000_000);
    lemma_frac_mono(f, 999_999);
    lemma_frac_top();
}

/// Neighbouring table entries are ordered.
proof fn lemma_cell_step_up(i: int)
    requires
        0 <= i <= 19,
    ensures
        exp_cell(i) <= exp_cell(i + 1),
{
}

/// The table is monotone.
proof fn lemma_cell_mono(i: int, j: int)
    requires
        0 <= i <= j <= 20,
    ensures
        exp_cell(i) <= exp_cell(j),
    decreases j - i,
{
    if i < j {
        lemma_cell_mono(i, j - 1);
        lemma_cell_step_up(j - 1);
    }
}

/// Stepping past the top of a cell lands below the next table entry:
/// `exp_cell(i) * FRAC_MAX / 1.0 <= exp_cell(i + 1)`.
#[verifier::rlimit(50)]
proof fn lemma_cell_chain(i: int)
    requires
        0 <= i <= 19,
    ensures
        (exp_cell(i) * (FRAC_MAX as int)) / 1_000_000 <= exp_cell(i + 1),
{
}

/// `spec_exp` stays between `1.0` and the table's top entry.
proof fn lemma_exp_bounds(u: int)
    requires
        0 <= u <= ARG_CAP as int,
    ensures
        1_000_000 <= spec_exp(u) <= EXP_MAX as int,
{
    let i = u / 1_000_000;
    let f = u % 1_000_000;
    lemma_fundamental_div_mod(u, 1_000_000);
    lemma_mod_division_less_than_divisor(u, 1_000_000);
    lemma_remainder_lower(u, 1_000_000);
    lemma_div_pos_is_pos(u, 1_000_000);
    lemma_div_is_ordered(u, 20_000_000, 1_000_000);
    assert(0 <= i <= 20);
    lemma_frac_bounds(f);
    lemma_cell_mono(0, i);
    lemma_cell_mono(i, 20);
    // lower bound: cell * frac >= cell * 1.0, and (cell * 1.0) / 1.0 == cell
    lemma_mul_left_le(exp_cell(i), 1_000_000, spec_exp_frac(f));
    lemma_div_is_ordered(exp_cell(i) * 1_000_000, exp_cell(i) * spec_exp_frac(f), 1_000_000);
    assert((exp_cell(i) * 1_000_000) / 1_000_000 == exp_cell(i)) by {
        lemma_div_multiples_vanish(exp_cell(i), 1_000_000);
        assert(exp_cell(i) * 1_000_000 == 1_000_000 * exp_cell(i));
    };
    // upper bound
    if i == 20 {
        assert(f == 0);
        assert(spec_exp_frac(0) == 1_000_000);
        assert((exp_cell(20) * 1_000_000) / 1_000_000 == exp_cell(20)) by {
            lemma_div_multiples_vanish(exp_cell(20), 1_000_000);
            assert(exp_cell(20) * 1_000_000 == 1_000_000 * exp_cell(20));
        };
    } else {
        lemma_frac_mono(f, 999_999);
        lemma_frac_top();
        lemma_mul_left_le(exp_cell(i), spec_exp_frac(f), FRAC_MAX as int);
        lemma_div_is_ordered(
            exp_cell(i) * spec_exp_frac(f),
            exp_cell(i) * (FRAC_MAX as int),
            1_000_000,
        );
        lemma_cell_chain(i);
        lemma_cell_mono(i + 1, 20);
    }
}

/// The fixed-point exponential is monotone.
proof fn lemma_exp_mono(u1: int, u2: int)
    requires
        0 <= u1 <= u2 <= ARG_CAP as int,
    ensures
        spec_exp(u1) <= spec_exp(u2),
{
    let i1 = u1 / 1_000_000;
    let f1 = u1 % 1_000_000;
    let i2 = u2 / 1_000_000;
    let f2 = u2 % 1_000_000;
    lemma_fundamental_div_mod(u1, 1_000_000);
    lemma_fundamental_div_mod(u2, 1_000_000);
    lemma_mod_division_less_than_divisor(u1, 1_000_000);
    lemma_mod_division_less_than_divisor(u2, 1_000_000);
    lemma_remainder_lower(u1, 1_000_000);
    lemma_remainder_lower(u2, 1_000_000);
    lemma_div_pos_is_pos(u1, 1_000_000);
    lemma_div_is_ordered(u1, u2, 1_000_000);
    lemma_div_is_ordered(u2, 20_000_000, 1_000_000);
    lemma_frac_bounds(f1);
    lemma_frac_bounds(f2);
    lemma_cell_mono(0, i1);
    if i1 == i2 {
        assert(f1 <= f2);
        lemma_frac_mono(f1, f2);
        lemma_mul_left_le(exp_cell(i1), spec_exp_frac(f1), spec_exp_frac(f2));
        lemma_div_is_ordered(
            exp_cell(i1) * spec_exp_frac(f1),
            exp_cell(i2) * spec_exp_frac(f2),
            1_000_000,
        );
    } else {
        assert(i1 < i2);
        // spec_exp(u1) <= cell(i1) * FRAC_MAX <= cell(i1 + 1) <= cell(i2) <= spec_exp(u2)
        lemma_frac_mono(f1, 999_999);
        lemma_frac_top();
        lemma_mul_left_le(exp_cell(i1), spec_exp_frac(f1), FRAC_MAX as int);
        lemma_div_is_ordered(
            exp_cell(i1) * spec_exp_frac(f1),
            exp_cell(i1) * (FRAC_MAX as int),
            1_000_000,
        );
        lemma_cell_chain(i1);
        lemma_cell_mono(i1 + 1, i2);
        lemma_mul_left_le(exp_cell(i2), 1_000_000, spec_exp_frac(f2));
        lemma_div_is_ordered(
            exp_cell(i2) * 1_000_000,
            exp_cell(i2) * spec_exp_frac(f2),
            1_000_000,
        );
        assert((exp_cell(i2) * 1_000_000) / 1_000_000 == exp_cell(i2)) by {
            lemma_div_multiples_vanish(exp_cell(i2), 1_000_000);
            assert(exp_cell(i2) * 1_000_000 == 1_000_000 * exp_cell(i2));
        };
    }
}

/// Ratios ordered by cross-multiplication are ordered after flooring.
proof fn lemma_div_le_div(a1: int, b1: int, a2: int, b2: int)
    requires
        0 <= a1,
        0 < b1,
        0 < b2,
        a1 * b2 <= a2 * b1,
    ensures
        a1 / b1 <= a2 / b2,
{
    let q = a1 / b1;
    lemma_fundamental_div_mod(a1, b1);
    lemma_mod_division_less_than_divisor(a1, b1);
    lemma_remainder_lower(a1, b1);
    assert(b1 * q <= a1);
    assert((b1 * q) * b2 <= a1 * b2) by {
        lemma_mul_inequality(b1 * q, a1, b2);
    };
    assert((q * b2) * b1 <= a2 * b1) by (nonlinear_arith)
        requires
            (b1 * q) * b2 <= a1 * b2,
            a1 * b2 <= a2 * b1,
    ;
    assert(q * b2 <= a2) by (nonlinear_arith)
        requires
            (q * b2) * b1 <= a2 * b1,
            0 < b1,
    ;
    lemma_div_is_ordered(q * b2, a2, b2);
    assert((q * b2) / b2 == q) by {
        lemma_div_multiples_vanish(q, b2);
        vstd::arithmetic::mul::lemma_mul_is_commutative(q, b2);
    };
}

/// The positive branch `e / (e + 1)` grows with `e`.
proof fn lemma_pos_branch_mono(e1: int, e2: int)
    requires
        0 < e1 <= e2,
    ensures
        (e1 * 1_000_000) / (e1 + 1_000_000) <= (e2 * 1_000_000) / (e2 + 1_000_000),
{
    assert((e1 * 1_000_000) * (e2 + 1_000_000) <= (e2 * 1_000_000) * (e1 + 1_000_000))
        by (nonlinear_arith)
        requires
            0 < e1 <= e2,
    ;
    lemma_mul_nonneg_pair(e1, 1_000_000);
    lemma_div_le_div(e1 * 1_000_000, e1 + 1_000_000, e2 * 1_000_000, e2 + 1_000_000);
}

/// With the exponential at least `1.0`, the negative branch sits at or below
/// one half and the positive branch at or above it.
proof fn lemma_branches_straddle_half(e: int)
    requires
        1_000_000 <= e,
    ensures
        (1_000_000int * 1_000_000) / (e + 1_000_000) <= 500_000,
        500_000 <= (e * 1_000_000) / (e + 1_000_000),
{
    lemma_div_is_ordered_by_denominator(1_000_000int * 1_000_000, 2_000_000, e + 1_000_000);
    assert(500_000 * (e + 1_000_000) <= e * 1_000_000) by (nonlinear_arith)
        requires
            1_000_000 <= e,
    ;
    assert(((e + 1_000_000) * 500_000) / (e + 1_000_000) == 500_000) by {
        lemma_div_multiples_vanish(500_000, e + 1_000_000);
    };
    assert((e + 1_000_000) * 500_000 == 500_000 * (e + 1_000_000));
    lemma_div_is_ordered(500_000 * (e + 1_000_000), e * 1_000_000, e + 1_000_000);
}

/// Clamping keeps order.
proof fn lemma_clamp_mono(v1: int, v2: int)
    requires
        v1 <= v2,
    ensures
        clamp_unit(v1) <= clamp_unit(v2),
{
}

/// The transform is monotone in its input: with a non-negative steepness,
/// a larger raw ratio never reads as less pressure.  Together with the
/// output bounds of `SigmoidFn::evaluate`, this is the transform's ordering
/// law.
pub proof fn lemma_pressure_monotone(m: int, k: int, x1: int, x2: int)
    requires
        0 <= k <= PARAM_CAP as int,
        -(PARAM_CAP as int) <= m <= PARAM_CAP as int,
        -(PARAM_CAP as int) <= x1 <= x2 <= PARAM_CAP as int,
    ensures
        spec_pressure(m, k, x1) <= spec_pressure(m, k, x2),
{
    let p1 = k * (x1 - m);
    let p2 = k * (x2 - m);
    assert(p1 <= p2) by {
        lemma_mul_left_le(k, x1 - m, x2 - m);
    };
    let mag1 = if p1 >= 0 { p1 } else { -p1 };
    let mag2 = if p2 >= 0 { p2 } else { -p2 };
    let u01 = mag1 / 1_000_000;
    let u02 = mag2 / 1_000_000;
    let u1 = if u01 > 20_000_000 { 20_000_000int } else { u01 };
    let u2 = if u02 > 20_000_000 { 20_000_000int } else { u02 };
    lemma_div_pos_is_pos(mag1, 1_000_000);
    lemma_div_pos_is_pos(mag2, 1_000_000);
    let e1 = spec_exp(u1);
    let e2 = spec_exp(u2);
    lemma_exp_bounds(u1);
    lemma_exp_bounds(u2);
    if p1 >= 0 {
        lemma_div_is_ordered(mag1, mag2, 1_000_000);
        assert(u1 <= u2);
        lemma_exp_mono(u1, u2);
        lemma_pos_branch_mono(e1, e2);
        lemma_clamp_mono(
            (e1 * 1_000_000) / (e1 + 1_000_000),
            (e2 * 1_000_000) / (e2 + 1_000_000),
        );
    } else if p2 < 0 {
        assert(mag2 <= mag1);
        lemma_div_is_ordered(mag2, mag1, 1_000_000);
        assert(u2 <= u1);
        lemma_exp_mono(u2, u1);
        lemma_div_is_ordered_by_denominator(
            1_000_000int * 1_000_000,
            e2 + 1_000_000,
            e1 + 1_000_000,
        );
        lemma_clamp_mono(
            (1_000_000int * 1_000_000) / (e1 + 1_000_000),
            (1_000_000int * 1_000_000) / (e2 + 1_000_000),
        );
    } else {
        lemma_branches_straddle_half(e1);
        lemma_branches_straddle_half(e2);
        lemma_clamp_mono((1_000_000int * 1_000_000) / (e1 + 1_000_000), 500_000);
        lemma_clamp_mono(500_000, (e2 * 1_000_000) / (e2 + 1_000_000));
    }
}

/// The transform's output always lies strictly inside the unit interval,
/// in fixed-point form: between `1` and `999_999` inclusive.
pub proof fn lemma_pressure_in_unit(m: int, k: int, x: int)
    ensures
        1 <= spec_pressure(m, k, x) <= 999_999,
{
}

} // verus!
