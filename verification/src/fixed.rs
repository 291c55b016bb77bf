//! Fixed-point channel arithmetic.
//!
//! Channel values are 8-bit; fractional multipliers come in thousandths.
//! Every operation clamps to the [0, 255] channel range instead of wrapping.

use vstd::prelude::*;
use vstd::arithmetic::div_mod::{lemma_div_is_ordered, lemma_fundamental_div_mod, lemma_mod_bound};
use vstd::arithmetic::mul::lemma_mul_upper_bound;

verus! {

/// Euler's number in millionths; the death-decay terms are scaled by e as a
/// deliberate stylistic constant.
pub const E_MICRO: u64 = 2718282;

/// `v + step * factor`, truncated and clamped to 255, with `factor` in
/// thousandths: the saturation recovery of a surviving cell.
pub open spec fn spec_recovered(v: u8, step: u8, factor: u32) -> int {
    let raw = (v * 1000 + step * factor) / 1000;
    if raw > 255 {
        255int
    } else {
        raw
    }
}

/// `v - step * e * factor`, truncated and floored at 0, with `factor` in
/// thousandths: the per-channel decay of a dying cell.
pub open spec fn spec_e_decayed(v: u8, step: u8, factor: u32) -> int {
    let scaled_v = v * 1_000_000_000;
    let term = step * E_MICRO * factor;
    if scaled_v <= term {
        0int
    } else {
        (scaled_v - term) / 1_000_000_000
    }
}

/// `v * factor`, truncated and clamped to 255, with `factor` in thousandths:
/// the ghost fade of a cell that stays dead.
pub open spec fn spec_ghosted(v: u8, factor: u32) -> int {
    let raw = (v * factor) / 1000;
    if raw > 255 {
        255int
    } else {
        raw
    }
}

/// `sum / live` rounded half up, or 0 when `live` is 0: the mean channel
/// value of the live neighbors of a newborn cell.
pub open spec fn spec_neighbor_avg(sum: u32, live: u8) -> int {
    if live == 0 {
        0int
    } else {
        (2 * sum + live) / (2 * live)
    }
}

/// `a + (b - a) * t` rounded, with `t` the fraction `alpha / 255`: the
/// alpha-weighted blend the stamp painter applies to a channel.
pub open spec fn spec_lerp(a: u8, b: u8, alpha: u8) -> int {
    (2 * (a * (255 - alpha) + b * alpha) + 255) / 510
}

/// A nonnegative numerator bounded by `k` times the denominator divides to
/// at most `k`.
pub proof fn lemma_div_le(num: int, den: int, k: int)
    requires
        den >= 1,
        0 <= num,
        num < (k + 1) * den,
    ensures
        num / den <= k,
{
    lemma_fundamental_div_mod(num, den);
    lemma_mod_bound(num, den);
    let q = num / den;
    assert(q <= k) by (nonlinear_arith)
        requires
            den * q <= num,
            num < (k + 1) * den,
            den >= 1,
    ;
}

/// Saturation recovery of a surviving cell.
pub fn recovered(v: u8, step: u8, factor: u32) -> (r: u8)
    ensures
        r == spec_recovered(v, step, factor),
{
    proof {
        lemma_mul_upper_bound(step as int, 255, factor as int, 0xffff_ffff);
    }
    let raw: u64 = (v as u64 * 1000 + step as u64 * factor as u64) / 1000;
    if raw > 255 {
        255
    } else {
        raw as u8
    }
}

/// Per-channel decay of a dying cell.
pub fn e_decayed(v: u8, step: u8, factor: u32) -> (r: u8)
    ensures
        r == spec_e_decayed(v, step, factor),
        r <= v,
{
    proof {
        lemma_mul_upper_bound(step as int * E_MICRO as int, 255int * 2718282, factor as int, 0xffff_ffff);
    }
    let scaled_v: u64 = v as u64 * 1_000_000_000;
    let term: u64 = step as u64 * E_MICRO * factor as u64;
    if scaled_v <= term {
        0
    } else {
        let q: u64 = (scaled_v - term) / 1_000_000_000;
        proof {
            lemma_div_is_ordered((scaled_v - term) as int, scaled_v as int, 1_000_000_000int);
            lemma_fundamental_div_mod(scaled_v as int, 1_000_000_000int);
            lemma_mod_bound(scaled_v as int, 1_000_000_000int);
        }
        q as u8
    }
}

/// Ghost fade of a cell that stays dead.
pub fn ghosted(v: u8, factor: u32) -> (r: u8)
    ensures
        r == spec_ghosted(v, factor),
{
    proof {
        lemma_mul_upper_bound(v as int, 255, factor as int, 0xffff_ffff);
    }
    let raw: u64 = (v as u64 * factor as u64) / 1000;
    if raw > 255 {
        255
    } else {
        raw as u8
    }
}

/// Mean channel value of the live neighbors of a newborn cell, rounded
/// half up; 0 when there are none.
pub fn neighbor_avg(sum: u32, live: u8) -> (r: u8)
    requires
        live <= 8,
        sum <= 255 * live,
    ensures
        r == spec_neighbor_avg(sum, live),
        r <= 255,
{
    if live == 0 {
        0
    } else {
        let q: u32 = (2 * sum + live as u32) / (2 * live as u32);
        proof {
            lemma_fundamental_div_mod((2 * sum + live) as int, 2 * live as int);
            lemma_mod_bound((2 * sum + live) as int, 2 * live as int);
            assert(2 * (live as int) * (q as int) <= 511 * live as int);
            assert(q <= 255) by (nonlinear_arith)
                requires
                    2 * (live as int) * (q as int) <= 511 * live as int,
                    live >= 1,
            ;
        }
        q as u8
    }
}

/// Alpha-weighted blend of two channel values, `alpha` out of 255.
pub fn lerp(a: u8, b: u8, alpha: u8) -> (r: u8)
    ensures
        r == spec_lerp(a, b, alpha),
{
    proof {
        lemma_mul_upper_bound(a as int, 255, 255 - alpha as int, 255 - alpha as int);
        lemma_mul_upper_bound(b as int, 255, alpha as int, alpha as int);
    }
    let inner: u32 = a as u32 * (255 - alpha as u32) + b as u32 * alpha as u32;
    let q: u32 = (2 * inner + 255) / 510;
    proof {
        lemma_div_is_ordered((2 * inner + 255) as int, 130305int, 510int);
    }
    q as u8
}

} // verus!
