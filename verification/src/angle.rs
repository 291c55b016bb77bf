//! Fixed-point circular arithmetic for the hue channel.
//!
//! Angles are measured in 1/65536ths of a turn (so 65536 is one full turn),
//! sines and cosines are scaled by 32768. The sine uses a rational
//! approximation that is exact at 0, a quarter turn and a half turn; the
//! arctangent uses a linear term with a quadratic correction, exact at the
//! octant boundaries. Both stay within a fraction of one hue step of the
//! real functions, which is all the hue blend needs.

use vstd::prelude::*;
use vstd::arithmetic::div_mod::{
    lemma_div_by_multiple, lemma_div_is_ordered, lemma_fundamental_div_mod, lemma_mod_bound,
};

verus! {

/// Sine over the first half turn, `t` in [0, 32768], result in [0, 32768]:
/// the rational approximation `4u / (5/4 * 32768^2 - u)` with
/// `u = t * (32768 - t)`, scaled by 32768.
pub open spec fn spec_sin_half(t: int) -> int {
    let u = t * (32768 - t);
    (4 * u * 32768) / (1342177280 - u)
}

/// Sine of `t` in [0, 65536], scaled by 32768.
pub open spec fn spec_sin_q15(t: int) -> int {
    if t <= 32768 {
        spec_sin_half(t)
    } else {
        -spec_sin_half(t - 32768)
    }
}

/// Cosine of `t` in [0, 65536], scaled by 32768: the sine a quarter turn
/// ahead.
pub open spec fn spec_cos_q15(t: int) -> int {
    spec_sin_q15((t + 16384) % 65536)
}

/// `t * (32768 - t)` peaks at the midpoint.
proof fn lemma_sin_arg_bound(t: int)
    requires
        0 <= t <= 32768,
    ensures
        0 <= t * (32768 - t) <= 268435456,
{
    assert(0 <= t * (32768 - t) <= 268435456) by (nonlinear_arith)
        requires
            0 <= t <= 32768,
    ;
}

fn sin_half(t: u32) -> (r: i32)
    requires
        t <= 32768,
    ensures
        r == spec_sin_half(t as int),
        0 <= r <= 32768,
{
    proof {
        lemma_sin_arg_bound(t as int);
    }
    let u: u64 = t as u64 * (32768 - t) as u64;
    let num: u64 = 4 * u * 32768;
    let den: u64 = 1342177280 - u;
    let q: u64 = num / den;
    proof {
        lemma_fundamental_div_mod(num as int, den as int);
        lemma_mod_bound(num as int, den as int);
        assert(q <= 32768) by (nonlinear_arith)
            requires
                den as int * (q as int) <= num,
                num <= 32768 * (den as int),
                den >= 1,
        ;
    }
    q as i32
}

/// Sine of `t` (in 1/65536ths of a turn), scaled by 32768.
pub fn sin_q15(t: u32) -> (r: i32)
    requires
        t <= 65536,
    ensures
        r == spec_sin_q15(t as int),
        -32768 <= r <= 32768,
{
    if t <= 32768 {
        sin_half(t)
    } else {
        -sin_half(t - 32768)
    }
}

/// Cosine of `t` (in 1/65536ths of a turn), scaled by 32768.
pub fn cos_q15(t: u32) -> (r: i32)
    requires
        t <= 65536,
    ensures
        r == spec_cos_q15(t as int),
        -32768 <= r <= 32768,
{
    sin_q15((t + 16384) % 65536)
}

/// Arctangent of `z / 32768` for `z` in [0, 32768], in 1/65536ths of a turn:
/// result in [0, 8192] (up to an eighth of a turn).
pub open spec fn spec_atan_frac(z: int) -> int {
    let lin = z / 4;
    let corr = ((z * (32768 - z)) / 32768) * 2973 / 32768;
    let a = lin + corr;
    if a > 8192 {
        8192int
    } else {
        a
    }
}

fn atan_frac(z: u64) -> (r: i64)
    requires
        z <= 32768,
    ensures
        r == spec_atan_frac(z as int),
        0 <= r <= 8192,
{
    proof {
        lemma_sin_arg_bound(z as int);
    }
    let lin: u64 = z / 4;
    let corr: u64 = ((z * (32768 - z)) / 32768) * 2973 / 32768;
    let a: u64 = lin + corr;
    if a > 8192 {
        8192
    } else {
        a as i64
    }
}

/// The angle of the vector `(x, y)` in 1/65536ths of a turn, in
/// [-32768, 32768] (a half turn either way), with `(0, 0)` mapped to 0.
pub open spec fn spec_atan2_turn(y: int, x: int) -> int {
    if x == 0 && y == 0 {
        0int
    } else {
        let ax = if x < 0 { -x } else { x };
        let ay = if y < 0 { -y } else { y };
        let base = if ax >= ay {
            spec_atan_frac((ay * 32768) / ax)
        } else {
            16384 - spec_atan_frac((ax * 32768) / ay)
        };
        let q = if x >= 0 { base } else { 32768 - base };
        if y >= 0 { q } else { -q }
    }
}

/// The angle of the vector `(x, y)`, in 1/65536ths of a turn.
pub fn atan2_turn(y: i64, x: i64) -> (r: i64)
    requires
        -0x100_0000_0000 <= y <= 0x100_0000_0000,
        -0x100_0000_0000 <= x <= 0x100_0000_0000,
    ensures
        r == spec_atan2_turn(y as int, x as int),
        -32768 <= r <= 32768,
{
    if x == 0 && y == 0 {
        return 0;
    }
    let ax: i64 = if x < 0 { -x } else { x };
    let ay: i64 = if y < 0 { -y } else { y };
    let base: i64 = if ax >= ay {
        proof {
            lemma_div_is_ordered(ay as int * 32768, ax as int * 32768, ax as int);
            lemma_div_by_multiple(32768, ax as int);
            vstd::arithmetic::div_mod::lemma_div_pos_is_pos(ay as int * 32768, ax as int);
        }
        atan_frac(((ay * 32768) / ax) as u64)
    } else {
        proof {
            lemma_div_is_ordered(ax as int * 32768, ay as int * 32768, ay as int);
            lemma_div_by_multiple(32768, ay as int);
            vstd::arithmetic::div_mod::lemma_div_pos_is_pos(ax as int * 32768, ay as int);
        }
        16384 - atan_frac(((ax * 32768) / ay) as u64)
    };
    let q: i64 = if x >= 0 { base } else { 32768 - base };
    if y >= 0 { q } else { -q }
}

/// The hue byte mapped onto the circle: `hue / 255` of a turn, in
/// 1/65536ths of a turn (255 maps to the full turn).
pub open spec fn spec_hue_turn(hue: u8) -> int {
    (hue * 65536) / 255
}

/// The hue byte mapped onto the circle, in 1/65536ths of a turn.
pub fn hue_turn(hue: u8) -> (r: u32)
    ensures
        r == spec_hue_turn(hue),
        r <= 65536,
{
    (hue as u32 * 65536) / 255
}

} // verus!
