//! The named easing curves, as exact integer formulas over fixed-point
//! progress values.
//!
//! Every function here maps a progress `v` with `0 <= v <= SCALE` (the
//! fixed-point image of `[0, 1]`) to an interpolation value in the same
//! scale. Polynomial families (quadratic through quintic, back, bounce) are
//! the standard closed-form curves evaluated exactly in integer arithmetic;
//! the transcendental families (sine, circular, exponential, elastic) use
//! rational approximations that are exact at the endpoints, so every curve
//! satisfies `f(0) == 0` and `f(SCALE) == SCALE`.

use vstd::prelude::*;
use vstd::arithmetic::div_mod::{
    lemma_div_is_ordered, lemma_div_is_ordered_by_denominator, lemma_div_multiples_vanish,
    lemma_multiply_divide_le,
};
use vstd::arithmetic::div_mod::{
    lemma_div_basics, lemma_div_of0, lemma_fundamental_div_mod_converse_div,
    lemma_fundamental_div_mod_converse_mod,
};
use vstd::arithmetic::power2::{pow2, lemma2_to64};
use crate::SCALE;

verus! {

/// `c * v^2 / SCALE^2`: a quadratic term of weight `c`, exact to the unit.
pub open spec fn term2_spec(c: int, v: int) -> int {
    (c * v * v) / ((SCALE as int) * (SCALE as int))
}

/// `c * v^3 / SCALE^3`: a cubic term of weight `c`, exact to the unit.
pub open spec fn term3_spec(c: int, v: int) -> int {
    (c * v * v * v) / ((SCALE as int) * (SCALE as int) * (SCALE as int))
}

/// `c * v^4 / SCALE^4`: a quartic term of weight `c`, exact to the unit.
pub open spec fn term4_spec(c: int, v: int) -> int {
    (c * v * v * v * v) / ((SCALE as int) * (SCALE as int) * (SCALE as int) * (SCALE as int))
}

/// `c * v^5 / SCALE^5`: a quintic term of weight `c`, exact to the unit.
pub open spec fn term5_spec(c: int, v: int) -> int {
    (c * v * v * v * v * v) / ((SCALE as int) * (SCALE as int) * (SCALE as int) * (SCALE as int)
        * (SCALE as int))
}

fn term2(c: i64, v: i64) -> (r: i64)
    requires
        0 <= c <= 16 * SCALE,
        0 <= v <= SCALE,
    ensures
        r == term2_spec(c as int, v as int),
        0 <= r <= c,
{
    proof {
        let ci = c as int;
        let vi = v as int;
        let si = SCALE as int;
        assert(SCALE as u128 == 1_000_000u128);
        assert(ci * vi <= 16 * si * si && ci * vi * vi <= 16 * si * si * si)
            by (nonlinear_arith)
            requires
                0 <= ci <= 16 * si,
                0 <= vi <= si,
        ;
    }
    let n: u128 = (c as u128) * (v as u128) * (v as u128);
    let d: u128 = (SCALE as u128) * (SCALE as u128);
    let q: u128 = n / d;
    proof {
        let ci = c as int;
        let vi = v as int;
        let si = SCALE as int;
        assert(ci * vi * vi <= ci * si * si) by (nonlinear_arith)
            requires
                0 <= ci,
                0 <= vi <= si,
        ;
        lemma_div_is_ordered(ci * vi * vi, ci * si * si, si * si);
        lemma_div_multiples_vanish(ci, si * si);
        assert(ci * si * si == ci * (si * si)) by (nonlinear_arith);
    }
    q as i64
}

fn term3(c: i64, v: i64) -> (r: i64)
    requires
        0 <= c <= 16 * SCALE,
        0 <= v <= SCALE,
    ensures
        r == term3_spec(c as int, v as int),
        0 <= r <= c,
{
    proof {
        let ci = c as int;
        let vi = v as int;
        let si = SCALE as int;
        assert(SCALE as u128 == 1_000_000u128);
        assert(ci * vi <= 16 * si * si && ci * vi * vi <= 16 * si * si * si
            && ci * vi * vi * vi <= 16 * si * si * si * si) by (nonlinear_arith)
            requires
                0 <= ci <= 16 * si,
                0 <= vi <= si,
        ;
    }
    let n: u128 = (c as u128) * (v as u128) * (v as u128) * (v as u128);
    let d: u128 = (SCALE as u128) * (SCALE as u128) * (SCALE as u128);
    let q: u128 = n / d;
    proof {
        let ci = c as int;
        let vi = v as int;
        let si = SCALE as int;
        assert(ci * vi * vi * vi <= ci * si * si * si) by (nonlinear_arith)
            requires
                0 <= ci,
                0 <= vi <= si,
        ;
        lemma_div_is_ordered(ci * vi * vi * vi, ci * si * si * si, si * si * si);
        lemma_div_multiples_vanish(ci, si * si * si);
        assert(ci * si * si * si == ci * (si * si * si)) by (nonlinear_arith);
    }
    q as i64
}

fn term4(c: i64, v: i64) -> (r: i64)
    requires
        0 <= c <= 16 * SCALE,
        0 <= v <= SCALE,
    ensures
        r == term4_spec(c as int, v as int),
        0 <= r <= c,
{
    proof {
        let ci = c as int;
        let vi = v as int;
        let si = SCALE as int;
        assert(SCALE as u128 == 1_000_000u128);
        assert(ci * vi <= 16 * si * si && ci * vi * vi <= 16 * si * si * si
            && ci * vi * vi * vi <= 16 * si * si * si * si
            && ci * vi * vi * vi * vi <= 16 * si * si * si * si * si) by (nonlinear_arith)
            requires
                0 <= ci <= 16 * si,
                0 <= vi <= si,
        ;
    }
    let n: u128 = (c as u128) * (v as u128) * (v as u128) * (v as u128) * (v as u128);
    let d: u128 = (SCALE as u128) * (SCALE as u128) * (SCALE as u128) * (SCALE as u128);
    let q: u128 = n / d;
    proof {
        let ci = c as int;
        let vi = v as int;
        let si = SCALE as int;
        assert(ci * vi * vi * vi * vi <= ci * si * si * si * si) by (nonlinear_arith)
            requires
                0 <= ci,
                0 <= vi <= si,
        ;
        lemma_div_is_ordered(
            ci * vi * vi * vi * vi,
            ci * si * si * si * si,
            si * si * si * si,
        );
        lemma_div_multiples_vanish(ci, si * si * si * si);
        assert(ci * si * si * si * si == ci * (si * si * si * si)) by (nonlinear_arith);
    }
    q as i64
}

fn term5(c: i64, v: i64) -> (r: i64)
    requires
        0 <= c <= 16 * SCALE,
        0 <= v <= SCALE,
    ensures
        r == term5_spec(c as int, v as int),
        0 <= r <= c,
{
    proof {
        let ci = c as int;
        let vi = v as int;
        let si = SCALE as int;
        assert(SCALE as u128 == 1_000_000u128);
        assert(ci * vi <= 16 * si * si && ci * vi * vi <= 16 * si * si * si
            && ci * vi * vi * vi <= 16 * si * si * si * si
            && ci * vi * vi * vi * vi <= 16 * si * si * si * si * si
            && ci * vi * vi * vi * vi * vi <= 16 * si * si * si * si * si * si)
            by (nonlinear_arith)
            requires
                0 <= ci <= 16 * si,
                0 <= vi <= si,
        ;
    }
    let n: u128 = (c as u128) * (v as u128) * (v as u128) * (v as u128) * (v as u128)
        * (v as u128);
    let d: u128 = (SCALE as u128) * (SCALE as u128) * (SCALE as u128) * (SCALE as u128)
        * (SCALE as u128);
    let q: u128 = n / d;
    proof {
        let ci = c as int;
        let vi = v as int;
        let si = SCALE as int;
        assert(ci * vi * vi * vi * vi * vi <= ci * si * si * si * si * si) by (nonlinear_arith)
            requires
                0 <= ci,
                0 <= vi <= si,
        ;
        lemma_div_is_ordered(
            ci * vi * vi * vi * vi * vi,
            ci * si * si * si * si * si,
            si * si * si * si * si,
        );
        lemma_div_multiples_vanish(ci, si * si * si * si * si);
        assert(ci * si * si * si * si * si == ci * (si * si * si * si * si))
            by (nonlinear_arith);
    }
    q as i64
}

/// Identity curve.
pub open spec fn linear_spec(v: int) -> int {
    v
}

pub fn linear(v: i64) -> (r: i64)
    requires
        0 <= v <= SCALE,
    ensures
        r == linear_spec(v as int),
{
    v
}

/// `v^2`.
pub open spec fn quadratic_in_spec(v: int) -> int {
    term2_spec(SCALE as int, v)
}

pub fn quadratic_in(v: i64) -> (r: i64)
    requires
        0 <= v <= SCALE,
    ensures
        r == quadratic_in_spec(v as int),
{
    term2(SCALE, v)
}

/// `1 - (1 - v)^2`.
pub open spec fn quadratic_out_spec(v: int) -> int {
    (SCALE as int) - term2_spec(SCALE as int, (SCALE as int) - v)
}

pub fn quadratic_out(v: i64) -> (r: i64)
    requires
        0 <= v <= SCALE,
    ensures
        r == quadratic_out_spec(v as int),
{
    SCALE - term2(SCALE, SCALE - v)
}

/// `2 v^2` below the midpoint, `1 - 2 (1 - v)^2` above it.
pub open spec fn quadratic_in_out_spec(v: int) -> int {
    if v < (SCALE as int) / 2 {
        term2_spec(2 * (SCALE as int), v)
    } else {
        (SCALE as int) - term2_spec(2 * (SCALE as int), (SCALE as int) - v)
    }
}

pub fn quadratic_in_out(v: i64) -> (r: i64)
    requires
        0 <= v <= SCALE,
    ensures
        r == quadratic_in_out_spec(v as int),
{
    if v < SCALE / 2 {
        term2(2 * SCALE, v)
    } else {
        SCALE - term2(2 * SCALE, SCALE - v)
    }
}

/// `v^3`.
pub open spec fn cubic_in_spec(v: int) -> int {
    term3_spec(SCALE as int, v)
}

pub fn cubic_in(v: i64) -> (r: i64)
    requires
        0 <= v <= SCALE,
    ensures
        r == cubic_in_spec(v as int),
{
    term3(SCALE, v)
}

/// `1 - (1 - v)^3`.
pub open spec fn cubic_out_spec(v: int) -> int {
    (SCALE as int) - term3_spec(SCALE as int, (SCALE as int) - v)
}

pub fn cubic_out(v: i64) -> (r: i64)
    requires
        0 <= v <= SCALE,
    ensures
        r == cubic_out_spec(v as int),
{
    SCALE - term3(SCALE, SCALE - v)
}

/// `4 v^3` below the midpoint, `1 - 4 (1 - v)^3` above it.
pub open spec fn cubic_in_out_spec(v: int) -> int {
    if v < (SCALE as int) / 2 {
        term3_spec(4 * (SCALE as int), v)
    } else {
        (SCALE as int) - term3_spec(4 * (SCALE as int), (SCALE as int) - v)
    }
}

pub fn cubic_in_out(v: i64) -> (r: i64)
    requires
        0 <= v <= SCALE,
    ensures
        r == cubic_in_out_spec(v as int),
{
    if v < SCALE / 2 {
        term3(4 * SCALE, v)
    } else {
        SCALE - term3(4 * SCALE, SCALE - v)
    }
}

/// `v^4`.
pub open spec fn quartic_in_spec(v: int) -> int {
    term4_spec(SCALE as int, v)
}

pub fn quartic_in(v: i64) -> (r: i64)
    requires
        0 <= v <= SCALE,
    ensures
        r == quartic_in_spec(v as int),
{
    term4(SCALE, v)
}

/// `1 - (1 - v)^4`.
pub open spec fn quartic_out_spec(v: int) -> int {
    (SCALE as int) - term4_spec(SCALE as int, (SCALE as int) - v)
}

pub fn quartic_out(v: i64) -> (r: i64)
    requires
        0 <= v <= SCALE,
    ensures
        r == quartic_out_spec(v as int),
{
    SCALE - term4(SCALE, SCALE - v)
}

/// `8 v^4` below the midpoint, `1 - 8 (1 - v)^4` above it.
pub open spec fn quartic_in_out_spec(v: int) -> int {
    if v < (SCALE as int) / 2 {
        term4_spec(8 * (SCALE as int), v)
    } else {
        (SCALE as int) - term4_spec(8 * (SCALE as int), (SCALE as int) - v)
    }
}

pub fn quartic_in_out(v: i64) -> (r: i64)
    requires
        0 <= v <= SCALE,
    ensures
        r == quartic_in_out_spec(v as int),
{
    if v < SCALE / 2 {
        term4(8 * SCALE, v)
    } else {
        SCALE - term4(8 * SCALE, SCALE - v)
    }
}

/// `v^5`.
pub open spec fn quintic_in_spec(v: int) -> int {
    term5_spec(SCALE as int, v)
}

pub fn quintic_in(v: i64) -> (r: i64)
    requires
        0 <= v <= SCALE,
    ensures
        r == quintic_in_spec(v as int),
{
    term5(SCALE, v)
}

/// `1 - (1 - v)^5`.
pub open spec fn quintic_out_spec(v: int) -> int {
    (SCALE as int) - term5_spec(SCALE as int, (SCALE as int) - v)
}

pub fn quintic_out(v: i64) -> (r: i64)
    requires
        0 <= v <= SCALE,
    ensures
        r == quintic_out_spec(v as int),
{
    SCALE - term5(SCALE, SCALE - v)
}

/// `16 v^5` below the midpoint, `1 - 16 (1 - v)^5` above it.
pub open spec fn quintic_in_out_spec(v: int) -> int {
    if v < (SCALE as int) / 2 {
        term5_spec(16 * (SCALE as int), v)
    } else {
        (SCALE as int) - term5_spec(16 * (SCALE as int), (SCALE as int) - v)
    }
}

pub fn quintic_in_out(v: i64) -> (r: i64)
    requires
        0 <= v <= SCALE,
    ensures
        r == quintic_in_out_spec(v as int),
{
    if v < SCALE / 2 {
        term5(16 * SCALE, v)
    } else {
        SCALE - term5(16 * SCALE, SCALE - v)
    }
}

/// Rational quarter-wave cosine: `4 (SCALE^2 - v^2) SCALE / (4 SCALE^2 + v^2)`
/// approximates `cos(v * pi / 2)` on `[0, SCALE]`; exact at both ends.
pub open spec fn cos_q_spec(v: int) -> int {
    let s = SCALE as int;
    (4 * (s * s - v * v) * s) / (4 * s * s + v * v)
}

fn cos_q(v: i64) -> (r: i64)
    requires
        0 <= v <= SCALE,
    ensures
        r == cos_q_spec(v as int),
        0 <= r <= SCALE,
{
    proof {
        let si = SCALE as int;
        let vi = v as int;
        assert(SCALE as u128 == 1_000_000u128);
        assert(vi * vi <= si * si) by (nonlinear_arith)
            requires
                0 <= vi <= si,
        ;
    }
    let vv: u128 = (v as u128) * (v as u128);
    let s: u128 = SCALE as u128;
    let num: u128 = 4 * (s * s - vv) * s;
    let den: u128 = 4 * s * s + vv;
    let q: u128 = num / den;
    proof {
        let si = SCALE as int;
        let vi = v as int;
        assert(4 * (si * si - vi * vi) * si <= (4 * si * si + vi * vi) * si)
            by (nonlinear_arith)
            requires
                0 <= vi * vi,
                0 < si,
        ;
        lemma_multiply_divide_le(
            4 * (si * si - vi * vi) * si,
            4 * si * si + vi * vi,
            si,
        );
    }
    q as i64
}

/// `1 - cos(v * pi / 2)`.
pub open spec fn sine_in_spec(v: int) -> int {
    (SCALE as int) - cos_q_spec(v)
}

pub fn sine_in(v: i64) -> (r: i64)
    requires
        0 <= v <= SCALE,
    ensures
        r == sine_in_spec(v as int),
{
    SCALE - cos_q(v)
}

/// `sin(v * pi / 2)`, i.e. `cos((1 - v) * pi / 2)`.
pub open spec fn sine_out_spec(v: int) -> int {
    cos_q_spec((SCALE as int) - v)
}

pub fn sine_out(v: i64) -> (r: i64)
    requires
        0 <= v <= SCALE,
    ensures
        r == sine_out_spec(v as int),
{
    cos_q(SCALE - v)
}

/// `(1 - cos(v * pi)) / 2`, folded onto the quarter-wave cosine.
pub open spec fn sine_in_out_spec(v: int) -> int {
    let s = SCALE as int;
    if v < s / 2 {
        (s - cos_q_spec(2 * v)) / 2
    } else {
        (s + cos_q_spec(2 * (s - v))) / 2
    }
}

pub fn sine_in_out(v: i64) -> (r: i64)
    requires
        0 <= v <= SCALE,
    ensures
        r == sine_in_out_spec(v as int),
{
    if v < SCALE / 2 {
        (((SCALE as u64) - (cos_q(2 * v) as u64)) / 2) as i64
    } else {
        (((SCALE as u64) + (cos_q(2 * (SCALE - v)) as u64)) / 2) as i64
    }
}

/// Floor of the square root, by its recursive definition.
pub open spec fn sqrt_floor(x: nat) -> nat
    decreases x,
{
    if x == 0 {
        0
    } else {
        let r = sqrt_floor((x - 1) as nat);
        if (r + 1) * (r + 1) <= x {
            (r + 1) as nat
        } else {
            r
        }
    }
}

/// The defining bracket of the integer square root.
pub proof fn lemma_sqrt_floor_bracket(x: nat)
    ensures
        sqrt_floor(x) * sqrt_floor(x) <= x,
        x < (sqrt_floor(x) + 1) * (sqrt_floor(x) + 1),
    decreases x,
{
    if x > 0 {
        lemma_sqrt_floor_bracket((x - 1) as nat);
        let r = sqrt_floor((x - 1) as nat);
        let rr = sqrt_floor(x);
        if (r + 1) * (r + 1) <= x {
            assert(rr == r + 1);
            assert(rr * rr <= x);
            assert(x < (rr + 1) * (rr + 1)) by (nonlinear_arith)
                requires
                    0 <= r,
                    x <= (r + 1) * (r + 1),
                    rr == r + 1,
            ;
        } else {
            assert(rr == r);
            assert(rr * rr <= x);
            assert(x < (rr + 1) * (rr + 1));
        }
    } else {
        let rr = sqrt_floor(x);
        assert(rr == 0);
        assert((rr + 1) * (rr + 1) >= 1) by (nonlinear_arith)
            requires
                rr >= 0,
        ;
    }
}

pub fn isqrt(x: u64) -> (r: u64)
    requires
        x <= 1_000_000_000_000,
    ensures
        r as nat == sqrt_floor(x as nat),
        (r as int) * (r as int) <= x as int,
        (x as int) < ((r as int) + 1) * ((r as int) + 1),
        r <= 1_000_000,
{
    let mut lo: u64 = 0;
    let mut hi: u64 = 1_000_001;
    while lo + 1 < hi
        invariant
            lo < hi <= 1_000_001,
            (lo as int) * (lo as int) <= x as int,
            (x as int) < (hi as int) * (hi as int),
            x <= 1_000_000_000_000,
        decreases hi - lo,
    {
        let mid: u64 = lo + (hi - lo) / 2;
        proof {
            assert((mid as int) * (mid as int) <= 1_000_001 * 1_000_001) by (nonlinear_arith)
                requires
                    0 <= mid as int <= 1_000_001,
            ;
        }
        let sq: u64 = mid * mid;
        if sq <= x {
            lo = mid;
        } else {
            hi = mid;
        }
    }
    proof {
        lemma_sqrt_floor_bracket(x as nat);
        let s = sqrt_floor(x as nat);
        assert(lo as int == s) by (nonlinear_arith)
            requires
                0 <= lo as int,
                0 <= s,
                (lo as int) * (lo as int) <= x as int,
                (x as int) < ((lo as int) + 1) * ((lo as int) + 1),
                s * s <= x as nat,
                (x as nat) < (s + 1) * (s + 1),
        ;
    }
    lo
}

/// `1 - sqrt(1 - v^2)`.
pub open spec fn circular_in_spec(v: int) -> int {
    let s = SCALE as int;
    s - sqrt_floor((s * s - v * v) as nat)
}

pub fn circular_in(v: i64) -> (r: i64)
    requires
        0 <= v <= SCALE,
    ensures
        r == circular_in_spec(v as int),
{
    proof {
        let si = SCALE as int;
        let vi = v as int;
        assert(SCALE as u64 == 1_000_000u64);
        assert(vi * vi <= si * si) by (nonlinear_arith)
            requires
                0 <= vi <= si,
        ;
    }
    let vv: u64 = (v as u64) * (v as u64);
    let s2: u64 = (SCALE as u64) * (SCALE as u64);
    let rt: u64 = isqrt(s2 - vv);
    SCALE - (rt as i64)
}

/// `sqrt(1 - (1 - v)^2)`, i.e. `sqrt((2 - v) v)`.
pub open spec fn circular_out_spec(v: int) -> int {
    let s = SCALE as int;
    sqrt_floor(((2 * s - v) * v) as nat) as int
}

pub fn circular_out(v: i64) -> (r: i64)
    requires
        0 <= v <= SCALE,
    ensures
        r == circular_out_spec(v as int),
{
    proof {
        let si = SCALE as int;
        let vi = v as int;
        assert(SCALE as u64 == 1_000_000u64);
        assert((2 * si - vi) * vi <= si * si) by (nonlinear_arith)
            requires
                0 <= vi <= si,
        ;
        assert(0 <= (2 * si - vi) * vi) by (nonlinear_arith)
            requires
                0 <= vi <= si,
        ;
    }
    let p: u64 = (2 * (SCALE as u64) - (v as u64)) * (v as u64);
    let rt: u64 = isqrt(p);
    rt as i64
}

/// The circular curve folded around the midpoint.
pub open spec fn circular_in_out_spec(v: int) -> int {
    let s = SCALE as int;
    if v < s / 2 {
        (s - sqrt_floor((s * s - 4 * v * v) as nat)) / 2
    } else {
        let w = 2 * (s - v);
        (s + sqrt_floor((s * s - w * w) as nat)) / 2
    }
}

pub fn circular_in_out(v: i64) -> (r: i64)
    requires
        0 <= v <= SCALE,
    ensures
        r == circular_in_out_spec(v as int),
{
    proof {
        assert(SCALE as u64 == 1_000_000u64);
    }
    if v < SCALE / 2 {
        proof {
            let si = SCALE as int;
            let vi = v as int;
            assert(4 * vi * vi <= si * si) by (nonlinear_arith)
                requires
                    0 <= 2 * vi <= si,
            ;
            assert((2 * vi) * (2 * vi) == 4 * vi * vi) by (nonlinear_arith);
        }
        let w: u64 = 2 * (v as u64);
        let rt: u64 = isqrt((SCALE as u64) * (SCALE as u64) - w * w);
        (((SCALE as u64) - rt) / 2) as i64
    } else {
        proof {
            let si = SCALE as int;
            let wi = 2 * (si - v as int);
            assert(wi * wi <= si * si) by (nonlinear_arith)
                requires
                    0 <= wi <= si,
            ;
        }
        let w: u64 = 2 * ((SCALE - v) as u64);
        let rt: u64 = isqrt((SCALE as u64) * (SCALE as u64) - w * w);
        (((SCALE as u64) + rt) / 2) as i64
    }
}

/// Rational `2^(-f)` for a fractional exponent `0 <= f < SCALE`:
/// `SCALE^3 / (SCALE^2 + 656500 f + 343500 f^2 / SCALE)`, the reciprocal of
/// a quadratic fit of `2^f` that is exact at both ends of the octave.
pub open spec fn exp2_frac_spec(f: int) -> int {
    let s = SCALE as int;
    (s * s * s) / (s * s + 656_500 * f + (343_500 * f * f) / s)
}

fn exp2_frac(f: i64) -> (r: i64)
    requires
        0 <= f < SCALE,
    ensures
        r == exp2_frac_spec(f as int),
        0 <= r <= SCALE,
{
    proof {
        let si = SCALE as int;
        let fi = f as int;
        assert(SCALE as u64 == 1_000_000u64);
        assert(343_500 * fi * fi <= 343_500 * si * si) by (nonlinear_arith)
            requires
                0 <= fi <= si,
        ;
    }
    let s: u64 = SCALE as u64;
    let fu: u64 = f as u64;
    let c2: u64 = (343_500 * fu * fu) / s;
    let p: u64 = s * s + 656_500 * fu + c2;
    let e: u64 = 1_000_000_000_000_000_000u64 / p;
    proof {
        let si = SCALE as int;
        let fi = f as int;
        assert(si * si * si == 1_000_000_000_000_000_000) by (nonlinear_arith)
            requires
                si == 1_000_000,
        ;
        assert(si * si <= p as int);
        lemma_div_is_ordered_by_denominator(si * si * si, si * si, p as int);
        lemma_div_multiples_vanish(si, si * si);
        assert(si * (si * si) == si * si * si) by (nonlinear_arith);
    }
    e as i64
}

/// `2^(-x)` for a fixed-point exponent `0 <= x <= 10`: the integer part
/// shifts, the fractional part goes through [`exp2_frac_spec`].
pub open spec fn exp2neg_spec(x: int) -> int {
    let s = SCALE as int;
    exp2_frac_spec(x % s) / (pow2((x / s) as nat) as int)
}

fn exp2neg(x: u64) -> (r: i64)
    requires
        x <= 10 * 1_000_000,
    ensures
        r == exp2neg_spec(x as int),
        0 <= r <= SCALE,
{
    proof {
        assert(SCALE as u64 == 1_000_000u64);
    }
    let k: u64 = x / (SCALE as u64);
    let f: u64 = x % (SCALE as u64);
    let e: i64 = exp2_frac(f as i64);
    let d: u64 = if k == 0 {
        1
    } else if k == 1 {
        2
    } else if k == 2 {
        4
    } else if k == 3 {
        8
    } else if k == 4 {
        16
    } else if k == 5 {
        32
    } else if k == 6 {
        64
    } else if k == 7 {
        128
    } else if k == 8 {
        256
    } else if k == 9 {
        512
    } else {
        1024
    };
    proof {
        lemma2_to64();
        lemma_div_is_ordered(x as int, 10 * 1_000_000int, SCALE as int);
        assert(d as int == pow2((k as int) as nat) as int);
        lemma_div_basics(e as int);
        lemma_div_is_ordered_by_denominator(e as int, 1, d as int);
    }
    ((e as u64) / d) as i64
}

/// Rational half-wave sine: `32 u SCALE / (5 SCALE^2 - 8 u)` with
/// `u = t (SCALE - 2 t)` approximates `sin(2 pi t / SCALE)` for a turn
/// fraction `0 <= t <= SCALE / 2`; exact at `0`, the quarter turn, and the
/// half turn.
pub open spec fn sin_half_spec(t: int) -> int {
    let s = SCALE as int;
    let u = t * (s - 2 * t);
    (32 * u * s) / (5 * s * s - 8 * u)
}

fn sin_half(t: i64) -> (r: i64)
    requires
        0 <= 2 * t <= SCALE,
    ensures
        r == sin_half_spec(t as int),
        0 <= r <= SCALE,
{
    proof {
        let si = SCALE as int;
        let ti = t as int;
        assert(SCALE as u64 == 1_000_000u64);
        assert(SCALE as u128 == 1_000_000u128);
        assert(0 <= ti * (si - 2 * ti) && 8 * (ti * (si - 2 * ti)) <= si * si)
            by (nonlinear_arith)
            requires
                0 <= 2 * ti <= si,
        ;
    }
    let tu: u64 = t as u64;
    let u: u64 = tu * ((SCALE as u64) - 2 * tu);
    let num: u128 = 32 * (u as u128) * (SCALE as u128);
    let den: u128 = 5 * (SCALE as u128) * (SCALE as u128) - 8 * (u as u128);
    let q: u128 = num / den;
    proof {
        let si = SCALE as int;
        let ui = u as int;
        assert(32 * ui * si <= (5 * si * si - 8 * ui) * si) by (nonlinear_arith)
            requires
                0 <= ui,
                8 * ui <= si * si,
                0 < si,
        ;
        lemma_multiply_divide_le(32 * ui * si, 5 * si * si - 8 * ui, si);
    }
    q as i64
}

/// `amp * sin(2 pi t / SCALE) / den` for a turn fraction `0 <= t < SCALE`,
/// the second half of the turn carrying the negative sign.
pub open spec fn elastic_wave_spec(amp: int, t: int, den: int) -> int {
    let s = SCALE as int;
    if 2 * t <= s {
        (amp * sin_half_spec(t)) / den
    } else {
        -((amp * sin_half_spec(t - s / 2)) / den)
    }
}

fn muldiv(a: u64, b: u64, d: u64) -> (r: u64)
    requires
        a <= SCALE as u64,
        b <= SCALE as u64,
        SCALE as u64 <= d,
    ensures
        r as int == ((a as int) * (b as int)) / (d as int),
        r <= SCALE as u64,
{
    proof {
        let ai = a as int;
        let bi = b as int;
        let di = d as int;
        assert(SCALE as u64 == 1_000_000u64);
        assert(ai * bi <= di * 1_000_000 && 0 <= ai * bi) by (nonlinear_arith)
            requires
                0 <= ai <= 1_000_000,
                0 <= bi <= 1_000_000,
                1_000_000 <= di,
        ;
        lemma_multiply_divide_le(ai * bi, di, 1_000_000);
    }
    let n: u128 = (a as u128) * (b as u128);
    (n / (d as u128)) as u64
}

fn elastic_wave(amp: i64, t: i64, den: i64) -> (r: i64)
    requires
        0 <= amp <= SCALE,
        0 <= t < SCALE,
        den == SCALE || den == 2 * SCALE,
    ensures
        r == elastic_wave_spec(amp as int, t as int, den as int),
        -SCALE <= r <= SCALE,
{
    if 2 * t <= SCALE {
        let w: u64 = muldiv(amp as u64, sin_half(t) as u64, den as u64);
        w as i64
    } else {
        let w: u64 = muldiv(amp as u64, sin_half(t - SCALE / 2) as u64, den as u64);
        -(w as i64)
    }
}

/// `-2^(10 v - 10) * sin((10 v - 10.75) * 2 pi / 3)`, with the endpoints
/// pinned to `0` and `SCALE`. The angle is carried as a turn fraction,
/// `(10.75 - 10 v) / 3` of a turn, reduced into a single turn.
pub open spec fn elastic_in_spec(v: int) -> int {
    let s = SCALE as int;
    if v == 0 {
        0
    } else if v == s {
        s
    } else {
        elastic_wave_spec(
            exp2neg_spec(10 * (s - v)),
            ((43 * s / 4 - 10 * v) / 3) % s,
            s,
        )
    }
}

pub fn elastic_in(v: i64) -> (r: i64)
    requires
        0 <= v <= SCALE,
    ensures
        r == elastic_in_spec(v as int),
{
    if v == 0 {
        0
    } else if v == SCALE {
        SCALE
    } else {
        let amp: i64 = exp2neg((10 * (SCALE - v)) as u64);
        let t: u64 = ((43 * (SCALE as u64) / 4 - 10 * (v as u64)) / 3) % (SCALE as u64);
        elastic_wave(amp, t as i64, SCALE)
    }
}

/// `2^(-10 v) * sin((10 v - 0.75) * 2 pi / 3) + 1`, with the endpoints
/// pinned; the turn fraction `(10 v - 0.75) / 3` is shifted by a whole turn
/// to stay nonnegative before reduction.
pub open spec fn elastic_out_spec(v: int) -> int {
    let s = SCALE as int;
    if v == 0 {
        0
    } else if v == s {
        s
    } else {
        s + elastic_wave_spec(exp2neg_spec(10 * v), ((40 * v + 9 * s) / 12) % s, s)
    }
}

pub fn elastic_out(v: i64) -> (r: i64)
    requires
        0 <= v <= SCALE,
    ensures
        r == elastic_out_spec(v as int),
{
    if v == 0 {
        0
    } else if v == SCALE {
        SCALE
    } else {
        let amp: i64 = exp2neg((10 * v) as u64);
        let t: u64 = ((40 * (v as u64) + 9 * (SCALE as u64)) / 12) % (SCALE as u64);
        SCALE + elastic_wave(amp, t as i64, SCALE)
    }
}

/// The elastic curve folded around the midpoint; the turn fraction
/// `(20 v - 11.125) / 4.5` is shifted by three whole turns to stay
/// nonnegative before reduction.
pub open spec fn elastic_in_out_spec(v: int) -> int {
    let s = SCALE as int;
    if v == 0 {
        0
    } else if v == s {
        s
    } else {
        let t = ((160 * v + 19 * s) / 36) % s;
        if 2 * v < s {
            -elastic_wave_spec(exp2neg_spec(10 * s - 20 * v), t, 2 * s)
        } else {
            s + elastic_wave_spec(exp2neg_spec(20 * v - 10 * s), t, 2 * s)
        }
    }
}

pub fn elastic_in_out(v: i64) -> (r: i64)
    requires
        0 <= v <= SCALE,
    ensures
        r == elastic_in_out_spec(v as int),
{
    if v == 0 {
        0
    } else if v == SCALE {
        SCALE
    } else {
        let t: u64 = ((160 * (v as u64) + 19 * (SCALE as u64)) / 36) % (SCALE as u64);
        if 2 * v < SCALE {
            let amp: i64 = exp2neg((10 * SCALE - 20 * v) as u64);
            -elastic_wave(amp, t as i64, 2 * SCALE)
        } else {
            let amp: i64 = exp2neg((20 * v - 10 * SCALE) as u64);
            SCALE + elastic_wave(amp, t as i64, 2 * SCALE)
        }
    }
}

/// `1.70158`, the standard back-overshoot weight, in `SCALE` units.
pub const BACK_C1: i64 = 1_701_580;

/// `BACK_C1` plus one.
pub const BACK_C3: i64 = 2_701_580;

/// Half of the in-out back weight plus one half: `(1.525 * 1.70158 + 1) / 2`.
pub const BACK_IO_A: i64 = 1_797_455;

/// Half of the in-out back weight: `1.525 * 1.70158 / 2`.
pub const BACK_IO_B: i64 = 1_297_455;

/// `(BACK_C1 + 1) v^3 - BACK_C1 v^2`: overshoots below zero on the way in.
pub open spec fn back_in_spec(v: int) -> int {
    term3_spec(BACK_C3 as int, v) - term2_spec(BACK_C1 as int, v)
}

pub fn back_in(v: i64) -> (r: i64)
    requires
        0 <= v <= SCALE,
    ensures
        r == back_in_spec(v as int),
{
    term3(BACK_C3, v) - term2(BACK_C1, v)
}

/// The reflection of [`back_in_spec`].
pub open spec fn back_out_spec(v: int) -> int {
    let s = SCALE as int;
    s - term3_spec(BACK_C3 as int, s - v) + term2_spec(BACK_C1 as int, s - v)
}

pub fn back_out(v: i64) -> (r: i64)
    requires
        0 <= v <= SCALE,
    ensures
        r == back_out_spec(v as int),
{
    SCALE - term3(BACK_C3, SCALE - v) + term2(BACK_C1, SCALE - v)
}

/// The back curve folded around the midpoint, with the steeper in-out
/// weight.
pub open spec fn back_in_out_spec(v: int) -> int {
    let s = SCALE as int;
    if 2 * v < s {
        term3_spec(BACK_IO_A as int, 2 * v) - term2_spec(BACK_IO_B as int, 2 * v)
    } else {
        let w = 2 * (s - v);
        s + term2_spec(BACK_IO_B as int, w) - term3_spec(BACK_IO_A as int, w)
    }
}

pub fn back_in_out(v: i64) -> (r: i64)
    requires
        0 <= v <= SCALE,
    ensures
        r == back_in_out_spec(v as int),
{
    if 2 * v < SCALE {
        term3(BACK_IO_A, 2 * v) - term2(BACK_IO_B, 2 * v)
    } else {
        let w = 2 * (SCALE - v);
        SCALE + term2(BACK_IO_B, w) - term3(BACK_IO_A, w)
    }
}

fn sq_div(a: i64, d: u64) -> (r: i64)
    requires
        -22 * SCALE <= a <= 22 * SCALE,
        16 * (SCALE as u64) <= d,
    ensures
        r == ((a as int) * (a as int)) / (d as int),
        0 <= r,
{
    proof {
        let ai = a as int;
        assert(0 <= ai * ai && ai * ai <= 484_000_000_000_000) by (nonlinear_arith)
            requires
                -22_000_000 <= ai <= 22_000_000,
        ;
        assert(SCALE as u64 == 1_000_000u64);
    }
    let p: i64 = a * a;
    let q: u64 = (p as u64) / d;
    proof {
        lemma_div_basics(p as int);
        lemma_div_is_ordered_by_denominator(p as int, 1, d as int);
    }
    q as i64
}

/// The piecewise bouncing parabola, with arc boundaries at `4/11`, `8/11`
/// and `10/11` and offsets of `3/4`, `15/16` and `63/64` of `SCALE`.
pub open spec fn bounce_out_spec(v: int) -> int {
    let s = SCALE as int;
    if 11 * v < 4 * s {
        ((11 * v) * (11 * v)) / (16 * s)
    } else if 11 * v < 8 * s {
        ((11 * v - 6 * s) * (11 * v - 6 * s)) / (16 * s) + 750_000
    } else if 11 * v < 10 * s {
        ((11 * v - 9 * s) * (11 * v - 9 * s)) / (16 * s) + 937_500
    } else {
        ((22 * v - 21 * s) * (22 * v - 21 * s)) / (64 * s) + 984_375
    }
}

pub fn bounce_out(v: i64) -> (r: i64)
    requires
        0 <= v <= SCALE,
    ensures
        r == bounce_out_spec(v as int),
        0 <= r <= SCALE,
{
    proof {
        assert(SCALE as u64 == 1_000_000u64);
    }
    if 11 * v < 4 * SCALE {
        let q = sq_div(11 * v, 16 * (SCALE as u64));
        proof {
            let si = SCALE as int;
            let ai = 11 * (v as int);
            assert(ai * ai <= (16 * si) * si) by (nonlinear_arith)
                requires
                    0 <= ai,
                    ai < 4 * si,
                    si == 1_000_000,
            ;
            lemma_multiply_divide_le(ai * ai, 16 * si, si);
        }
        q
    } else if 11 * v < 8 * SCALE {
        let q = sq_div(11 * v - 6 * SCALE, 16 * (SCALE as u64));
        proof {
            let si = SCALE as int;
            let ai = 11 * (v as int) - 6 * si;
            assert(ai * ai <= (16 * si) * 250_000) by (nonlinear_arith)
                requires
                    -2 * si <= ai <= 2 * si,
                    si == 1_000_000,
            ;
            lemma_multiply_divide_le(ai * ai, 16 * si, 250_000);
        }
        q + 750_000
    } else if 11 * v < 10 * SCALE {
        let q = sq_div(11 * v - 9 * SCALE, 16 * (SCALE as u64));
        proof {
            let si = SCALE as int;
            let ai = 11 * (v as int) - 9 * si;
            assert(ai * ai <= (16 * si) * 62_500) by (nonlinear_arith)
                requires
                    -si <= ai <= si,
                    si == 1_000_000,
            ;
            lemma_multiply_divide_le(ai * ai, 16 * si, 62_500);
        }
        q + 937_500
    } else {
        let q = sq_div(22 * v - 21 * SCALE, 64 * (SCALE as u64));
        proof {
            let si = SCALE as int;
            let ai = 22 * (v as int) - 21 * si;
            assert(ai * ai <= (64 * si) * 15_625) by (nonlinear_arith)
                requires
                    -si <= ai <= si,
                    si == 1_000_000,
            ;
            lemma_multiply_divide_le(ai * ai, 64 * si, 15_625);
        }
        q + 984_375
    }
}

/// The reflection of [`bounce_out_spec`].
pub open spec fn bounce_in_spec(v: int) -> int {
    (SCALE as int) - bounce_out_spec((SCALE as int) - v)
}

pub fn bounce_in(v: i64) -> (r: i64)
    requires
        0 <= v <= SCALE,
    ensures
        r == bounce_in_spec(v as int),
{
    SCALE - bounce_out(SCALE - v)
}

/// The bounce folded around the midpoint.
pub open spec fn bounce_in_out_spec(v: int) -> int {
    let s = SCALE as int;
    if 2 * v < s {
        (s - bounce_out_spec(s - 2 * v)) / 2
    } else {
        (s + bounce_out_spec(2 * v - s)) / 2
    }
}

pub fn bounce_in_out(v: i64) -> (r: i64)
    requires
        0 <= v <= SCALE,
    ensures
        r == bounce_in_out_spec(v as int),
{
    if 2 * v < SCALE {
        let b = bounce_out(SCALE - 2 * v);
        (((SCALE as u64) - (b as u64)) / 2) as i64
    } else {
        let b = bounce_out(2 * v - SCALE);
        (((SCALE as u64) + (b as u64)) / 2) as i64
    }
}

/// `2^(10 v - 10)`, with the mandatory zero at `v == 0`.
pub open spec fn exponential_in_spec(v: int) -> int {
    if v == 0 {
        0
    } else {
        exp2neg_spec(10 * ((SCALE as int) - v))
    }
}

pub fn exponential_in(v: i64) -> (r: i64)
    requires
        0 <= v <= SCALE,
    ensures
        r == exponential_in_spec(v as int),
{
    if v == 0 {
        0
    } else {
        exp2neg((10 * (SCALE - v)) as u64)
    }
}

/// `1 - 2^(-10 v)`, with the mandatory one at `v == SCALE`.
pub open spec fn exponential_out_spec(v: int) -> int {
    if v == SCALE as int {
        SCALE as int
    } else {
        (SCALE as int) - exp2neg_spec(10 * v)
    }
}

pub fn exponential_out(v: i64) -> (r: i64)
    requires
        0 <= v <= SCALE,
    ensures
        r == exponential_out_spec(v as int),
{
    if v == SCALE {
        SCALE
    } else {
        SCALE - exp2neg((10 * v) as u64)
    }
}

/// `2^(20 v - 10) / 2` below the midpoint, `1 - 2^(10 - 20 v) / 2` above.
pub open spec fn exponential_in_out_spec(v: int) -> int {
    let s = SCALE as int;
    if v == 0 {
        0
    } else if v == s {
        s
    } else if 2 * v < s {
        exp2neg_spec(10 * s - 20 * v) / 2
    } else {
        s - exp2neg_spec(20 * v - 10 * s) / 2
    }
}

pub fn exponential_in_out(v: i64) -> (r: i64)
    requires
        0 <= v <= SCALE,
    ensures
        r == exponential_in_out_spec(v as int),
{
    if v == 0 {
        0
    } else if v == SCALE {
        SCALE
    } else if 2 * v < SCALE {
        let e: i64 = exp2neg((10 * SCALE - 20 * v) as u64);
        ((e as u64) / 2) as i64
    } else {
        let e: i64 = exp2neg((20 * v - 10 * SCALE) as u64);
        SCALE - ((e as u64) / 2) as i64
    }
}

/// `a / b == q` whenever the division is exact.
pub proof fn lemma_div_exact(a: int, b: int, q: int)
    requires
        b > 0,
        a == b * q,
    ensures
        a / b == q,
{
    assert(b * q == q * b) by (nonlinear_arith);
    lemma_fundamental_div_mod_converse_div(a, b, q, 0);
}

/// Half of the fixed-point unit, as a plain number.
pub proof fn lemma_half_scale()
    ensures
        (SCALE as int) / 2 == 500_000,
{
    assert(1_000_000int == 2 * 500_000) by (nonlinear_arith);
    lemma_div_exact(SCALE as int, 2, 500_000);
}

/// The square root of the square of the unit.
pub proof fn lemma_sqrt_unit()
    ensures
        sqrt_floor(1_000_000_000_000nat) == 1_000_000,
{
    lemma_sqrt_floor_bracket(1_000_000_000_000nat);
    let s = sqrt_floor(1_000_000_000_000nat);
    assert(s == 1_000_000) by (nonlinear_arith)
        requires
            s * s <= 1_000_000_000_000,
            1_000_000_000_000 < (s + 1) * (s + 1),
            0 <= s,
    ;
}

/// Endpoint values of the weighted power terms.
pub proof fn lemma_term_ends(c: int)
    requires
        0 <= c,
    ensures
        term2_spec(c, 0) == 0,
        term3_spec(c, 0) == 0,
        term4_spec(c, 0) == 0,
        term5_spec(c, 0) == 0,
        term2_spec(c, SCALE as int) == c,
        term3_spec(c, SCALE as int) == c,
        term4_spec(c, SCALE as int) == c,
        term5_spec(c, SCALE as int) == c,
{
    let s = SCALE as int;
    assert(c * 0 * 0 == 0 && c * 0 * 0 * 0 == 0 && c * 0 * 0 * 0 * 0 == 0
        && c * 0 * 0 * 0 * 0 * 0 == 0 && s * s > 0 && s * s * s > 0 && s * s * s * s > 0
        && s * s * s * s * s > 0 && c * s * s == (s * s) * c
        && c * s * s * s == (s * s * s) * c && c * s * s * s * s == (s * s * s * s) * c
        && c * s * s * s * s * s == (s * s * s * s * s) * c) by (nonlinear_arith)
        requires
            s == 1_000_000,
            0 <= c,
    ;
    lemma_div_of0(s * s);
    lemma_div_of0(s * s * s);
    lemma_div_of0(s * s * s * s);
    lemma_div_of0(s * s * s * s * s);
    lemma_div_exact(c * s * s, s * s, c);
    lemma_div_exact(c * s * s * s, s * s * s, c);
    lemma_div_exact(c * s * s * s * s, s * s * s * s, c);
    lemma_div_exact(c * s * s * s * s * s, s * s * s * s * s, c);
}

/// Midpoint values of the doubled power terms used by the in-out variants.
pub proof fn lemma_term_mids()
    ensures
        term2_spec(2 * (SCALE as int), 500_000) == 500_000,
        term3_spec(4 * (SCALE as int), 500_000) == 500_000,
        term4_spec(8 * (SCALE as int), 500_000) == 500_000,
        term5_spec(16 * (SCALE as int), 500_000) == 500_000,
        term3_spec(BACK_IO_A as int, 1_000_000) == BACK_IO_A as int,
        term2_spec(BACK_IO_B as int, 1_000_000) == BACK_IO_B as int,
{
    let s = SCALE as int;
    assert((2 * s) * 500_000 * 500_000 == (s * s) * 500_000
        && (4 * s) * 500_000 * 500_000 * 500_000 == (s * s * s) * 500_000
        && (8 * s) * 500_000 * 500_000 * 500_000 * 500_000 == (s * s * s * s) * 500_000
        && (16 * s) * 500_000 * 500_000 * 500_000 * 500_000 * 500_000
            == (s * s * s * s * s) * 500_000
        && s * s > 0 && s * s * s > 0 && s * s * s * s > 0 && s * s * s * s * s > 0)
        by (nonlinear_arith)
        requires
            s == 1_000_000,
    ;
    lemma_div_exact((2 * s) * 500_000 * 500_000, s * s, 500_000);
    lemma_div_exact((4 * s) * 500_000 * 500_000 * 500_000, s * s * s, 500_000);
    lemma_div_exact((8 * s) * 500_000 * 500_000 * 500_000 * 500_000, s * s * s * s, 500_000);
    lemma_div_exact(
        (16 * s) * 500_000 * 500_000 * 500_000 * 500_000 * 500_000,
        s * s * s * s * s,
        500_000,
    );
    lemma_term_ends(BACK_IO_A as int);
    lemma_term_ends(BACK_IO_B as int);
}

/// Endpoint values of the rational quarter-wave cosine.
pub proof fn lemma_cos_q_ends()
    ensures
        cos_q_spec(0) == SCALE as int,
        cos_q_spec(SCALE as int) == 0,
{
    let s = SCALE as int;
    assert(4 * (s * s - 0 * 0) * s == (4 * s * s + 0 * 0) * s && 4 * s * s + 0 * 0 > 0
        && 4 * (s * s - s * s) * s == 0 && 4 * s * s + s * s > 0) by (nonlinear_arith)
        requires
            s == 1_000_000,
    ;
    lemma_div_exact(4 * (s * s - 0 * 0) * s, 4 * s * s + 0 * 0, s);
    lemma_div_of0(4 * s * s + s * s);
}

/// The rational half-wave sine peaks at exactly one on the quarter turn.
pub proof fn lemma_sin_half_quarter()
    ensures
        sin_half_spec(250_000) == SCALE as int,
{
    let s = SCALE as int;
    let u = 250_000 * (s - 2 * 250_000);
    assert(250_000 * (s - 2 * 250_000) == 250_000 * 500_000
        && 32 * (250_000 * 500_000) * s == (5 * s * s - 8 * (250_000 * 500_000)) * s
        && 5 * s * s - 8 * (250_000 * 500_000) > 0) by (nonlinear_arith)
        requires
            s == 1_000_000,
    ;
    lemma_div_exact(32 * u * s, 5 * s * s - 8 * u, s);
}

/// Endpoint values of the bouncing parabola.
pub proof fn lemma_bounce_out_ends()
    ensures
        bounce_out_spec(0) == 0,
        bounce_out_spec(SCALE as int) == SCALE as int,
{
    let s = SCALE as int;
    assert((11 * 0) * (11 * 0) == 0 && 16 * s > 0 && 64 * s > 0
        && (22 * s - 21 * s) * (22 * s - 21 * s) == (64 * s) * 15_625) by (nonlinear_arith)
        requires
            s == 1_000_000,
    ;
    lemma_div_of0(16 * s);
    lemma_div_exact((22 * s - 21 * s) * (22 * s - 21 * s), 64 * s, 15_625);
}

/// `2^(-0)` is exactly one.
pub proof fn lemma_exp2neg_zero()
    ensures
        exp2neg_spec(0) == SCALE as int,
{
    let s = SCALE as int;
    lemma_div_of0(s);
    assert(0int % s == 0) by {
        lemma_fundamental_div_mod_converse_mod(0, s, 0, 0);
        assert(0int == 0 * s + 0) by (nonlinear_arith);
    }
    assert(656_500 * 0int == 0 && 343_500 * 0int * 0 == 0 && s * s * s == (s * s) * s
        && s * s > 0) by (nonlinear_arith)
        requires
            s == 1_000_000,
    ;
    lemma_div_exact(s * s * s, s * s, s);
    assert(exp2_frac_spec(0) == s);
    lemma2_to64();
    lemma_div_basics(s);
}

} // verus!
