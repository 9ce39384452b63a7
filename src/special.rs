//! The three formulas of special relativity, in exact fixed-point arithmetic.
//!
//! Speeds are measured in units of one ten-thousandth of the speed of light,
//! so the speed of light itself is [`C`]; a negative speed is motion the
//! other way. Dimensionless factors, times and lengths are fixed-point numbers
//! with [`UNIT`] standing for `1`. Every result is rounded down, so a quantity
//! smaller than the resolution can come out as zero.

use vstd::prelude::*;
use crate::arith::{
    floor_sqrt, integer_sqrt, lemma_floor_sqrt_monotone, lemma_floor_sqrt_of_square,
};

verus! {

/// The speed of light, in the speed unit of this library (c / 10000).
pub const C: u64 = 10_000;

/// The fixed-point representation of `1` for factors, times and lengths.
pub const UNIT: u64 = 1_000_000;

/// A speed strictly below that of light, in either direction.
pub open spec fn below_light(v: int) -> bool {
    -C < v < C
}

/// `c² - v²`, in squared speed units: `c² (1 - β²)`.
pub open spec fn rest_deficit(v: int) -> int {
    C * C - v * v
}

/// The Lorentz factor at speed `v`, scaled by `UNIT` and rounded down:
/// `floor(UNIT / sqrt(1 - v²/c²))`, written as the square root of
/// `UNIT² c² / (c² - v²)`.
pub open spec fn lorentz_spec(v: int) -> nat {
    floor_sqrt(((UNIT * UNIT * C * C) / rest_deficit(v)) as nat)
}

/// The dilated time `proper_time * gamma`, with both in fixed point.
pub open spec fn dilation_spec(proper_time: nat, gamma: nat) -> nat {
    proper_time * gamma / (UNIT as nat)
}

/// Whether the time dilated from `proper_time` at speed `v` fits in 64 bits.
pub open spec fn time_fits(proper_time: u64, v: int) -> bool {
    dilation_spec(proper_time as nat, lorentz_spec(v)) <= u64::MAX
}

/// The contracted length `proper_length / gamma`, with both in fixed point.
pub open spec fn contraction_spec(proper_length: nat, gamma: nat) -> nat {
    proper_length * (UNIT as nat) / gamma
}

/// Below the speed of light the deficit `c² - v²` is positive and at most `c²`.
proof fn lemma_deficit_range(v: int)
    requires
        below_light(v),
    ensures
        0 <= v * v < C * C,
        1 <= rest_deficit(v) <= C * C,
{
    assert(0 <= v * v < C * C) by (nonlinear_arith)
        requires
            -C < v < C,
    ;
}

/// The fixed-point Lorentz factor lies between `1` and `c` (as `UNIT * C`).
pub proof fn lemma_lorentz_range(v: int)
    requires
        below_light(v),
    ensures
        UNIT <= lorentz_spec(v) <= UNIT * C,
{
    let num: int = UNIT * UNIT * C * C;
    let den = rest_deficit(v);
    lemma_deficit_range(v);
    vstd::arithmetic::div_mod::lemma_div_is_ordered_by_denominator(num, den, (C * C) as int);
    assert(num / (C * C) as int == UNIT * UNIT);
    assert(num / den <= num) by {
        vstd::arithmetic::div_mod::lemma_div_is_ordered_by_denominator(num, 1, den);
    }
    lemma_floor_sqrt_monotone((UNIT * UNIT) as nat, (num / den) as nat);
    lemma_floor_sqrt_monotone((num / den) as nat, num as nat);
    lemma_floor_sqrt_of_square(UNIT as nat);
    assert(num == (UNIT * C) * (UNIT * C)) by (nonlinear_arith)
        requires
            num == UNIT * UNIT * C * C,
    ;
    lemma_floor_sqrt_of_square((UNIT * C) as nat);
}

/// Dividing by a factor of at least one never lengthens.
pub proof fn lemma_contraction_at_most(proper_length: nat, gamma: nat)
    requires
        gamma >= UNIT,
    ensures
        contraction_spec(proper_length, gamma) <= proper_length,
{
    let p: int = proper_length * UNIT;
    vstd::arithmetic::div_mod::lemma_div_is_ordered_by_denominator(p, UNIT as int, gamma as int);
    vstd::arithmetic::div_mod::lemma_div_multiples_vanish(proper_length as int, UNIT as int);
    assert(UNIT * proper_length == p) by (nonlinear_arith)
        requires
            p == proper_length * UNIT,
    ;
}

/// A larger factor dilates a time at least as much.
pub proof fn lemma_dilation_monotone(proper_time: nat, g1: nat, g2: nat)
    requires
        g1 <= g2,
    ensures
        dilation_spec(proper_time, g1) <= dilation_spec(proper_time, g2),
{
    assert(proper_time * g1 <= proper_time * g2) by (nonlinear_arith)
        requires
            g1 <= g2,
    ;
    vstd::arithmetic::div_mod::lemma_div_is_ordered(
        (proper_time * g1) as int,
        (proper_time * g2) as int,
        UNIT as int,
    );
}

/// Lorentz factor `γ = 1 / sqrt(1 - v²/c²)` at speed `v`, as a fixed-point
/// number rounded down. The speed must be below that of light.
pub fn lorentz_factor(v: i64) -> (gamma: u64)
    requires
        below_light(v as int),
    ensures
        gamma as nat == lorentz_spec(v as int),
        UNIT <= gamma <= UNIT * C,
{
    let c2: u128 = (C as u128) * (C as u128);
    assert(UNIT * UNIT * c2 == 100_000_000_000_000_000_000) by (nonlinear_arith)
        requires
            c2 == C * C,
            C == 10_000,
            UNIT == 1_000_000,
    ;
    let num: u128 = (UNIT as u128) * (UNIT as u128) * c2;
    let speed: u128 = if v < 0 {
        (0 - (v as i128)) as u128
    } else {
        v as u128
    };
    proof {
        lemma_deficit_range(v as int);
    }
    assert(speed * speed == v * v) by (nonlinear_arith)
        requires
            speed == v || speed == -v,
    ;
    let den: u128 = c2 - speed * speed;
    let gamma = integer_sqrt(num / den);
    proof {
        lemma_lorentz_range(v as int);
    }
    gamma
}

/// Time dilation: the proper time multiplied by the Lorentz factor, both in
/// fixed point, rounded down. The result must fit in 64 bits.
pub fn time_dilation(proper_time: u64, gamma: u64) -> (dilated: u64)
    requires
        dilation_spec(proper_time as nat, gamma as nat) <= u64::MAX,
    ensures
        dilated as nat == dilation_spec(proper_time as nat, gamma as nat),
{
    assert((proper_time as u128) * (gamma as u128) <= u128::MAX) by (nonlinear_arith)
        requires
            proper_time <= u64::MAX,
            gamma <= u64::MAX,
    ;
    let product: u128 = (proper_time as u128) * (gamma as u128);
    (product / (UNIT as u128)) as u64
}

/// Whether the time dilated at speed `v` fits in 64 bits, so that
/// [`time_dilation`] accepts it.
pub fn dilation_fits(proper_time: u64, v: i64) -> (fits: bool)
    requires
        below_light(v as int),
    ensures
        fits == time_fits(proper_time, v as int),
{
    let gamma = lorentz_factor(v);
    assert((proper_time as u128) * (gamma as u128) <= u128::MAX) by (nonlinear_arith)
        requires
            proper_time <= u64::MAX,
            gamma <= u64::MAX,
    ;
    let product: u128 = (proper_time as u128) * (gamma as u128);
    product / (UNIT as u128) <= u64::MAX as u128
}

/// Length contraction: the proper length divided by the Lorentz factor at
/// speed `v`, both in fixed point, rounded down. The speed must be below that
/// of light. A proper length of a few units at high speed contracts to zero at
/// this resolution.
pub fn length_contraction(proper_length: u64, v: i64) -> (contracted: u64)
    requires
        below_light(v as int),
    ensures
        contracted as nat == contraction_spec(proper_length as nat, lorentz_spec(v as int)),
        contracted <= proper_length,
{
    let gamma = lorentz_factor(v);
    proof {
        lemma_contraction_at_most(proper_length as nat, gamma as nat);
    }
    assert((proper_length as u128) * (UNIT as u128) <= u128::MAX) by (nonlinear_arith)
        requires
            proper_length <= u64::MAX,
            UNIT == 1_000_000,
    ;
    let scaled: u128 = (proper_length as u128) * (UNIT as u128);
    (scaled / (gamma as u128)) as u64
}

/// The Lorentz factor is at least one and grows with speed below that of
/// light: the exact squared factor `c² / (c² - v²)` strictly increases, because
/// its denominator strictly decreases, and the fixed-point factor, its rounded
/// square root, never decreases.
pub proof fn law_lorentz_increasing(v1: nat, v2: nat)
    requires
        v1 < v2 < C,
    ensures
        UNIT <= lorentz_spec(v1 as int),
        0 < rest_deficit(v2 as int) < rest_deficit(v1 as int),
        lorentz_spec(v1 as int) <= lorentz_spec(v2 as int),
{
    lemma_lorentz_range(v1 as int);
    assert(v1 * v1 < v2 * v2 < C * C) by (nonlinear_arith)
        requires
            v1 < v2 < C,
    ;
    let num: int = UNIT * UNIT * C * C;
    vstd::arithmetic::div_mod::lemma_div_is_ordered_by_denominator(
        num,
        rest_deficit(v2 as int),
        rest_deficit(v1 as int),
    );
    lemma_floor_sqrt_monotone((num / rest_deficit(v1 as int)) as nat, (num / rest_deficit(v2 as int)) as nat);
}

/// Floor division bounds the quotient on both sides.
proof fn lemma_div_bounds(a: int, b: int)
    requires
        a >= 0,
        b > 0,
    ensures
        (a / b) * b <= a < (a / b + 1) * b,
{
    vstd::arithmetic::div_mod::lemma_fundamental_div_mod(a, b);
    assert((a / b) * b + b == (a / b + 1) * b) by (nonlinear_arith);
    assert(b * (a / b) == (a / b) * b) by (nonlinear_arith);
}

/// From squares to their non-negative roots.
proof fn lemma_square_lt(a: int, b: int)
    requires
        a >= 0,
        b >= 0,
        a * a < b * b,
    ensures
        a < b,
{
    if a >= b {
        assert(a * a >= b * b) by (nonlinear_arith)
            requires
                a >= b >= 0,
        ;
    }
}

/// Below 0.99 c a step of one hundredth of c raises even the rounded
/// fixed-point Lorentz factor: `lorentz_spec(v as int) < lorentz_spec(v + 100)`.
pub proof fn law_lorentz_hundredth_step(v: nat)
    requires
        v + 100 <= 9_900,
    ensures
        lorentz_spec(v as int) < lorentz_spec(v + 100 as int),
{
    let n: int = UNIT * UNIT * C * C;
    assert(n == 100_000_000_000_000_000_000) by (nonlinear_arith)
        requires
            n == UNIT * UNIT * C * C,
            UNIT == 1_000_000,
            C == 10_000,
    ;
    let w: nat = v + 100;
    let d1 = rest_deficit(v as int);
    let d2 = rest_deficit(w as int);
    assert(3_960_000 <= d1 && 1 <= d2 <= d1 <= 100_000_000 && d1 - d2 >= 10_000) by (nonlinear_arith)
        requires
            v + 100 <= 9_900,
            w == v + 100,
            d1 == C * C - v * v,
            d2 == C * C - w * w,
            C == 10_000,
    ;
    let x1 = n / d1;
    let x2 = n / d2;
    lemma_div_bounds(n, d1);
    lemma_div_bounds(n, d2);
    vstd::arithmetic::div_mod::lemma_div_is_ordered_by_denominator(n, 3_960_000, d1);
    assert(n / 3_960_000 == 25_252_525_252_525);
    crate::arith::lemma_floor_sqrt_bounds(x1 as nat);
    let g1: int = lorentz_spec(v as int) as int;
    assert(g1 * g1 <= x1 <= 25_252_525_252_525);
    assert(g1 * g1 < 5_100_000 * 5_100_000);
    lemma_square_lt(g1, 5_100_000);
    let k: int = 10_200_001;
    if x2 < (g1 + 1) * (g1 + 1) {
        assert(x2 + 1 <= x1 + k) by (nonlinear_arith)
            requires
                x2 < (g1 + 1) * (g1 + 1),
                g1 * g1 <= x1,
                0 <= g1 < 5_100_000,
                k == 10_200_001,
        ;
        assert(n * (d1 - d2) < k * (d1 * d2)) by (nonlinear_arith)
            requires
                n < (x2 + 1) * d2,
                x2 + 1 <= x1 + k,
                x1 * d1 <= n,
                x1 >= 0,
                1 <= d2 <= d1,
        ;
        assert(n * (d1 - d2) >= 1_000_000_000_000_000_000_000_000) by (nonlinear_arith)
            requires
                n == 100_000_000_000_000_000_000,
                d1 - d2 >= 10_000,
        ;
        assert(k * (d1 * d2) <= 102_000_010_000_000_000_000_000) by (nonlinear_arith)
            requires
                k == 10_200_001,
                1 <= d2 <= d1 <= 100_000_000,
        ;
    }
    assert(x2 >= (g1 + 1) * (g1 + 1));
    lemma_floor_sqrt_of_square((g1 + 1) as nat);
    lemma_floor_sqrt_monotone(((g1 + 1) * (g1 + 1)) as nat, x2 as nat);
}

/// At rest nothing changes: the Lorentz factor is exactly one, a factor of
/// one leaves a time unchanged, and a length at rest is not contracted.
pub proof fn law_at_rest(proper_time: nat, proper_length: nat)
    ensures
        lorentz_spec(0) == UNIT,
        dilation_spec(proper_time, UNIT as nat) == proper_time,
        contraction_spec(proper_length, lorentz_spec(0)) == proper_length,
{
    let num: int = UNIT * UNIT * C * C;
    assert(num / rest_deficit(0) == UNIT * UNIT) by (nonlinear_arith)
        requires
            num == UNIT * UNIT * C * C,
            rest_deficit(0) == C * C,
            C == 10_000,
            UNIT == 1_000_000,
    ;
    lemma_floor_sqrt_of_square(UNIT as nat);
    vstd::arithmetic::div_mod::lemma_div_multiples_vanish(proper_time as int, UNIT as int);
    assert(UNIT * proper_time == proper_time * UNIT) by (nonlinear_arith);
    vstd::arithmetic::div_mod::lemma_div_multiples_vanish(proper_length as int, UNIT as int);
    assert(UNIT * proper_length == proper_length * UNIT) by (nonlinear_arith);
}

} // verus!
