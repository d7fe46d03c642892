//! The cosine of a fraction of a turn, in fixed point.
//!
//! The argument is a phase: a count of steps of 2^-32 of a full turn. A turn
//! is cut into four quarters. Within the first quarter the cosine is a
//! polynomial in the square of the phase, with the terms of the cosine's
//! series up to the fourteenth power; the other three quarters are mirror
//! images of the first. The values at the four quarter points are exact, and
//! so are the symmetries; between them the result is the polynomial's, every
//! product rounded down.

use crate::fixed::Fixed;
use crate::fixed::ONE_RAW;
use crate::fixed::floor_div;
use crate::fixed::fraction;
use crate::fixed::lemma_div_at_least;
use crate::fixed::lemma_div_at_most;
use crate::fixed::product;
use vstd::prelude::*;

verus! {

/// The step count of a quarter.
pub const QUARTER_RAW: i64 = 0x4000_0000;

/// The terms of the series of `cos(pi u / 2)` in `u * u`, as step counts:
/// `(pi / 2)^(2 k) / (2 k)!` for `k` from one to seven.
pub const TERM_1: i64 = 5_298_703_516;

pub const TERM_2: i64 = 1_089_502_240;

pub const TERM_3: i64 = 89_607_968;

pub const TERM_4: i64 = 3_948_193;

pub const TERM_5: i64 = 108_242;

pub const TERM_6: i64 = 2_023;

pub const TERM_7: i64 = 27;

/// A step count held between zero and one.
pub open spec fn unit(v: int) -> int {
    if v < 0 {
        0
    } else if v > ONE_RAW {
        ONE_RAW as int
    } else {
        v
    }
}

/// One step of the polynomial, from the innermost term outwards: the term
/// less the square times what is inside.
pub open spec fn descent(term: int, square: int, inner: int) -> int {
    term - product(square, inner)
}

/// The polynomial in the square `v` of the phase within a quarter, the
/// quarter taken as one: `1 - v (t1 - v (t2 - ... - v t7))`.
pub open spec fn series(v: int) -> int {
    let h6 = descent(TERM_6 as int, v, TERM_7 as int);
    let h5 = descent(TERM_5 as int, v, h6);
    let h4 = descent(TERM_4 as int, v, h5);
    let h3 = descent(TERM_3 as int, v, h4);
    let h2 = descent(TERM_2 as int, v, h3);
    let h1 = descent(TERM_1 as int, v, h2);
    descent(ONE_RAW as int, v, h1)
}

/// The cosine within the first quarter of a turn: `x` is the phase, from
/// zero up to a quarter. At the quarter it is zero.
pub open spec fn quarter_cosine(x: int) -> int {
    if x >= QUARTER_RAW {
        0
    } else {
        unit(series(product(4 * x, 4 * x)))
    }
}

/// The cosine of a phase from zero up to one turn.
pub open spec fn turn_cosine(phase: int) -> int {
    let quarter = phase / (QUARTER_RAW as int);
    let within = phase % (QUARTER_RAW as int);
    if quarter == 0 {
        quarter_cosine(within)
    } else if quarter == 1 {
        -quarter_cosine(QUARTER_RAW - within)
    } else if quarter == 2 {
        -quarter_cosine(within)
    } else {
        quarter_cosine(QUARTER_RAW - within)
    }
}

/// The cosine of any count of turns: that of its fraction.
pub open spec fn cosine_of(turns: int) -> int {
    turn_cosine(fraction(turns))
}

/// A part of something that is not negative lies between nothing and the
/// whole.
pub proof fn lemma_part_of(part: int, whole: int)
    requires
        0 <= part <= ONE_RAW,
        0 <= whole,
    ensures
        0 <= product(part, whole) <= whole,
{
    assert(0 <= part * whole <= whole * ONE_RAW) by (nonlinear_arith)
        requires
            0 <= part <= ONE_RAW,
            0 <= whole,
    ;
    lemma_div_at_most(part * whole, ONE_RAW as int, whole);
    lemma_div_at_least(part * whole, ONE_RAW as int, 0);
}

/// One step of such a polynomial.
pub fn descend(term: i64, square: i64, inner: i64) -> (r: i64)
    requires
        0 <= square <= ONE_RAW,
        0 <= inner <= 2 * ONE_RAW,
        0 <= term <= 2 * ONE_RAW,
    ensures
        r == descent(term as int, square as int, inner as int),
        term - inner <= r <= term,
{
    proof {
        lemma_part_of(square as int, inner as int);
        assert(0 <= square * inner <= 0x1_0000_0000 * 0x2_0000_0000) by (nonlinear_arith)
            requires
                0 <= square <= 0x1_0000_0000,
                0 <= inner <= 0x2_0000_0000,
        ;
    }
    let part: i128 = floor_div((square as i128) * (inner as i128), ONE_RAW as i128);
    (term as i128 - part) as i64
}

/// The cosine within the first quarter of a turn.
pub fn quarter(x: i64) -> (r: Fixed)
    requires
        0 <= x <= QUARTER_RAW,
    ensures
        r@ == quarter_cosine(x as int),
        0 <= r@ <= ONE_RAW,
{
    if x >= QUARTER_RAW {
        return Fixed { raw: 0 };
    }
    let u: i64 = 4 * x;
    proof {
        lemma_part_of(u as int, u as int);
    }
    let v: i64 = floor_div((u as i128) * (u as i128), ONE_RAW as i128) as i64;
    let h6: i64 = descend(TERM_6, v, TERM_7);
    let h5: i64 = descend(TERM_5, v, h6);
    let h4: i64 = descend(TERM_4, v, h5);
    let h3: i64 = descend(TERM_3, v, h4);
    let h2: i64 = descend(TERM_2, v, h3);
    let h1: i64 = descend(TERM_1, v, h2);
    let c: i64 = descend(ONE_RAW, v, h1);
    if c < 0 {
        Fixed { raw: 0 }
    } else if c > ONE_RAW {
        Fixed { raw: ONE_RAW }
    } else {
        Fixed { raw: c }
    }
}

/// The cosine of a phase from zero up to one turn.
pub fn cosine_at(phase: Fixed) -> (r: Fixed)
    requires
        0 <= phase@ < ONE_RAW,
    ensures
        r@ == turn_cosine(phase@),
        -ONE_RAW <= r@ <= ONE_RAW,
{
    let quarter_index: i64 = phase.raw / QUARTER_RAW;
    let within: i64 = phase.raw % QUARTER_RAW;
    if quarter_index == 0 {
        quarter(within)
    } else if quarter_index == 1 {
        let c = quarter(QUARTER_RAW - within);
        Fixed { raw: -c.raw }
    } else if quarter_index == 2 {
        let c = quarter(within);
        Fixed { raw: -c.raw }
    } else {
        quarter(QUARTER_RAW - within)
    }
}

/// The cosine of any count of turns.
pub fn cosine(turns: Fixed) -> (r: Fixed)
    ensures
        r@ == cosine_of(turns@),
        -ONE_RAW <= r@ <= ONE_RAW,
{
    cosine_at(turns.fract())
}

/// The cosine is one at no turn, nothing at a quarter, minus one at a half
/// and nothing again at three quarters.
pub proof fn lemma_cosine_at_the_quarters()
    ensures
        turn_cosine(0) == ONE_RAW,
        turn_cosine(QUARTER_RAW as int) == 0,
        turn_cosine(2 * QUARTER_RAW) == -ONE_RAW,
        turn_cosine(3 * QUARTER_RAW) == 0,
{
    assert forall|h: int| product(0, h) == 0 by {
        assert(0 * h == 0) by (nonlinear_arith);
    }
    assert(series(0) == ONE_RAW);
}

/// The cosine never leaves the range from minus one to one.
pub proof fn lemma_cosine_is_bounded(phase: int)
    ensures
        -ONE_RAW <= turn_cosine(phase) <= ONE_RAW,
{
}

/// The cosine is the same at a phase and at what is left of the turn.
pub proof fn lemma_cosine_is_even(phase: int)
    requires
        0 < phase < ONE_RAW,
    ensures
        turn_cosine(ONE_RAW - phase) == turn_cosine(phase),
{
    let q = QUARTER_RAW as int;
    vstd::arithmetic::div_mod::lemma_fundamental_div_mod(phase, q);
    vstd::arithmetic::div_mod::lemma_mod_bound(phase, q);
    let k = phase / q;
    let r = phase % q;
    assert(q * k == k * q) by (nonlinear_arith);
    assert(0 <= k <= 3);
    if r == 0 {
        assert((4 - k) * q == 4 * q - k * q) by (nonlinear_arith);
        vstd::arithmetic::div_mod::lemma_fundamental_div_mod_converse(
            ONE_RAW - phase,
            q,
            4 - k,
            0,
        );
    } else {
        assert((3 - k) * q == 3 * q - k * q) by (nonlinear_arith);
        vstd::arithmetic::div_mod::lemma_fundamental_div_mod_converse(
            ONE_RAW - phase,
            q,
            3 - k,
            q - r,
        );
    }
}

/// Half a turn on, the cosine is the same with the other sign.
pub proof fn lemma_cosine_half_turn(phase: int)
    requires
        0 <= phase < 2 * QUARTER_RAW,
    ensures
        turn_cosine(phase + 2 * QUARTER_RAW) == -turn_cosine(phase),
{
    let q = QUARTER_RAW as int;
    vstd::arithmetic::div_mod::lemma_fundamental_div_mod(phase, q);
    vstd::arithmetic::div_mod::lemma_mod_bound(phase, q);
    let k = phase / q;
    let r = phase % q;
    assert(q * k == k * q) by (nonlinear_arith);
    assert(0 <= k <= 1);
    assert((k + 2) * q == k * q + 2 * q) by (nonlinear_arith);
    vstd::arithmetic::div_mod::lemma_fundamental_div_mod_converse(phase + 2 * q, q, k + 2, r);
}

} // verus!
