//! Two to a power, in fixed point.
//!
//! The power is parted into its whole part and its fraction. Two to the
//! fraction is the series of the exponential function with twelve terms, a
//! number from one up to two; the whole part doubles or halves it that many
//! times. A result beyond the range of the numbers is held at its end.

use crate::cosine::lemma_part_of;
use crate::fixed::Fixed;
use crate::fixed::ONE_RAW;
use crate::fixed::clamp;
use crate::fixed::floor_div;
use crate::fixed::hold;
use crate::fixed::product;
use crate::logarithm::lemma_wide_powers;
use crate::logarithm::wide_power_of_two;
use vstd::arithmetic::power2::lemma2_to64;
use vstd::arithmetic::power2::lemma2_to64_rest;
use vstd::arithmetic::power2::lemma_pow2_pos;
use vstd::arithmetic::power2::lemma_pow2_strictly_increases;
use vstd::arithmetic::power2::pow2;
use vstd::prelude::*;

verus! {

/// The terms of the series of two to the power `f`, as step counts:
/// `ln(2)^k / k!` for `k` from one to eleven.
pub const GROWTH_1: i64 = 2_977_044_472;

pub const GROWTH_2: i64 = 1_031_764_991;

pub const GROWTH_3: i64 = 238_388_332;

pub const GROWTH_4: i64 = 41_309_550;

pub const GROWTH_5: i64 = 5_726_720;

pub const GROWTH_6: i64 = 661_577;

pub const GROWTH_7: i64 = 65_510;

pub const GROWTH_8: i64 = 5_676;

pub const GROWTH_9: i64 = 437;

pub const GROWTH_10: i64 = 30;

pub const GROWTH_11: i64 = 2;

/// One step of the series, from the innermost term outwards: the term and
/// `f` times what is inside.
pub open spec fn ascent(term: int, f: int, inner: int) -> int {
    term + product(f, inner)
}

/// Two to the power of a fraction `f` from nothing up to one:
/// `1 + f (g1 + f (g2 + ... + f g11))`.
pub open spec fn power_series(f: int) -> int {
    let h10 = ascent(GROWTH_10 as int, f, GROWTH_11 as int);
    let h9 = ascent(GROWTH_9 as int, f, h10);
    let h8 = ascent(GROWTH_8 as int, f, h9);
    let h7 = ascent(GROWTH_7 as int, f, h8);
    let h6 = ascent(GROWTH_6 as int, f, h7);
    let h5 = ascent(GROWTH_5 as int, f, h6);
    let h4 = ascent(GROWTH_4 as int, f, h5);
    let h3 = ascent(GROWTH_3 as int, f, h4);
    let h2 = ascent(GROWTH_2 as int, f, h3);
    let h1 = ascent(GROWTH_1 as int, f, h2);
    ascent(ONE_RAW as int, f, h1)
}

/// Two to the power `e`, held in range: two to the fraction of `e`, doubled
/// or halved as often as the whole part of `e` says, halves rounded down.
pub open spec fn binary_power(e: int) -> int {
    let whole = e / (ONE_RAW as int);
    let m = power_series(e % (ONE_RAW as int));
    if whole >= 0 {
        clamp(m * pow2(whole as nat))
    } else {
        m / (pow2((-whole) as nat) as int)
    }
}

/// One step of the series.
pub fn ascend(term: i64, f: i64, inner: i64) -> (r: i64)
    requires
        0 <= f <= ONE_RAW,
        0 <= inner <= 4 * ONE_RAW,
        0 <= term <= 2 * ONE_RAW,
    ensures
        r == ascent(term as int, f as int, inner as int),
        term <= r <= term + inner,
{
    proof {
        lemma_part_of(f as int, inner as int);
        assert(0 <= f * inner <= 0x1_0000_0000 * 0x4_0000_0000) by (nonlinear_arith)
            requires
                0 <= f <= 0x1_0000_0000,
                0 <= inner <= 0x4_0000_0000,
        ;
    }
    let part: i128 = floor_div((f as i128) * (inner as i128), ONE_RAW as i128);
    (term as i128 + part) as i64
}

/// Two to the power of a fraction: a number from one up to two.
pub fn power_fraction(f: i64) -> (m: i64)
    requires
        0 <= f < ONE_RAW,
    ensures
        m == power_series(f as int),
        ONE_RAW <= m <= 2 * ONE_RAW + 1,
{
    let h10: i64 = ascend(GROWTH_10, f, GROWTH_11);
    let h9: i64 = ascend(GROWTH_9, f, h10);
    let h8: i64 = ascend(GROWTH_8, f, h9);
    let h7: i64 = ascend(GROWTH_7, f, h8);
    let h6: i64 = ascend(GROWTH_6, f, h7);
    let h5: i64 = ascend(GROWTH_5, f, h6);
    let h4: i64 = ascend(GROWTH_4, f, h5);
    let h3: i64 = ascend(GROWTH_3, f, h4);
    let h2: i64 = ascend(GROWTH_2, f, h3);
    let h1: i64 = ascend(GROWTH_1, f, h2);
    ascend(ONE_RAW, f, h1)
}

/// Two to the power `e`, held in range.
pub fn binary_exponential(e: Fixed) -> (r: Fixed)
    ensures
        r@ == binary_power(e@),
        r@ >= 0,
{
    let whole: i128 = floor_div(e.raw as i128, ONE_RAW as i128);
    let f: i64 = (e.raw as i128 - whole * (ONE_RAW as i128)) as i64;
    proof {
        vstd::arithmetic::div_mod::lemma_mod_bound(e@, ONE_RAW as int);
        crate::fixed::lemma_div_at_least(e@, ONE_RAW as int, -0x8000_0000);
        crate::fixed::lemma_div_at_most(e@, ONE_RAW as int, 0x8000_0000);
        lemma_wide_powers();
        lemma2_to64();
        lemma2_to64_rest();
    }
    let m: i64 = power_fraction(f);
    if whole >= 31 {
        proof {
            let p = pow2(whole as nat) as int;
            if whole > 31 {
                lemma_pow2_strictly_increases(31, whole as nat);
            }
            assert(m * p >= 0x1_0000_0000 * 0x8000_0000) by (nonlinear_arith)
                requires
                    m >= 0x1_0000_0000,
                    p >= 0x8000_0000,
            ;
        }
        Fixed { raw: 0x7fff_ffff_ffff_ffff }
    } else if whole >= 0 {
        let p: u128 = wide_power_of_two(whole as u32);
        proof {
            if whole < 30 {
                lemma_pow2_strictly_increases(whole as nat, 30);
            }
            assert(0 <= m * p <= 0x2_0000_0001 * 0x4000_0000) by (nonlinear_arith)
                requires
                    0 <= m <= 0x2_0000_0001,
                    0 <= p <= 0x4000_0000,
            ;
        }
        hold((m as i128) * (p as i128))
    } else if whole < -40 {
        proof {
            let p = pow2((-whole) as nat) as int;
            lemma_pow2_strictly_increases(40, (-whole) as nat);
            vstd::arithmetic::div_mod::lemma_basic_div(m as int, p);
        }
        Fixed { raw: 0 }
    } else {
        let p: u128 = wide_power_of_two((-whole) as u32);
        proof {
            lemma_pow2_pos((-whole) as nat);
            crate::fixed::lemma_div_at_least(m as int, p as int, 0);
            assert(m <= m * p) by (nonlinear_arith)
                requires
                    m >= 0,
                    p >= 1,
            ;
            crate::fixed::lemma_div_at_most(m as int, p as int, m as int);
        }
        Fixed { raw: ((m as u128) / p) as i64 }
    }
}

/// Two to the power of a whole number from nothing to thirty is exact.
pub proof fn lemma_power_of_a_whole_number(k: nat)
    requires
        k <= 30,
    ensures
        binary_power(k * ONE_RAW) == pow2(k) * ONE_RAW,
{
    assert forall|h: int| product(0, h) == 0 by {
        assert(0 * h == 0) by (nonlinear_arith);
    }
    assert(power_series(0) == ONE_RAW);
    vstd::arithmetic::div_mod::lemma_fundamental_div_mod_converse(
        k * ONE_RAW,
        ONE_RAW as int,
        k as int,
        0,
    );
    lemma2_to64();
    if k < 30 {
        lemma_pow2_strictly_increases(k, 30);
    }
    assert(0 <= ONE_RAW * pow2(k) <= 0x1_0000_0000 * 0x4000_0000) by (nonlinear_arith)
        requires
            0 <= pow2(k) <= 0x4000_0000,
            ONE_RAW == 0x1_0000_0000,
    ;
    assert(ONE_RAW * pow2(k) == pow2(k) * ONE_RAW) by (nonlinear_arith);
}

} // verus!
