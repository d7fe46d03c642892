//! The binary logarithm of a whole number, in fixed point.
//!
//! The whole part of the logarithm is the place of the number's leading one.
//! For the fraction the number is shifted so that its leading one stands at
//! place 62, which makes it a mantissa from one up to two with 62 binary
//! places, and the mantissa is squared 32 times: each time the square
//! reaches two, the next bit of the fraction is a one and the square is
//! halved. Every square is rounded down to 62 places.
//!
//! The whole part is exact. The logarithm of a power of two is exact.

use crate::fixed::ONE_RAW;
use crate::fixed::lemma_div_at_least;
use crate::fixed::lemma_div_at_most;
use crate::fixed::lemma_floor_bounds;
use crate::single::leading_bit;
use crate::single::lemma_top_bit_bounds;
use crate::single::power_of_two;
use crate::single::top_bit;
use vstd::arithmetic::power2::lemma2_to64;
use vstd::arithmetic::power2::lemma2_to64_rest;
use vstd::arithmetic::power2::lemma_pow2_adds;
use vstd::arithmetic::power2::lemma_pow2_pos;
use vstd::arithmetic::power2::lemma_pow2_strictly_increases;
use vstd::arithmetic::power2::lemma_pow2_unfold;
use vstd::arithmetic::power2::pow2;
use vstd::prelude::*;

verus! {

/// The place at which the leading one of a mantissa stands.
pub const MANTISSA_PLACE: u32 = 62;

/// The mantissa that stands for one: two to the power 62.
pub const MANTISSA_ONE: u64 = 0x4000_0000_0000_0000;

/// The mantissa that would stand for two: two to the power 63.
pub const MANTISSA_TWO: u64 = 0x8000_0000_0000_0000;

/// The mantissa of a positive number: the number shifted so that its leading
/// one stands at place 62, rounded down where bits are lost.
pub open spec fn mantissa_of(n: nat) -> nat {
    let k = top_bit(n);
    if k <= 62 {
        n * pow2((62 - k) as nat)
    } else {
        n / pow2((k - 62) as nat)
    }
}

/// The first `bits` bits of the fraction of the binary logarithm of a
/// mantissa, as a whole number of that many bits.
pub open spec fn log_fraction(m: nat, bits: nat) -> nat
    decreases bits,
{
    if bits == 0 {
        0
    } else {
        let square = (m * m) / (MANTISSA_ONE as nat);
        if square >= MANTISSA_TWO {
            pow2((bits - 1) as nat) + log_fraction(square / 2, (bits - 1) as nat)
        } else {
            log_fraction(square, (bits - 1) as nat)
        }
    }
}

/// The binary logarithm of a positive whole number, as a count of steps of
/// 2^-32.
pub open spec fn binary_log(n: nat) -> int {
    top_bit(n) * ONE_RAW + log_fraction(mantissa_of(n), 32)
}

/// The powers of two at the ends of the ranges that are used here.
pub proof fn lemma_wide_powers()
    ensures
        pow2(32) == 0x1_0000_0000,
        pow2(62) == 0x4000_0000_0000_0000,
        pow2(63) == 0x8000_0000_0000_0000,
        pow2(64) == 0x1_0000_0000_0000_0000,
        pow2(127) == 0x8000_0000_0000_0000_0000_0000_0000_0000,
        pow2(128) == 0x1_0000_0000_0000_0000_0000_0000_0000_0000,
{
    lemma2_to64();
    lemma2_to64_rest();
    lemma_pow2_adds(64, 63);
    lemma_pow2_adds(64, 64);
    assert(0x1_0000_0000_0000_0000 * 0x8000_0000_0000_0000
        == 0x8000_0000_0000_0000_0000_0000_0000_0000) by (nonlinear_arith);
    assert(0x1_0000_0000_0000_0000 * 0x1_0000_0000_0000_0000
        == 0x1_0000_0000_0000_0000_0000_0000_0000_0000) by (nonlinear_arith);
}

/// Two to the power `e`, for every power that 128 bits hold.
pub fn wide_power_of_two(e: u32) -> (r: u128)
    requires
        e < 128,
    ensures
        r == pow2(e as nat),
{
    if e < 64 {
        power_of_two(e) as u128
    } else {
        proof {
            lemma_wide_powers();
            lemma_pow2_adds((e - 64) as nat, 64);
            if e < 127 {
                lemma_pow2_strictly_increases(e as nat, 127);
            }
        }
        (power_of_two(e - 64) as u128) * 0x1_0000_0000_0000_0000
    }
}

/// A number that reaches two to the power `j` has its leading one `j` places
/// above that of the number without its lowest `j` bits.
pub proof fn lemma_top_bit_shifts(n: nat, j: nat)
    requires
        n >= pow2(j),
    ensures
        top_bit(n) == j + top_bit(n / pow2(j)),
    decreases j,
{
    lemma2_to64();
    if j > 0 {
        let p = pow2((j - 1) as nat);
        lemma_pow2_unfold(j);
        lemma_pow2_pos((j - 1) as nat);
        assert(n >= 2);
        assert(top_bit(n) == 1 + top_bit(n / 2));
        lemma_top_bit_shifts(n / 2, (j - 1) as nat);
        vstd::arithmetic::div_mod::lemma_div_denominator(n as int, 2, p as int);
        assert((n / 2) / p == n / pow2(j));
    } else {
        assert(n / 1 == n);
    }
}

/// A number below a power of two has its leading one below that power's
/// place; a number that reaches the power has it there or above.
pub proof fn lemma_top_bit_is_ordered(n: nat, j: nat)
    requires
        n > 0,
    ensures
        n < pow2(j) ==> top_bit(n) < j,
        n >= pow2(j) ==> top_bit(n) >= j,
{
    lemma_top_bit_bounds(n);
    let k = top_bit(n);
    if n < pow2(j) && k >= j {
        if k > j {
            lemma_pow2_strictly_increases(j, k);
        }
    }
    if n >= pow2(j) && k < j {
        lemma_pow2_unfold((k + 1) as nat);
        if k + 1 < j {
            lemma_pow2_strictly_increases((k + 1) as nat, j);
        }
    }
}

/// The place of the leading one of a positive number of up to 128 bits.
pub fn wide_leading_bit(n: u128) -> (k: u32)
    requires
        n > 0,
    ensures
        k == top_bit(n as nat),
        k < 128,
        pow2(k as nat) <= n < 2 * pow2(k as nat),
{
    proof {
        lemma_wide_powers();
        lemma_top_bit_bounds(n as nat);
    }
    if n >= 0x1_0000_0000_0000_0000 {
        proof {
            lemma_top_bit_shifts(n as nat, 64);
        }
        64 + leading_bit((n / 0x1_0000_0000_0000_0000) as u64)
    } else {
        leading_bit(n as u64)
    }
}

/// The mantissa of a positive number lies from one up to two.
pub proof fn lemma_mantissa_bounds(n: nat)
    requires
        n > 0,
    ensures
        MANTISSA_ONE <= mantissa_of(n) < MANTISSA_TWO,
{
    let k = top_bit(n);
    lemma_top_bit_bounds(n);
    lemma_wide_powers();
    if k <= 62 {
        let s = pow2((62 - k) as nat);
        lemma_pow2_adds(k, (62 - k) as nat);
        lemma_pow2_pos((62 - k) as nat);
        assert(pow2(k) * s <= n * s < 2 * pow2(k) * s) by (nonlinear_arith)
            requires
                pow2(k) <= n < 2 * pow2(k),
                s > 0,
        ;
        assert(2 * pow2(k) * s == 2 * (pow2(k) * s)) by (nonlinear_arith);
    } else {
        let s = pow2((k - 62) as nat);
        lemma_pow2_adds(62, (k - 62) as nat);
        lemma_pow2_pos((k - 62) as nat);
        assert(pow2(k) == MANTISSA_ONE * s);
        assert(2 * pow2(k) == MANTISSA_TWO * s) by (nonlinear_arith)
            requires
                pow2(k) == MANTISSA_ONE * s,
                MANTISSA_TWO == 2 * MANTISSA_ONE,
        ;
        lemma_div_at_least(n as int, s as int, MANTISSA_ONE as int);
        lemma_floor_bounds(n as int, s as int);
        let q = (n as int) / (s as int);
        assert(q < MANTISSA_TWO) by (nonlinear_arith)
            requires
                q * s <= n,
                n < MANTISSA_TWO * s,
                s > 0,
        ;
    }
}

/// The mantissa of a positive number.
pub fn mantissa(n: u128) -> (m: u64)
    requires
        n > 0,
    ensures
        m == mantissa_of(n as nat),
        MANTISSA_ONE <= m < MANTISSA_TWO,
{
    let k = wide_leading_bit(n);
    proof {
        lemma_mantissa_bounds(n as nat);
    }
    if k <= MANTISSA_PLACE {
        let shift = wide_power_of_two(MANTISSA_PLACE - k);
        (n * shift) as u64
    } else {
        let shift = wide_power_of_two(k - MANTISSA_PLACE);
        proof {
            lemma_pow2_pos((k - 62) as nat);
        }
        (n / shift) as u64
    }
}

/// The square of a mantissa, rounded down to 62 places, lies from one up to
/// four.
pub proof fn lemma_square_bounds(m: nat)
    requires
        MANTISSA_ONE <= m < MANTISSA_TWO,
    ensures
        MANTISSA_ONE <= (m * m) / (MANTISSA_ONE as nat) < 2 * MANTISSA_TWO,
        m * m < 0x4000_0000_0000_0000_0000_0000_0000_0000,
{
    assert(MANTISSA_ONE * MANTISSA_ONE <= m * m) by (nonlinear_arith)
        requires
            MANTISSA_ONE <= m,
    ;
    assert(m * m <= (MANTISSA_TWO - 1) * (MANTISSA_TWO - 1)) by (nonlinear_arith)
        requires
            0 <= m <= MANTISSA_TWO - 1,
    ;
    assert((MANTISSA_TWO - 1) * (MANTISSA_TWO - 1) < 0x4000_0000_0000_0000_0000_0000_0000_0000)
        by (nonlinear_arith);
    assert((2 * MANTISSA_TWO - 1) * MANTISSA_ONE >= (MANTISSA_TWO - 1) * (MANTISSA_TWO - 1))
        by (nonlinear_arith);
    lemma_div_at_least((m * m) as int, MANTISSA_ONE as int, MANTISSA_ONE as int);
    lemma_div_at_most((m * m) as int, MANTISSA_ONE as int, 2 * MANTISSA_TWO - 1);
}

/// The bits of a fraction are a number of that many bits.
pub proof fn lemma_log_fraction_bounds(m: nat, bits: nat)
    requires
        MANTISSA_ONE <= m < MANTISSA_TWO,
    ensures
        log_fraction(m, bits) < pow2(bits),
    decreases bits,
{
    lemma_pow2_pos(bits);
    if bits > 0 {
        lemma_square_bounds(m);
        lemma_pow2_unfold(bits);
        let square = (m * m) / (MANTISSA_ONE as nat);
        if square >= MANTISSA_TWO {
            lemma_log_fraction_bounds(square / 2, (bits - 1) as nat);
        } else {
            lemma_log_fraction_bounds(square, (bits - 1) as nat);
        }
    }
}

/// The 32 bits of the fraction of the binary logarithm of a mantissa.
pub fn fraction_of_log(m: u64) -> (f: u64)
    requires
        MANTISSA_ONE <= m < MANTISSA_TWO,
    ensures
        f == log_fraction(m as nat, 32),
        f < 0x1_0000_0000,
{
    let mut cur: u64 = m;
    let mut acc: u64 = 0;
    let mut left: u32 = 32;
    proof {
        lemma_wide_powers();
    }
    while left > 0
        invariant
            MANTISSA_ONE <= cur < MANTISSA_TWO,
            left <= 32,
            acc + pow2(left as nat) <= 0x1_0000_0000,
            log_fraction(m as nat, 32) == acc + log_fraction(cur as nat, left as nat),
        decreases left,
    {
        proof {
            lemma_square_bounds(cur as nat);
            lemma_pow2_unfold(left as nat);
        }
        let square: u128 = ((cur as u128) * (cur as u128)) / (MANTISSA_ONE as u128);
        left = left - 1;
        if square >= MANTISSA_TWO as u128 {
            let bit = wide_power_of_two(left);
            acc = acc + bit as u64;
            cur = (square / 2) as u64;
        } else {
            cur = square as u64;
        }
    }
    proof {
        lemma2_to64();
    }
    acc
}

/// The binary logarithm of a positive whole number.
pub fn binary_logarithm(n: u128) -> (r: i64)
    requires
        n > 0,
    ensures
        r == binary_log(n as nat),
        top_bit(n as nat) * ONE_RAW <= r < (top_bit(n as nat) + 1) * ONE_RAW,
        0 <= r < 128 * ONE_RAW,
{
    let k = wide_leading_bit(n);
    let m = mantissa(n);
    let f = fraction_of_log(m);
    (k as i64) * ONE_RAW + f as i64
}

/// The whole part of the binary logarithm is the place of the leading one.
pub proof fn lemma_log_bounds(n: nat)
    requires
        n > 0,
    ensures
        top_bit(n) * ONE_RAW <= binary_log(n) < (top_bit(n) + 1) * ONE_RAW,
{
    lemma_mantissa_bounds(n);
    lemma_log_fraction_bounds(mantissa_of(n), 32);
    lemma_wide_powers();
}

/// The mantissa one has no fraction of a logarithm.
pub proof fn lemma_log_fraction_of_one(bits: nat)
    ensures
        log_fraction(MANTISSA_ONE as nat, bits) == 0,
    decreases bits,
{
    if bits > 0 {
        assert((MANTISSA_ONE as nat * MANTISSA_ONE as nat) / (MANTISSA_ONE as nat)
            == MANTISSA_ONE as nat) by (nonlinear_arith);
        lemma_log_fraction_of_one((bits - 1) as nat);
    }
}

/// The place of the leading one of a power of two is the power.
pub proof fn lemma_top_bit_of_power(k: nat)
    ensures
        top_bit(pow2(k)) == k,
    decreases k,
{
    lemma2_to64();
    if k > 0 {
        lemma_pow2_unfold(k);
        lemma_pow2_pos((k - 1) as nat);
        lemma_top_bit_of_power((k - 1) as nat);
        assert(pow2(k) / 2 == pow2((k - 1) as nat));
    }
}

/// The binary logarithm of a power of two is the power, exactly.
pub proof fn lemma_log_of_power(k: nat)
    ensures
        binary_log(pow2(k)) == k * ONE_RAW,
{
    lemma_top_bit_of_power(k);
    lemma_wide_powers();
    lemma_log_fraction_of_one(32);
    if k <= 62 {
        lemma_pow2_adds(k, (62 - k) as nat);
    } else {
        lemma_pow2_adds(62, (k - 62) as nat);
        lemma_pow2_pos((k - 62) as nat);
        vstd::arithmetic::div_mod::lemma_div_by_multiple(
            MANTISSA_ONE as int,
            pow2((k - 62) as nat) as int,
        );
    }
}

/// Twice a number has the same mantissa, its leading one a place higher:
/// its binary logarithm is one more, exactly.
pub proof fn lemma_log_of_double(n: nat)
    requires
        n > 0,
    ensures
        binary_log(2 * n) == binary_log(n) + ONE_RAW,
{
    let k = top_bit(n);
    assert(top_bit(2 * n) == 1 + top_bit((2 * n) / 2));
    lemma2_to64();
    if k <= 61 {
        lemma_pow2_unfold((62 - k) as nat);
        assert((2 * n) * pow2((61 - k) as nat) == n * (2 * pow2((61 - k) as nat)))
            by (nonlinear_arith);
    } else if k == 62 {
        assert(n * 1 == n);
    } else {
        let p = pow2((k - 62) as nat);
        lemma_pow2_unfold((k + 1 - 62) as nat);
        lemma_pow2_pos((k - 62) as nat);
        vstd::arithmetic::div_mod::lemma_div_denominator((2 * n) as int, 2, p as int);
    }
    assert(mantissa_of(2 * n) == mantissa_of(n));
    assert((k + 1) * ONE_RAW == k * ONE_RAW + ONE_RAW) by (nonlinear_arith);
}

} // verus!
