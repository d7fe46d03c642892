//! Single-precision bit patterns.
//!
//! The parameter block holds its numbers in the single-precision binary
//! format of IEEE 754: one sign bit, eight bits of exponent with a bias of
//! 127, and the 23 bits of the significand that follow its leading one.
//! Every fixed-point number lies well inside the normal range of that
//! format. Its significand is rounded to the nearest of 24 bits, a tie to
//! the even one.

use crate::fixed::Fixed;
use crate::fixed::lemma_div_at_least;
use crate::fixed::lemma_floor_bounds;
use vstd::arithmetic::div_mod::lemma_fundamental_div_mod_converse;
use vstd::arithmetic::power2::lemma2_to64;
use vstd::arithmetic::power2::lemma2_to64_rest;
use vstd::arithmetic::power2::lemma_pow2_adds;
use vstd::arithmetic::power2::lemma_pow2_pos;
use vstd::arithmetic::power2::lemma_pow2_strictly_increases;
use vstd::arithmetic::power2::lemma_pow2_unfold;
use vstd::arithmetic::power2::pow2;
use vstd::prelude::*;

verus! {

/// The place of the leading one of a positive number, counted from zero.
pub open spec fn top_bit(m: nat) -> nat
    decreases m,
{
    if m <= 1 {
        0
    } else {
        1 + top_bit(m / 2)
    }
}

/// How many whole units are nearest to `m`; of two that are equally near,
/// the even one.
pub open spec fn nearest(m: int, unit: int) -> int {
    let q = m / unit;
    let r = m % unit;
    if 2 * r > unit || (2 * r == unit && q % 2 == 1) {
        q + 1
    } else {
        q
    }
}

/// The significand of a positive step count, as a whole number of 24 bits:
/// the count shifted so that its leading one stands at place 23, rounded
/// where bits are lost. Rounding up can give 2^24.
pub open spec fn significand(m: int) -> int {
    let k = top_bit(m as nat);
    if k <= 23 {
        m * pow2((23 - k) as nat)
    } else {
        nearest(m, pow2((k - 23) as nat) as int)
    }
}

/// The single-precision bit pattern of a step count. A step is 2^-32, so a
/// leading one at place `k` gives the biased exponent `k + 95`. A
/// significand of 2^24 carries into the exponent.
pub open spec fn single_bits(raw: int) -> int {
    if raw == 0 {
        0
    } else {
        let m = if raw < 0 {
            -raw
        } else {
            raw
        };
        let sign: int = if raw < 0 {
            0x8000_0000
        } else {
            0
        };
        sign + (top_bit(m as nat) + 95) * 0x80_0000 + (significand(m) - 0x80_0000)
    }
}

/// Two to the power `e`.
pub fn power_of_two(e: u32) -> (r: u64)
    requires
        e < 64,
    ensures
        r == pow2(e as nat),
{
    let mut r: u64 = 1;
    let mut i: u32 = 0;
    proof {
        lemma2_to64();
    }
    while i < e
        invariant
            i <= e,
            e < 64,
            r == pow2(i as nat),
        decreases e - i,
    {
        proof {
            lemma_pow2_unfold((i + 1) as nat);
            lemma2_to64_rest();
            if i + 1 < 63 {
                lemma_pow2_strictly_increases((i + 1) as nat, 63);
            }
        }
        r = r * 2;
        i = i + 1;
    }
    r
}

/// The place of the leading one of a positive number.
pub fn leading_bit(m: u64) -> (k: u32)
    requires
        m > 0,
    ensures
        k == top_bit(m as nat),
        k < 64,
        pow2(k as nat) <= m < 2 * pow2(k as nat),
{
    let mut rest: u64 = m;
    let mut k: u32 = 0;
    proof {
        lemma2_to64();
    }
    while rest > 1
        invariant
            rest >= 1,
            k < 64,
            top_bit(m as nat) == k + top_bit(rest as nat),
            rest * pow2(k as nat) <= m,
            m < (rest + 1) * pow2(k as nat),
        decreases rest,
    {
        proof {
            let p = pow2(k as nat) as int;
            let half = (rest / 2) as int;
            lemma_pow2_unfold((k + 1) as nat);
            lemma_pow2_pos(k as nat);
            assert(half * (2 * p) <= rest * p) by (nonlinear_arith)
                requires
                    2 * half <= rest,
                    p > 0,
            ;
            assert((half + 1) * (2 * p) >= (rest + 1) * p) by (nonlinear_arith)
                requires
                    2 * half + 2 >= rest + 1,
                    p > 0,
            ;
            // The next power of two is still no more than `m`, so `k + 1`
            // is below 64.
            assert(2 * p <= m) by (nonlinear_arith)
                requires
                    rest >= 2,
                    rest * p <= m,
                    p > 0,
            ;
            lemma2_to64();
            if k + 1 >= 64 {
                if k + 1 > 64 {
                    lemma_pow2_strictly_increases(64, (k + 1) as nat);
                }
                assert(false);
            }
        }
        rest = rest / 2;
        k = k + 1;
    }
    proof {
        assert(1 * pow2(k as nat) == pow2(k as nat)) by (nonlinear_arith);
        assert((1 + 1) * pow2(k as nat) == 2 * pow2(k as nat)) by (nonlinear_arith);
    }
    k
}

/// The count of whole units nearest to `m`, a tie to the even one.
pub fn round_to_nearest(m: u64, unit: u64) -> (r: u64)
    requires
        unit > 0,
        m < 0xffff_ffff_ffff_ffff,
    ensures
        r == nearest(m as int, unit as int),
{
    let q: u64 = m / unit;
    let rem: u64 = m % unit;
    let twice: u128 = 2 * (rem as u128);
    if twice > unit as u128 || (twice == unit as u128 && q % 2 == 1) {
        proof {
            lemma_floor_bounds(m as int, unit as int);
            assert(q * unit <= m);
            assert(q <= m) by (nonlinear_arith)
                requires
                    q * unit <= m,
                    unit >= 1,
                    q >= 0,
            ;
        }
        q + 1
    } else {
        q
    }
}

impl Fixed {
    /// The single-precision bit pattern of the number.
    pub fn to_single_bits(self) -> (bits: u32)
        ensures
            bits == single_bits(self@),
    {
        if self.raw == 0 {
            return 0;
        }
        let sign: u64 = if self.raw < 0 {
            0x8000_0000
        } else {
            0
        };
        let m: u64 = if self.raw < 0 {
            (-(self.raw as i128)) as u64
        } else {
            self.raw as u64
        };
        let k: u32 = leading_bit(m);
        let sig: u64 = if k <= 23 {
            let shift: u64 = power_of_two(23 - k);
            proof {
                lemma2_to64();
                lemma_pow2_adds(k as nat, (23 - k) as nat);
                lemma_pow2_pos((23 - k) as nat);
                let p = pow2(k as nat) as int;
                let s = shift as int;
                assert(p * s == 0x80_0000);
                assert(m * s >= 0x80_0000 && m * s < 0x100_0000) by (nonlinear_arith)
                    requires
                        p <= m < 2 * p,
                        p * s == 0x80_0000,
                        s > 0,
                ;
            }
            m * shift
        } else {
            let unit: u64 = power_of_two(k - 23);
            proof {
                lemma2_to64();
                lemma2_to64_rest();
                lemma_pow2_adds(23, (k - 23) as nat);
                lemma_pow2_pos((k - 23) as nat);
                let p = pow2(k as nat) as int;
                let u = unit as int;
                assert(p == 0x80_0000 * u);
                lemma_div_at_least(m as int, u, 0x80_0000);
                assert(m <= 0xff_ffff * u + (u - 1));
                assert(m as int <= 0xff_ffff * u + u) by (nonlinear_arith)
                    requires
                        m < 2 * p,
                        p == 0x80_0000 * u,
                ;
                lemma_floor_bounds(m as int, u);
                assert((m as int) / u <= 0xff_ffff) by (nonlinear_arith)
                    requires
                        ((m as int) / u) * u <= m,
                        m < 0x100_0000 * u,
                        u > 0,
                ;
            }
            round_to_nearest(m, unit)
        };
        ((sign + ((k as u64) + 95) * 0x80_0000) + (sig - 0x80_0000)) as u32
    }
}

/// The number that a single-precision bit pattern stands for, in steps of
/// 2^-32, its magnitude rounded down to a whole step. This reads the pattern
/// of a normal number: the significand with its leading one, times two to
/// the exponent less the bias. The pattern of all bits clear stands for zero.
/// Patterns that stand for no number come out far beyond the range of the
/// fixed-point numbers.
pub open spec fn single_steps(bits: int) -> int {
    let exponent = (bits / 0x80_0000) % 0x100;
    let with_leading_one = 0x80_0000 + bits % 0x80_0000;
    let magnitude = if exponent >= 118 {
        with_leading_one * pow2((exponent - 118) as nat)
    } else {
        with_leading_one / (pow2((118 - exponent) as nat) as int)
    };
    if bits == 0 {
        0
    } else if bits / 0x8000_0000 == 1 {
        -magnitude
    } else {
        magnitude
    }
}

impl Fixed {
    /// The fixed-point number that a single-precision bit pattern stands
    /// for, its magnitude rounded down to a whole step; `None` where that is
    /// out of range.
    pub fn from_single_bits(bits: u32) -> (r: Option<Fixed>)
        ensures
            r.is_some() == crate::fixed::fits(single_steps(bits as int)),
            r matches Some(v) ==> v@ == single_steps(bits as int),
    {
        if bits == 0 {
            return Some(Fixed { raw: 0 });
        }
        let negative = bits / 0x8000_0000 == 1;
        let exponent: u32 = (bits / 0x80_0000) % 0x100;
        let with_leading_one: u64 = 0x80_0000 + (bits % 0x80_0000) as u64;
        proof {
            lemma2_to64();
            lemma2_to64_rest();
        }
        if exponent >= 118 {
            let shift: u32 = exponent - 118;
            if shift > 40 {
                proof {
                    lemma_pow2_strictly_increases(40, shift as nat);
                    assert(with_leading_one * pow2(shift as nat) > 0x8000_0000_0000_0000)
                        by (nonlinear_arith)
                        requires
                            with_leading_one >= 0x80_0000,
                            pow2(shift as nat) > 0x100_0000_0000,
                    ;
                }
                return None;
            }
            let factor: u64 = power_of_two(shift);
            proof {
                if shift < 40 {
                    lemma_pow2_strictly_increases(shift as nat, 40);
                }
                assert(with_leading_one * factor <= 0xff_ffff * 0x100_0000_0000) by (nonlinear_arith)
                    requires
                        with_leading_one <= 0xff_ffff,
                        factor <= 0x100_0000_0000,
                ;
            }
            let magnitude: u64 = with_leading_one * factor;
            if negative {
                if magnitude > 0x8000_0000_0000_0000 {
                    None
                } else {
                    Some(Fixed { raw: (-(magnitude as i128)) as i64 })
                }
            } else if magnitude > 0x7fff_ffff_ffff_ffff {
                None
            } else {
                Some(Fixed { raw: magnitude as i64 })
            }
        } else {
            let shift: u32 = 118 - exponent;
            let magnitude: u64 = if shift >= 24 {
                proof {
                    if shift > 24 {
                        lemma_pow2_strictly_increases(24, shift as nat);
                    }
                    vstd::arithmetic::div_mod::lemma_basic_div(
                        with_leading_one as int,
                        pow2(shift as nat) as int,
                    );
                }
                0
            } else {
                with_leading_one / power_of_two(shift)
            };
            if negative {
                Some(Fixed { raw: -(magnitude as i64) })
            } else {
                Some(Fixed { raw: magnitude as i64 })
            }
        }
    }
}

/// A positive number lies between the power of two of its leading one and
/// the next.
pub proof fn lemma_top_bit_bounds(m: nat)
    requires
        m > 0,
    ensures
        pow2(top_bit(m)) <= m < 2 * pow2(top_bit(m)),
    decreases m,
{
    lemma2_to64();
    if m > 1 {
        lemma_top_bit_bounds(m / 2);
        lemma_pow2_unfold(top_bit(m));
    }
}

/// The nearest count of whole units is within half a unit.
pub proof fn lemma_nearest_is_near(m: int, unit: int)
    requires
        unit > 0,
    ensures
        -unit <= 2 * (nearest(m, unit) * unit - m) <= unit,
{
    let q = m / unit;
    let r = m % unit;
    vstd::arithmetic::div_mod::lemma_fundamental_div_mod(m, unit);
    vstd::arithmetic::div_mod::lemma_mod_bound(m, unit);
    assert(unit * q == q * unit) by (nonlinear_arith);
    assert((q + 1) * unit == q * unit + unit) by (nonlinear_arith);
}

/// The significand of a positive step count has 24 bits, or is 2^24 after
/// rounding up.
pub proof fn lemma_significand_bounds(m: int)
    requires
        0 < m <= 0x8000_0000_0000_0000,
    ensures
        top_bit(m as nat) <= 63,
        0x80_0000 <= significand(m) <= 0x100_0000,
        top_bit(m as nat) <= 23 ==> significand(m) < 0x100_0000,
{
    let k = top_bit(m as nat);
    lemma_top_bit_bounds(m as nat);
    lemma2_to64();
    lemma2_to64_rest();
    if k > 63 {
        if k > 64 {
            lemma_pow2_strictly_increases(64, k);
        }
        assert(false);
    }
    let p = pow2(k) as int;
    if k <= 23 {
        let s = pow2((23 - k) as nat) as int;
        lemma_pow2_adds(k, (23 - k) as nat);
        lemma_pow2_pos((23 - k) as nat);
        assert(p * s == 0x80_0000);
        assert(m * s >= 0x80_0000 && m * s < 0x100_0000) by (nonlinear_arith)
            requires
                p <= m < 2 * p,
                p * s == 0x80_0000,
                s > 0,
        ;
    } else {
        let u = pow2((k - 23) as nat) as int;
        lemma_pow2_adds(23, (k - 23) as nat);
        lemma_pow2_pos((k - 23) as nat);
        assert(p == 0x80_0000 * u);
        lemma_div_at_least(m, u, 0x80_0000);
        lemma_floor_bounds(m, u);
        assert(m / u <= 0xff_ffff) by (nonlinear_arith)
            requires
                (m / u) * u <= m,
                m < 2 * p,
                p == 0x80_0000 * u,
                u > 0,
        ;
    }
}

/// The bit pattern of every number is a word of 32 bits.
pub proof fn lemma_single_bits_fit(raw: int)
    requires
        -0x8000_0000_0000_0000 <= raw <= 0x7fff_ffff_ffff_ffff,
    ensures
        0 <= single_bits(raw) <= 0xffff_ffff,
        single_bits(raw) as u32 == single_bits(raw),
{
    if raw != 0 {
        let m = if raw < 0 {
            -raw
        } else {
            raw
        };
        lemma_significand_bounds(m);
        let k = top_bit(m as nat);
        assert(0 <= (k + 95) * 0x80_0000 <= 158 * 0x80_0000) by (nonlinear_arith)
            requires
                0 <= k <= 63,
        ;
    }
}

/// The bit pattern of a number stands for the number itself where the
/// number has no more than 24 bits from its leading one down, and else for
/// a number within half a unit of the last of those 24 places.
pub proof fn lemma_single_is_nearest(raw: int)
    requires
        -0x8000_0000_0000_0000 <= raw <= 0x7fff_ffff_ffff_ffff,
    ensures
        ({
            let back = single_steps(single_bits(raw));
            let m = if raw < 0 {
                -raw
            } else {
                raw
            };
            let k = top_bit(m as nat);
            &&& raw == 0 ==> back == 0
            &&& raw != 0 && k <= 23 ==> back == raw
            &&& raw != 0 && k > 23 ==> -pow2((k - 23) as nat) <= 2 * (back - raw) <= pow2(
                (k - 23) as nat,
            )
        }),
{
    if raw != 0 {
        let m = if raw < 0 {
            -raw
        } else {
            raw
        };
        let k = top_bit(m as nat);
        let sign: int = if raw < 0 {
            1
        } else {
            0
        };
        let sig = significand(m);
        lemma_significand_bounds(m);
        lemma2_to64();
        let bits = single_bits(raw);
        assert(bits == sign * 0x8000_0000 + (k + 95) * 0x80_0000 + (sig - 0x80_0000));
        // The fields of the pattern: the exponent is one more where the
        // significand was rounded up to 2^24.
        let carry: int = if sig == 0x100_0000 {
            1
        } else {
            0
        };
        let exponent = k + 95 + carry;
        let low = sig - 0x80_0000 - carry * 0x80_0000;
        assert(bits == (sign * 0x100 + exponent) * 0x80_0000 + low);
        assert(0 <= low < 0x80_0000);
        lemma_fundamental_div_mod_converse(bits, 0x80_0000, sign * 0x100 + exponent, low);
        lemma_fundamental_div_mod_converse(sign * 0x100 + exponent, 0x100, sign, exponent);
        assert(bits == sign * 0x8000_0000 + (exponent * 0x80_0000 + low));
        lemma_fundamental_div_mod_converse(bits, 0x8000_0000, sign, exponent * 0x80_0000 + low);
        assert(bits != 0);
        let with_leading_one = 0x80_0000 + low;
        if k <= 23 {
            let s = pow2((23 - k) as nat) as int;
            lemma_pow2_pos((23 - k) as nat);
            assert(with_leading_one == m * s);
            assert((m * s) / s == m) by (nonlinear_arith)
                requires
                    s > 0,
            ;
            assert(pow2(0) == 1);
            assert(m * 1 == m);
        } else {
            let u = pow2((k - 23) as nat) as int;
            lemma_pow2_pos((k - 23) as nat);
            lemma_nearest_is_near(m, u);
            if carry == 1 {
                lemma_pow2_unfold((k - 22) as nat);
                assert(with_leading_one * pow2((k - 22) as nat) == sig * u) by (nonlinear_arith)
                    requires
                        with_leading_one == 0x80_0000,
                        sig == 0x100_0000,
                        pow2((k - 22) as nat) == 2 * u,
                ;
            }
        }
    }
}

/// The number that is carried in single precision in place of a step
/// count: what the count's bit pattern stands for, or the count itself where
/// that lies beyond the range.
pub open spec fn single_head(raw: int) -> int {
    let back = single_steps(single_bits(raw));
    if crate::fixed::fits(back) {
        back
    } else {
        raw
    }
}

impl Fixed {
    /// Parts the number in two: the number that single precision carries in
    /// its place, and what single precision loses. The two add up to the
    /// number, exactly.
    pub fn split_single(self) -> (r: (Fixed, Fixed))
        ensures
            r.0@ == single_head(self@),
            r.0@ + r.1@ == self@,
            -0x80_0000_0000 <= r.1@ <= 0x80_0000_0000,
    {
        proof {
            lemma_single_is_nearest(self@);
            if self@ != 0 {
                let m: int = if self@ < 0 {
                    -self@
                } else {
                    self@
                };
                let k = top_bit(m as nat);
                lemma_top_bit_bounds(m as nat);
                lemma2_to64();
                lemma2_to64_rest();
                if k > 63 {
                    lemma_pow2_strictly_increases(64, k);
                }
                if 23 < k && k < 63 {
                    lemma_pow2_strictly_increases((k - 23) as nat, 40);
                }
            }
        }
        let head = match Fixed::from_single_bits(self.to_single_bits()) {
            Some(h) => h,
            None => self,
        };
        (head, Fixed { raw: self.raw - head.raw })
    }
}

} // verus!
