//! Binary fixed-point numbers.
//!
//! A [`Fixed`] holds a signed 64-bit count of steps of 2^-32, so the values
//! run from -2^31 up to just under 2^31. Sums and differences are exact.
//! Products and quotients are rounded down to the next step. Every operation
//! says when its result leaves the range, and none of them wraps.

use std::ops::Add;
use std::ops::Div;
use std::ops::Mul;
use std::ops::Neg;
use std::ops::Sub;
use vstd::arithmetic::div_mod::lemma_fundamental_div_mod_converse;
use vstd::prelude::*;
use vstd::std_specs::ops::AddSpecImpl;
use vstd::std_specs::ops::DivSpecImpl;
use vstd::std_specs::ops::MulSpecImpl;
use vstd::std_specs::ops::NegSpecImpl;
use vstd::std_specs::ops::SubSpecImpl;

verus! {

/// How many binary places follow the point.
pub const FRACTION_BITS: u32 = 32;

/// The step count of the number one.
pub const ONE_RAW: i64 = 0x1_0000_0000;

/// The step count of one half.
pub const HALF_RAW: i64 = 0x8000_0000;

/// A fixed-point number: `raw` steps of 2^-32.
#[derive(Debug, Copy, Clone, PartialEq, Eq, Structural)]
pub struct Fixed {
    pub raw: i64,
}

impl View for Fixed {
    type V = int;

    /// The number as its count of steps.
    open spec fn view(&self) -> int {
        self.raw as int
    }
}

/// Whether a step count can be held.
pub open spec fn fits(steps: int) -> bool {
    i64::MIN <= steps <= i64::MAX
}

/// The step count of a product, rounded down.
pub open spec fn product(a: int, b: int) -> int {
    (a * b) / (ONE_RAW as int)
}

/// The step count of the quotient `a / b`, rounded down; `b` is not zero.
pub open spec fn quotient(a: int, b: int) -> int {
    if b > 0 {
        (a * ONE_RAW) / b
    } else {
        ((-a) * ONE_RAW) / (-b)
    }
}

/// `a * b / c` with a single rounding down at the end; `c` is positive.
pub open spec fn ratio(a: int, b: int, c: int) -> int {
    (a * b) / c
}

/// A step count held at the ends of the range.
pub open spec fn clamp(v: int) -> int {
    if v < i64::MIN {
        i64::MIN as int
    } else if v > i64::MAX {
        i64::MAX as int
    } else {
        v
    }
}

/// The product of two numbers, rounded down and held in range.
pub open spec fn held_product(a: int, b: int) -> int {
    clamp(product(a, b))
}

/// The part of a step count that lies below the next whole number: the
/// fraction, as a count between zero and one.
pub open spec fn fraction(steps: int) -> int {
    steps % (ONE_RAW as int)
}

/// A product is bounded by the product of the bounds.
pub proof fn lemma_product_bounds(a: int, b: int, la: int, lb: int)
    by (nonlinear_arith)
    requires
        -la <= a <= la,
        -lb <= b <= lb,
    ensures
        -(la * lb) <= a * b <= la * lb,
{
}

/// A rounded-down quotient, multiplied back, lies within one divisor below
/// the dividend.
pub proof fn lemma_floor_bounds(a: int, b: int)
    requires
        b > 0,
    ensures
        (a / b) * b <= a < (a / b) * b + b,
{
    vstd::arithmetic::div_mod::lemma_fundamental_div_mod(a, b);
    vstd::arithmetic::div_mod::lemma_mod_bound(a, b);
    assert(b * (a / b) == (a / b) * b) by (nonlinear_arith);
}

/// A dividend of at most `k` divisors has a quotient of at most `k`.
pub proof fn lemma_div_at_most(a: int, b: int, k: int)
    requires
        b > 0,
        a <= k * b,
    ensures
        a / b <= k,
{
    lemma_floor_bounds(a, b);
    let q = a / b;
    assert(q <= k) by (nonlinear_arith)
        requires
            b > 0,
            q * b <= a,
            a <= k * b,
    ;
}

/// A dividend of at least `k` divisors has a quotient of at least `k`.
pub proof fn lemma_div_at_least(a: int, b: int, k: int)
    requires
        b > 0,
        a >= k * b,
    ensures
        a / b >= k,
{
    lemma_floor_bounds(a, b);
    let q = a / b;
    assert(q >= k) by (nonlinear_arith)
        requires
            b > 0,
            a < q * b + b,
            a >= k * b,
    ;
}

/// The quotient of a sum is the sum of the quotients, or one more; it is the
/// sum exactly when the two remainders together stay below the divisor.
pub proof fn lemma_floor_of_sum(a: int, b: int, v: int)
    requires
        v > 0,
    ensures
        0 <= (a + b) / v - a / v - b / v <= 1,
        ((a + b) / v == a / v + b / v) <==> (a % v) + (b % v) < v,
{
    vstd::arithmetic::div_mod::lemma_fundamental_div_mod(a, v);
    vstd::arithmetic::div_mod::lemma_fundamental_div_mod(b, v);
    vstd::arithmetic::div_mod::lemma_mod_bound(a, v);
    vstd::arithmetic::div_mod::lemma_mod_bound(b, v);
    let qa = a / v;
    let qb = b / v;
    let ra = a % v;
    let rb = b % v;
    assert(v * qa == qa * v) by (nonlinear_arith);
    assert(v * qb == qb * v) by (nonlinear_arith);
    assert((qa + qb) * v == qa * v + qb * v) by (nonlinear_arith);
    assert((qa + qb + 1) * v == qa * v + qb * v + v) by (nonlinear_arith);
    if ra + rb < v {
        lemma_fundamental_div_mod_converse(a + b, v, qa + qb, ra + rb);
    } else {
        lemma_fundamental_div_mod_converse(a + b, v, qa + qb + 1, ra + rb - v);
    }
}

/// Rounded-down division of wide integers by a positive divisor.
pub fn floor_div(n: i128, d: i128) -> (q: i128)
    requires
        d > 0,
        n > i128::MIN,
    ensures
        q == n / d,
        n % d == n - q * d,
{
    let t: i128 = n / d;
    let r: i128 = n % d;
    if r < 0 {
        proof {
            // The machine rounds toward zero: here `n` is negative and
            // `t * d + r == n` with `-d < r < 0`.
            let m = -(n as int);
            vstd::arithmetic::div_mod::lemma_fundamental_div_mod(m, d as int);
            assert(t == -(m / (d as int)));
            assert(r == -(m % (d as int)));
            assert(d * (m / (d as int)) == (m / (d as int)) * d) by (nonlinear_arith);
            assert((-(m / (d as int))) * d == -((m / (d as int)) * d)) by (nonlinear_arith);
            assert(n == t * d + r);
            assert((t - 1) * d == t * d - d) by (nonlinear_arith);
            assert(n == (t - 1) * d + (r + d));
            lemma_fundamental_div_mod_converse(n as int, d as int, t - 1, r + d);
        }
        t - 1
    } else {
        proof {
            if n >= 0 {
                vstd::arithmetic::div_mod::lemma_fundamental_div_mod(n as int, d as int);
                assert(d * (n / d) == (n / d) * d) by (nonlinear_arith);
            } else {
                let m = -(n as int);
                vstd::arithmetic::div_mod::lemma_fundamental_div_mod(m, d as int);
                assert(t == -(m / (d as int)));
                assert(r == -(m % (d as int)));
                assert(d * (m / (d as int)) == (m / (d as int)) * d) by (nonlinear_arith);
                assert((-(m / (d as int))) * d == -((m / (d as int)) * d)) by (nonlinear_arith);
                assert(n == t * d + 0);
                lemma_fundamental_div_mod_converse(n as int, d as int, t as int, 0);
            }
        }
        t
    }
}

/// The number with the given step count, where it can be held.
pub fn narrow(steps: i128) -> (r: Option<Fixed>)
    ensures
        r == (if fits(steps as int) {
            Some(Fixed { raw: steps as i64 })
        } else {
            None
        }),
{
    if steps < -0x8000_0000_0000_0000 || steps > 0x7fff_ffff_ffff_ffff {
        None
    } else {
        Some(Fixed { raw: steps as i64 })
    }
}

/// The number whose step count is `v` held at the ends of the range.
pub fn hold(v: i128) -> (r: Fixed)
    ensures
        r@ == clamp(v as int),
{
    if v < -0x8000_0000_0000_0000 {
        Fixed { raw: -0x8000_0000_0000_0000 }
    } else if v > 0x7fff_ffff_ffff_ffff {
        Fixed { raw: 0x7fff_ffff_ffff_ffff }
    } else {
        Fixed { raw: v as i64 }
    }
}

impl Fixed {
    /// The number with exactly this step count.
    pub fn from_raw(raw: i64) -> (r: Fixed)
        ensures
            r@ == raw,
    {
        Fixed { raw }
    }

    /// A whole number.
    pub fn from_int(n: i32) -> (r: Fixed)
        ensures
            r@ == n * ONE_RAW,
    {
        assert(-0x8000_0000 * 0x1_0000_0000 <= n * 0x1_0000_0000 <= 0x7fff_ffff * 0x1_0000_0000);
        Fixed { raw: (n as i64) * ONE_RAW }
    }

    /// Zero.
    pub fn zero() -> (r: Fixed)
        ensures
            r@ == 0,
    {
        Fixed { raw: 0 }
    }

    /// One.
    pub fn one() -> (r: Fixed)
        ensures
            r@ == ONE_RAW,
    {
        Fixed { raw: ONE_RAW }
    }

    /// The sum, unless it leaves the range.
    pub fn checked_add(self, rhs: Fixed) -> (r: Option<Fixed>)
        ensures
            r == (if fits(self@ + rhs@) {
                Some(Fixed { raw: (self@ + rhs@) as i64 })
            } else {
                None
            }),
    {
        narrow(self.raw as i128 + rhs.raw as i128)
    }

    /// The difference, unless it leaves the range.
    pub fn checked_sub(self, rhs: Fixed) -> (r: Option<Fixed>)
        ensures
            r == (if fits(self@ - rhs@) {
                Some(Fixed { raw: (self@ - rhs@) as i64 })
            } else {
                None
            }),
    {
        narrow(self.raw as i128 - rhs.raw as i128)
    }

    /// The product rounded down, unless it leaves the range.
    pub fn checked_mul(self, rhs: Fixed) -> (r: Option<Fixed>)
        ensures
            r == (if fits(product(self@, rhs@)) {
                Some(Fixed { raw: product(self@, rhs@) as i64 })
            } else {
                None
            }),
    {
        proof {
            lemma_product_bounds(
                self@,
                rhs@,
                0x8000_0000_0000_0000,
                0x8000_0000_0000_0000,
            );
        }
        let wide: i128 = (self.raw as i128) * (rhs.raw as i128);
        narrow(floor_div(wide, ONE_RAW as i128))
    }

    /// The product rounded down and held at the ends of the range.
    pub fn saturating_mul(a: Fixed, b: Fixed) -> (r: Fixed)
        ensures
            r@ == held_product(a@, b@),
    {
        proof {
            lemma_product_bounds(a@, b@, 0x8000_0000_0000_0000, 0x8000_0000_0000_0000);
        }
        let wide: i128 = (a.raw as i128) * (b.raw as i128);
        hold(floor_div(wide, ONE_RAW as i128))
    }

    /// The quotient rounded down, unless the divisor is zero or the quotient
    /// leaves the range.
    pub fn checked_div(self, rhs: Fixed) -> (r: Option<Fixed>)
        ensures
            r == (if rhs@ != 0 && fits(quotient(self@, rhs@)) {
                Some(Fixed { raw: quotient(self@, rhs@) as i64 })
            } else {
                None
            }),
    {
        if rhs.raw == 0 {
            return None;
        }
        proof {
            lemma_product_bounds(self@, ONE_RAW as int, 0x8000_0000_0000_0000, ONE_RAW as int);
            lemma_product_bounds(-self@, ONE_RAW as int, 0x8000_0000_0000_0000, ONE_RAW as int);
        }
        if rhs.raw > 0 {
            let wide: i128 = (self.raw as i128) * (ONE_RAW as i128);
            narrow(floor_div(wide, rhs.raw as i128))
        } else {
            let wide: i128 = (-(self.raw as i128)) * (ONE_RAW as i128);
            narrow(floor_div(wide, -(rhs.raw as i128)))
        }
    }

    /// `self * num / den` with one rounding down at the end, unless `den` is
    /// not positive or the result leaves the range.
    pub fn checked_mul_div(self, num: Fixed, den: Fixed) -> (r: Option<Fixed>)
        ensures
            r == (if den@ > 0 && fits(ratio(self@, num@, den@)) {
                Some(Fixed { raw: ratio(self@, num@, den@) as i64 })
            } else {
                None
            }),
    {
        if den.raw <= 0 {
            return None;
        }
        proof {
            lemma_product_bounds(
                self@,
                num@,
                0x8000_0000_0000_0000,
                0x8000_0000_0000_0000,
            );
        }
        let wide: i128 = (self.raw as i128) * (num.raw as i128);
        narrow(floor_div(wide, den.raw as i128))
    }

    /// The fraction of the number: what is left above the next whole number
    /// below it. It lies between zero and one.
    pub fn fract(self) -> (r: Fixed)
        ensures
            r@ == fraction(self@),
            0 <= r@ < ONE_RAW,
    {
        let q: i128 = floor_div(self.raw as i128, ONE_RAW as i128);
        proof {
            vstd::arithmetic::div_mod::lemma_mod_bound(self@, ONE_RAW as int);
        }
        Fixed { raw: (self.raw as i128 - q * (ONE_RAW as i128)) as i64 }
    }

    /// Whether the number is a whole number.
    pub fn is_whole(self) -> (r: bool)
        ensures
            r == (fraction(self@) == 0),
    {
        self.fract().raw == 0
    }

    /// The smaller of two numbers.
    pub fn min(self, other: Fixed) -> (r: Fixed)
        ensures
            r@ == (if self@ <= other@ {
                self@
            } else {
                other@
            }),
    {
        if self.raw <= other.raw {
            self
        } else {
            other
        }
    }

    /// The number held between two bounds.
    pub fn clamp(self, low: Fixed, high: Fixed) -> (r: Fixed)
        requires
            low@ <= high@,
        ensures
            r@ == (if self@ < low@ {
                low@
            } else if self@ > high@ {
                high@
            } else {
                self@
            }),
    {
        if self.raw < low.raw {
            low
        } else if self.raw > high.raw {
            high
        } else {
            self
        }
    }
}

impl AddSpecImpl<Fixed> for Fixed {
    open spec fn obeys_add_spec() -> bool {
        true
    }

    open spec fn add_req(self, rhs: Fixed) -> bool {
        fits(self@ + rhs@)
    }

    open spec fn add_spec(self, rhs: Fixed) -> Fixed {
        Fixed { raw: (self@ + rhs@) as i64 }
    }
}

impl Add<Fixed> for Fixed {
    type Output = Fixed;

    /// The exact sum.
    fn add(self, rhs: Fixed) -> (ret: Fixed) {
        Fixed { raw: self.raw + rhs.raw }
    }
}

impl SubSpecImpl<Fixed> for Fixed {
    open spec fn obeys_sub_spec() -> bool {
        true
    }

    open spec fn sub_req(self, rhs: Fixed) -> bool {
        fits(self@ - rhs@)
    }

    open spec fn sub_spec(self, rhs: Fixed) -> Fixed {
        Fixed { raw: (self@ - rhs@) as i64 }
    }
}

impl Sub<Fixed> for Fixed {
    type Output = Fixed;

    /// The exact difference.
    fn sub(self, rhs: Fixed) -> (ret: Fixed) {
        Fixed { raw: self.raw - rhs.raw }
    }
}

impl MulSpecImpl<Fixed> for Fixed {
    open spec fn obeys_mul_spec() -> bool {
        true
    }

    open spec fn mul_req(self, rhs: Fixed) -> bool {
        fits(product(self@, rhs@))
    }

    open spec fn mul_spec(self, rhs: Fixed) -> Fixed {
        Fixed { raw: product(self@, rhs@) as i64 }
    }
}

impl Mul<Fixed> for Fixed {
    type Output = Fixed;

    /// The product, rounded down to the next step.
    fn mul(self, rhs: Fixed) -> (ret: Fixed) {
        Fixed::saturating_mul(self, rhs)
    }
}

impl DivSpecImpl<Fixed> for Fixed {
    open spec fn obeys_div_spec() -> bool {
        true
    }

    open spec fn div_req(self, rhs: Fixed) -> bool {
        rhs@ != 0 && fits(quotient(self@, rhs@))
    }

    open spec fn div_spec(self, rhs: Fixed) -> Fixed {
        Fixed { raw: quotient(self@, rhs@) as i64 }
    }
}

impl Div<Fixed> for Fixed {
    type Output = Fixed;

    /// The quotient, rounded down to the next step.
    fn div(self, rhs: Fixed) -> (ret: Fixed) {
        proof {
            lemma_product_bounds(self@, ONE_RAW as int, 0x8000_0000_0000_0000, ONE_RAW as int);
            lemma_product_bounds(-self@, ONE_RAW as int, 0x8000_0000_0000_0000, ONE_RAW as int);
        }
        if rhs.raw > 0 {
            hold(floor_div((self.raw as i128) * (ONE_RAW as i128), rhs.raw as i128))
        } else {
            hold(floor_div((-(self.raw as i128)) * (ONE_RAW as i128), -(rhs.raw as i128)))
        }
    }
}

impl NegSpecImpl for Fixed {
    open spec fn obeys_neg_spec() -> bool {
        true
    }

    open spec fn neg_req(self) -> bool {
        self@ != i64::MIN
    }

    open spec fn neg_spec(self) -> Fixed {
        Fixed { raw: (-self@) as i64 }
    }
}

impl Neg for Fixed {
    type Output = Fixed;

    /// The number with its sign changed.
    fn neg(self) -> (ret: Fixed) {
        Fixed { raw: -self.raw }
    }
}

} // verus!
