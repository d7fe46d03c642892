//! The smooth escape step: the whole step at which an orbit left the escape
//! radius, made continuous by how far outside the first outside point lies.
//!
//! With `n` the escape step, `z` the first point outside and `p` the exponent
//! of the iteration, the estimate is `n + 1 - log(log |z|) / log(p)`. In
//! binary logarithms that is `n + 1 - log2(ln |z|) / log2(p)`, with
//! `ln |z| = log2 |z| * ln 2`. It is stated for a point outside the escape
//! radius and a positive exponent whose logarithm, as it is computed here,
//! is not nothing: the exponent one has no estimate, the exponents above it
//! have one below `n + 1`, and those below it have one above `n + 1`.

use crate::fixed::Fixed;
use crate::fixed::ONE_RAW;
use crate::fixed::clamp;
use crate::fixed::floor_div;
use crate::fixed::hold;
use crate::fixed::lemma_div_at_least;
use crate::fixed::lemma_div_at_most;
use crate::fixed::product;
use crate::fixed::quotient;
use crate::fractal::ESCAPE_RADIUS_SQUARED_RAW;
use crate::fractal::ShadingSettings;
use crate::fractal::ShadingType;
use crate::fractal::escaped;
use crate::fractal::has_escaped;
use crate::fractal::parts;
use crate::fractal::squared_modulus;
use crate::logarithm::binary_log;
use crate::logarithm::binary_logarithm;
use crate::logarithm::lemma_log_bounds;
use crate::logarithm::lemma_log_of_double;
use crate::logarithm::lemma_top_bit_is_ordered;
use crate::logarithm::lemma_wide_powers;
use crate::polar::modulus_log;
use crate::polar::modulus_logarithm;
use crate::single::top_bit;
use crate::vector2::Vector2;
use vstd::arithmetic::power2::lemma2_to64;
use vstd::arithmetic::power2::lemma_pow2_adds;
use vstd::arithmetic::power2::pow2;
use vstd::prelude::*;

verus! {

/// The step count of the natural logarithm of two.
pub const LN_TWO_RAW: i64 = 2_977_044_472;

/// The binary logarithm of the natural logarithm of the distance of a point
/// from the origin.
pub open spec fn depth_of(z: (int, int)) -> int {
    binary_log(product(modulus_log(z), LN_TWO_RAW as int) as nat) - 32 * ONE_RAW
}

/// The binary logarithm of an exponent, which is a count of steps of 2^-32.
/// The exponent is positive.
pub open spec fn exponent_log(exponent: int) -> int {
    binary_log(exponent as nat) - 32 * ONE_RAW
}

/// Whether the smooth escape step is stated: the point lies outside the
/// escape radius, the exponent is positive, and its logarithm is not
/// nothing.
pub open spec fn smooth_applies(last: (int, int), exponent: int) -> bool {
    &&& escaped(last)
    &&& exponent > 0
    &&& exponent_log(exponent) != 0
}

/// The smooth escape step of an orbit that left the escape radius at step
/// `steps` with the point `last`, under the exponent `exponent`.
pub open spec fn smooth_of(steps: nat, last: (int, int), exponent: int) -> int {
    clamp((steps + 1) * ONE_RAW - quotient(depth_of(last), exponent_log(exponent)))
}

/// Outside the escape radius the distance from the origin has a binary
/// logarithm from two up to thirty-two.
pub proof fn lemma_modulus_log_bounds(z: (int, int))
    requires
        escaped(z),
        i64::MIN <= z.0 <= i64::MAX,
        i64::MIN <= z.1 <= i64::MAX,
    ensures
        2 * ONE_RAW <= modulus_log(z) < 32 * ONE_RAW,
{
    let n = squared_modulus(z) as nat;
    lemma_wide_powers();
    lemma2_to64();
    lemma_pow2_adds(64, 4);
    crate::fixed::lemma_product_bounds(z.0, z.0, 0x8000_0000_0000_0000, 0x8000_0000_0000_0000);
    crate::fixed::lemma_product_bounds(z.1, z.1, 0x8000_0000_0000_0000, 0x8000_0000_0000_0000);
    lemma_pow2_adds(64, 63);
    assert(0x8000_0000_0000_0000 * 0x8000_0000_0000_0000
        == 0x4000_0000_0000_0000_0000_0000_0000_0000) by (nonlinear_arith);
    assert(n <= 0x8000_0000_0000_0000_0000_0000_0000_0000);
    assert(pow2(68) == ESCAPE_RADIUS_SQUARED_RAW);
    lemma_top_bit_is_ordered(n, 68);
    lemma_top_bit_is_ordered(n, 128);
    lemma_log_bounds(n);
    let k = top_bit(n);
    assert(68 <= k <= 127);
    assert(k * ONE_RAW >= 68 * ONE_RAW) by (nonlinear_arith)
        requires
            k >= 68,
    ;
    assert((k + 1) * ONE_RAW <= 128 * ONE_RAW) by (nonlinear_arith)
        requires
            k <= 127,
    ;
}

/// Outside the escape radius the natural logarithm of the distance from the
/// origin is greater than one, and its binary logarithm lies from zero up to
/// five.
pub proof fn lemma_depth_bounds(z: (int, int))
    requires
        escaped(z),
        i64::MIN <= z.0 <= i64::MAX,
        i64::MIN <= z.1 <= i64::MAX,
    ensures
        ONE_RAW <= product(modulus_log(z), LN_TWO_RAW as int) < 32 * ONE_RAW,
        0 <= depth_of(z) < 5 * ONE_RAW,
{
    let b = modulus_log(z);
    let natural = product(b, LN_TWO_RAW as int);
    lemma_modulus_log_bounds(z);
    assert(ONE_RAW * ONE_RAW <= b * LN_TWO_RAW <= (32 * ONE_RAW - 1) * ONE_RAW)
        by (nonlinear_arith)
        requires
            2 * ONE_RAW <= b <= 32 * ONE_RAW - 1,
            LN_TWO_RAW == 2_977_044_472,
            ONE_RAW == 0x1_0000_0000,
    ;
    lemma_div_at_least(b * LN_TWO_RAW, ONE_RAW as int, ONE_RAW as int);
    lemma_div_at_most(b * LN_TWO_RAW, ONE_RAW as int, 32 * ONE_RAW - 1);
    lemma2_to64();
    vstd::arithmetic::power2::lemma2_to64_rest();
    lemma_top_bit_is_ordered(natural as nat, 32);
    lemma_top_bit_is_ordered(natural as nat, 37);
    lemma_log_bounds(natural as nat);
    let k = top_bit(natural as nat);
    assert(32 <= k <= 36);
    assert(k * ONE_RAW >= 32 * ONE_RAW) by (nonlinear_arith)
        requires
            k >= 32,
    ;
    assert((k + 1) * ONE_RAW <= 37 * ONE_RAW) by (nonlinear_arith)
        requires
            k <= 36,
    ;
}

/// An exponent of at least two has a logarithm of at least one, the
/// exponent one has the logarithm nothing, and an exponent below one has a
/// negative logarithm.
pub proof fn lemma_exponent_log_bounds(exponent: int)
    requires
        0 < exponent <= i64::MAX,
    ensures
        exponent >= 2 * ONE_RAW ==> exponent_log(exponent) >= ONE_RAW,
        exponent >= ONE_RAW ==> exponent_log(exponent) >= 0,
        exponent == ONE_RAW ==> exponent_log(exponent) == 0,
        exponent < ONE_RAW ==> exponent_log(exponent) < 0,
        -32 * ONE_RAW <= exponent_log(exponent) < 31 * ONE_RAW,
{
    let n = exponent as nat;
    lemma2_to64();
    vstd::arithmetic::power2::lemma2_to64_rest();
    lemma_wide_powers();
    lemma_top_bit_is_ordered(n, 33);
    lemma_top_bit_is_ordered(n, 32);
    lemma_top_bit_is_ordered(n, 63);
    lemma_log_bounds(n);
    let k = top_bit(n);
    assert(k * ONE_RAW >= 0) by (nonlinear_arith)
        requires
            k >= 0,
    ;
    assert((k + 1) * ONE_RAW <= 63 * ONE_RAW) by (nonlinear_arith)
        requires
            k <= 62,
    ;
    if exponent >= 2 * ONE_RAW {
        assert(k * ONE_RAW >= 33 * ONE_RAW) by (nonlinear_arith)
            requires
                k >= 33,
        ;
    }
    if exponent < ONE_RAW {
        assert((k + 1) * ONE_RAW <= 32 * ONE_RAW) by (nonlinear_arith)
            requires
                k <= 31,
        ;
    } else {
        assert(k * ONE_RAW >= 32 * ONE_RAW) by (nonlinear_arith)
            requires
                k >= 32,
        ;
    }
    if exponent == ONE_RAW {
        crate::logarithm::lemma_log_of_power(32);
    }
}

/// Where it is stated for an exponent of at least two and fits the range,
/// the smooth escape step lies above the whole step less four, and is no
/// more than the whole step and one.
pub proof fn lemma_smooth_is_near_the_step(steps: nat, last: (int, int), exponent: int)
    requires
        escaped(last),
        2 * ONE_RAW <= exponent <= i64::MAX,
        i64::MIN <= last.0 <= i64::MAX,
        i64::MIN <= last.1 <= i64::MAX,
        (steps + 1) * ONE_RAW <= i64::MAX,
    ensures
        smooth_applies(last, exponent),
        (steps - 4) * ONE_RAW < smooth_of(steps, last, exponent) <= (steps + 1) * ONE_RAW,
{
    let depth = depth_of(last);
    let base = exponent_log(exponent);
    lemma_depth_bounds(last);
    lemma_exponent_log_bounds(exponent);
    assert(0 <= depth * ONE_RAW < 5 * ONE_RAW * base) by (nonlinear_arith)
        requires
            0 <= depth < 5 * ONE_RAW,
            base >= ONE_RAW,
            ONE_RAW > 0,
    ;
    lemma_div_at_least(depth * ONE_RAW, base, 0);
    lemma_div_at_most(depth * ONE_RAW, base, 5 * ONE_RAW - 1);
    assert((steps - 4) * ONE_RAW == (steps + 1) * ONE_RAW - 5 * ONE_RAW) by (nonlinear_arith);
}

/// Under an exponent below one the smooth escape step is stated, and is no
/// less than the whole step and one.
pub proof fn lemma_smooth_under_a_small_exponent(steps: nat, last: (int, int), exponent: int)
    requires
        escaped(last),
        0 < exponent < ONE_RAW,
        i64::MIN <= last.0 <= i64::MAX,
        i64::MIN <= last.1 <= i64::MAX,
        (steps + 1) * ONE_RAW <= i64::MAX,
    ensures
        smooth_applies(last, exponent),
        smooth_of(steps, last, exponent) >= (steps + 1) * ONE_RAW,
{
    let depth = depth_of(last);
    let base = exponent_log(exponent);
    lemma_depth_bounds(last);
    lemma_exponent_log_bounds(exponent);
    assert((-depth) * ONE_RAW <= 0) by (nonlinear_arith)
        requires
            depth >= 0,
            ONE_RAW > 0,
    ;
    lemma_div_at_most((-depth) * ONE_RAW, -base, 0);
}

/// Across a jump of the whole step the smooth step does not jump. Under the
/// classic square take an orbit that leaves the escape radius at step
/// `steps` with the point `last`, and one that leaves a step later with a
/// point as far out as the square of `last`, which is the point whose
/// natural logarithm is twice as large. The two have the same smooth step:
/// the one that the whole step gains, the logarithm of the logarithm takes
/// back.
pub proof fn lemma_smooth_has_no_jump(steps: nat, last: (int, int), later: (int, int))
    requires
        escaped(last),
        escaped(later),
        i64::MIN <= last.0 <= i64::MAX,
        i64::MIN <= last.1 <= i64::MAX,
        i64::MIN <= later.0 <= i64::MAX,
        i64::MIN <= later.1 <= i64::MAX,
        product(modulus_log(later), LN_TWO_RAW as int) == 2 * product(
            modulus_log(last),
            LN_TWO_RAW as int,
        ),
    ensures
        smooth_applies(last, 2 * ONE_RAW),
        smooth_applies(later, 2 * ONE_RAW),
        smooth_of(steps + 1, later, 2 * ONE_RAW) == smooth_of(steps, last, 2 * ONE_RAW),
{
    let natural = product(modulus_log(last), LN_TWO_RAW as int);
    lemma_depth_bounds(last);
    lemma_depth_bounds(later);
    lemma_log_of_double(natural as nat);
    assert(depth_of(later) == depth_of(last) + ONE_RAW);
    lemma2_to64();
    vstd::arithmetic::power2::lemma2_to64_rest();
    crate::logarithm::lemma_log_of_power(33);
    assert(33 * ONE_RAW - 32 * ONE_RAW == ONE_RAW);
    assert(exponent_log(2 * ONE_RAW) == ONE_RAW);
    vstd::arithmetic::div_mod::lemma_div_by_multiple(depth_of(last), ONE_RAW as int);
    vstd::arithmetic::div_mod::lemma_div_by_multiple(depth_of(later), ONE_RAW as int);
    assert((steps + 1 + 1) * ONE_RAW == (steps + 1) * ONE_RAW + ONE_RAW) by (nonlinear_arith);
}

/// The smooth escape step, where it is stated.
pub fn smooth_estimate(steps: u32, last: Vector2<Fixed>, exponent: Fixed) -> (r: Option<Fixed>)
    ensures
        r.is_some() == smooth_applies(parts(last), exponent@),
        r matches Some(v) ==> v@ == smooth_of(steps as nat, parts(last), exponent@),
{
    if exponent.raw <= 0 || !has_escaped(last) {
        return None;
    }
    proof {
        lemma_modulus_log_bounds(parts(last));
        lemma_depth_bounds(parts(last));
        lemma_exponent_log_bounds(exponent@);
        assert(last.x@ != 0 || last.y@ != 0) by {
            if last.x@ == 0 && last.y@ == 0 {
                assert(squared_modulus(parts(last)) == 0) by (nonlinear_arith)
                    requires
                        parts(last) == (0int, 0int),
                ;
            }
        }
    }
    let base: i64 = binary_logarithm(exponent.raw as u128) - 32 * ONE_RAW;
    if base == 0 {
        return None;
    }
    let half = modulus_logarithm(last);
    let natural: i128 = floor_div((half.raw as i128) * (LN_TWO_RAW as i128), ONE_RAW as i128);
    let depth: i64 = binary_logarithm(natural as u128) - 32 * ONE_RAW;
    proof {
        assert(0 <= depth * ONE_RAW <= 5 * ONE_RAW * ONE_RAW) by (nonlinear_arith)
            requires
                0 <= depth < 5 * ONE_RAW,
                ONE_RAW > 0,
        ;
        assert(0 <= (steps + 1) * ONE_RAW <= 0x1_0000_0000 * 0x1_0000_0000) by (nonlinear_arith)
            requires
                0 <= steps <= 0xffff_ffff,
                ONE_RAW == 0x1_0000_0000,
        ;
    }
    let part: i128 = if base > 0 {
        proof {
            lemma_div_at_least(depth * ONE_RAW, base as int, 0);
            assert(depth * ONE_RAW <= (depth * ONE_RAW) * base) by (nonlinear_arith)
                requires
                    depth * ONE_RAW >= 0,
                    base >= 1,
            ;
            lemma_div_at_most(depth * ONE_RAW, base as int, depth * ONE_RAW);
        }
        floor_div((depth as i128) * (ONE_RAW as i128), base as i128)
    } else {
        proof {
            let n = (-(depth as int)) * ONE_RAW;
            let d = -(base as int);
            assert(n == -(depth * ONE_RAW)) by (nonlinear_arith)
                requires
                    n == (-(depth as int)) * ONE_RAW,
            ;
            lemma_div_at_most(n, d, 0);
            assert(n >= n * d) by (nonlinear_arith)
                requires
                    n <= 0,
                    d >= 1,
            ;
            lemma_div_at_least(n, d, n);
        }
        floor_div((-(depth as i128)) * (ONE_RAW as i128), -(base as i128))
    };
    Some(hold((steps as i128 + 1) * (ONE_RAW as i128) - part))
}

/// The escape step that is shaded: under the whole-step shading the count
/// of steps as a number, held in range; under the smooth shading the smooth
/// escape step, where it is stated.
pub open spec fn shaded(mode: ShadingType, steps: nat, last: (int, int), exponent: int) -> Option<
    int,
> {
    match mode {
        ShadingType::Normal => Some(clamp(steps * ONE_RAW)),
        ShadingType::Smooth => if smooth_applies(last, exponent) {
            Some(smooth_of(steps, last, exponent))
        } else {
            None
        },
    }
}

impl ShadingSettings {
    /// The escape step that is shaded, for an orbit that left the escape
    /// radius at step `steps` with the point `last`.
    pub fn shade(&self, steps: u32, last: Vector2<Fixed>, exponent: Fixed) -> (r: Option<Fixed>)
        ensures
            r.is_some() == shaded(self.mode, steps as nat, parts(last), exponent@).is_some(),
            r matches Some(v) ==> Some(v@) == shaded(
                self.mode,
                steps as nat,
                parts(last),
                exponent@,
            ),
    {
        match self.mode {
            ShadingType::Normal => {
                assert(0 <= steps * 0x1_0000_0000 <= 0xffff_ffff * 0x1_0000_0000);
                Some(hold((steps as i128) * (ONE_RAW as i128)))
            },
            ShadingType::Smooth => smooth_estimate(steps, last, exponent),
        }
    }
}

} // verus!
