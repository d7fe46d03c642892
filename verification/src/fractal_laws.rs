//! What holds of the orbits: three orbits of the classic set that are known
//! in full, and where the Burning Ship parts from the Mandelbrot formula.

use crate::fixed::ONE_RAW;
use crate::fixed::fits;
use crate::fixed::lemma_div_at_least;
use crate::fixed::lemma_floor_bounds;
use crate::fixed::product;
use crate::fractal::Escape;
use crate::fractal::FractalType;
use crate::fractal::complex_power;
use crate::fractal::complex_product;
use crate::fractal::escaped;
use crate::fractal::first_escape;
use crate::fractal::first_outside;
use crate::fractal::folded;
use crate::fractal::next_point;
use crate::fractal::orbit;
use crate::fractal::parts;
use crate::fractal::squared_modulus;
use vstd::prelude::*;

verus! {

/// One times a number is the number.
pub proof fn lemma_product_with_one(a: int)
    ensures
        product(ONE_RAW as int, a) == a,
        product(a, ONE_RAW as int) == a,
        product(0, a) == 0,
        product(a, 0) == 0,
{
    assert((0x1_0000_0000 * a) / 0x1_0000_0000 == a) by (nonlinear_arith);
    assert((a * 0x1_0000_0000) / 0x1_0000_0000 == a) by (nonlinear_arith);
    assert(0 * a == 0) by (nonlinear_arith);
    assert(a * 0 == 0) by (nonlinear_arith);
}

/// The second power is the product of the number with itself.
pub proof fn lemma_second_power(z: (int, int))
    requires
        fits(z.0),
        fits(z.1),
    ensures
        complex_power(z, 2) == complex_product(z, z),
{
    reveal_with_fuel(complex_power, 3);
    lemma_product_with_one(z.0);
    lemma_product_with_one(z.1);
    assert(complex_power(z, 0) == (ONE_RAW as int, 0int));
    assert(complex_product((ONE_RAW as int, 0int), z) == z);
    assert(complex_power(z, 1) == z);
}

/// The orbit of the origin under the classic square stays at the origin.
pub proof fn lemma_origin_stays(n: nat)
    ensures
        orbit(FractalType::Mandelbrot, 2, (0, 0), (0, 0), n) == (0int, 0int),
        !escaped(orbit(FractalType::Mandelbrot, 2, (0, 0), (0, 0), n)),
    decreases n,
{
    if n > 0 {
        lemma_origin_stays((n - 1) as nat);
        lemma_second_power((0, 0));
        lemma_product_with_one(0);
    }
    assert(squared_modulus((0int, 0int)) == 0);
}

/// The origin is never found outside the escape radius, however many points
/// of its orbit are looked at.
pub proof fn lemma_origin_is_interior(limit: nat, result: Escape)
    requires
        first_escape(FractalType::Mandelbrot, 2, (0, 0), (0, 0), limit, result),
    ensures
        result is Interior,
{
    if let Escape::Exterior { steps, last } = result {
        lemma_origin_stays(steps as nat);
    }
}

/// The orbit of minus one under the classic square goes to and fro between
/// the origin and minus one.
pub proof fn lemma_minus_one_cycles(n: nat)
    ensures
        orbit(FractalType::Mandelbrot, 2, (0, 0), (-ONE_RAW, 0), n) == (if n % 2 == 0 {
            (0int, 0int)
        } else {
            (-ONE_RAW as int, 0int)
        }),
        !escaped(orbit(FractalType::Mandelbrot, 2, (0, 0), (-ONE_RAW, 0), n)),
    decreases n,
{
    if n > 0 {
        lemma_minus_one_cycles((n - 1) as nat);
        lemma_second_power((0, 0));
        lemma_second_power((-ONE_RAW, 0));
        lemma_product_with_one(0);
        lemma_product_with_one(-ONE_RAW);
    }
    assert((-0x1_0000_0000) * (-0x1_0000_0000) == 0x1_0000_0000_0000_0000) by (nonlinear_arith);
    assert(squared_modulus((0int, 0int)) == 0);
    assert(squared_modulus((-ONE_RAW as int, 0int)) == 0x1_0000_0000_0000_0000);
}

/// Minus one is never found outside the escape radius, however many points
/// of its orbit are looked at.
pub proof fn lemma_minus_one_is_interior(limit: nat, result: Escape)
    requires
        first_escape(FractalType::Mandelbrot, 2, (0, 0), (-ONE_RAW, 0), limit, result),
    ensures
        result is Interior,
{
    if let Escape::Exterior { steps, last } = result {
        lemma_minus_one_cycles(steps as nat);
    }
}

/// The orbit of one under the classic square runs zero, one, two, five: its
/// point with index three is the first outside the escape radius.
pub proof fn lemma_one_escapes_at_three(limit: nat, result: Escape)
    requires
        limit > 3,
        first_escape(FractalType::Mandelbrot, 2, (0, 0), (ONE_RAW as int, 0), limit, result),
    ensures
        result matches Escape::Exterior { steps, last } && steps == 3 && parts(last) == (
            5 * ONE_RAW,
            0int,
        ),
{
    let c = (ONE_RAW as int, 0int);
    let m = FractalType::Mandelbrot;
    lemma_second_power((0, 0));
    lemma_second_power(c);
    lemma_second_power((2 * ONE_RAW, 0));
    lemma_product_with_one(0);
    lemma_product_with_one(ONE_RAW as int);
    lemma_product_with_one(2 * ONE_RAW);
    assert((2 * 0x1_0000_0000) * (2 * 0x1_0000_0000) == 4 * 0x1_0000_0000_0000_0000)
        by (nonlinear_arith);
    assert(product(2 * ONE_RAW, 2 * ONE_RAW) == 4 * ONE_RAW);
    reveal_with_fuel(orbit, 5);
    assert(orbit(m, 2, (0, 0), c, 0) == (0int, 0int));
    assert(orbit(m, 2, (0, 0), c, 1) == c);
    assert(orbit(m, 2, (0, 0), c, 2) == (2 * ONE_RAW, 0int));
    assert(orbit(m, 2, (0, 0), c, 3) == (5 * ONE_RAW, 0int));
    assert((5 * 0x1_0000_0000) * (5 * 0x1_0000_0000) == 25 * 0x1_0000_0000_0000_0000)
        by (nonlinear_arith);
    let points = |k: nat| orbit(m, 2, (0, 0), c, k);
    assert(escaped(points(3)));
    assert(!escaped(points(0)));
    assert(!escaped(points(1)));
    assert(!escaped(points(2)));
}

/// Where the two parts of `z` do not differ in sign, the Burning Ship takes
/// the same step of the square as the Mandelbrot formula.
pub proof fn lemma_burning_ship_agrees(z: (int, int), c: (int, int))
    requires
        -i64::MAX <= z.0 <= i64::MAX,
        -i64::MAX <= z.1 <= i64::MAX,
        (z.0 >= 0 && z.1 >= 0) || (z.0 <= 0 && z.1 <= 0),
    ensures
        next_point(FractalType::BurningShip, 2, z, c) == next_point(
            FractalType::Mandelbrot,
            2,
            z,
            c,
        ),
{
    let f = folded(FractalType::BurningShip, z);
    lemma_second_power(z);
    lemma_second_power(f);
    assert(f.0 * f.0 == z.0 * z.0) by (nonlinear_arith)
        requires
            f.0 == z.0 || f.0 == -z.0,
    ;
    assert(f.1 * f.1 == z.1 * z.1) by (nonlinear_arith)
        requires
            f.1 == z.1 || f.1 == -z.1,
    ;
    assert(f.0 * f.1 == z.0 * z.1 && f.1 * f.0 == z.1 * z.0) by (nonlinear_arith)
        requires
            (f.0 == z.0 && f.1 == z.1) || (f.0 == -z.0 && f.1 == -z.1),
    ;
}

/// Where the two parts of `z` differ in sign, the Burning Ship parts from the
/// Mandelbrot formula: the square that it takes has an imaginary part that is
/// not negative, the Mandelbrot square one that is.
pub proof fn lemma_burning_ship_parts(z: (int, int))
    requires
        -i64::MAX <= z.0 <= i64::MAX,
        -i64::MAX <= z.1 <= i64::MAX,
        (z.0 > 0 && z.1 < 0) || (z.0 < 0 && z.1 > 0),
    ensures
        complex_power(folded(FractalType::BurningShip, z), 2).1 >= 0,
        complex_power(z, 2).1 < 0,
{
    let f = folded(FractalType::BurningShip, z);
    lemma_second_power(z);
    lemma_second_power(f);
    assert(f.0 * f.1 >= 0 && f.1 * f.0 >= 0) by (nonlinear_arith)
        requires
            f.0 >= 0,
            f.1 >= 0,
    ;
    assert(z.0 * z.1 < 0 && z.1 * z.0 < 0) by (nonlinear_arith)
        requires
            (z.0 > 0 && z.1 < 0) || (z.0 < 0 && z.1 > 0),
    ;
    assert(product(f.0, f.1) >= 0 && product(f.1, f.0) >= 0) by {
        lemma_div_at_least(f.0 * f.1, ONE_RAW as int, 0);
        lemma_div_at_least(f.1 * f.0, ONE_RAW as int, 0);
    }
    assert(product(z.0, z.1) < 0 && product(z.1, z.0) < 0) by {
        lemma_floor_bounds(z.0 * z.1, ONE_RAW as int);
        lemma_floor_bounds(z.1 * z.0, ONE_RAW as int);
    }
}

/// The orbit of minus `i` runs the same under the Burning Ship as under the
/// Mandelbrot formula: from its second point on it goes to and fro between
/// minus one minus `i` and `i`, and neither has parts that differ in sign.
pub proof fn lemma_minus_i_runs_alike(n: nat)
    ensures
        orbit(FractalType::BurningShip, 2, (0, 0), (0, -ONE_RAW), n) == orbit(
            FractalType::Mandelbrot,
            2,
            (0, 0),
            (0, -ONE_RAW),
            n,
        ),
        orbit(FractalType::Mandelbrot, 2, (0, 0), (0, -ONE_RAW), n) == (if n == 0 {
            (0int, 0int)
        } else if n == 1 {
            (0int, -ONE_RAW as int)
        } else if n % 2 == 0 {
            (-ONE_RAW as int, -ONE_RAW as int)
        } else {
            (0int, ONE_RAW as int)
        }),
    decreases n,
{
    let c = (0int, -ONE_RAW as int);
    if n > 0 {
        lemma_minus_i_runs_alike((n - 1) as nat);
        let z = orbit(FractalType::Mandelbrot, 2, (0, 0), c, (n - 1) as nat);
        lemma_burning_ship_agrees(z, c);
        lemma_second_power(z);
        lemma_product_with_one(0);
        lemma_product_with_one(ONE_RAW as int);
        lemma_product_with_one(-ONE_RAW);
        assert((-0x1_0000_0000) * (-0x1_0000_0000) == 0x1_0000_0000_0000_0000)
            by (nonlinear_arith);
    }
}

/// What following an orbit gives is one thing: two outcomes that both fit
/// the orbit are the same.
pub proof fn lemma_first_outside_is_unique(
    points: spec_fn(nat) -> (int, int),
    limit: nat,
    one: Escape,
    other: Escape,
)
    requires
        first_outside(points, limit, one),
        first_outside(points, limit, other),
    ensures
        one == other,
{
    match (one, other) {
        (Escape::Exterior { steps: s1, last: l1 }, Escape::Exterior { steps: s2, last: l2 }) => {
            assert(!(s1 < s2)) by {
                if s1 < s2 {
                    assert(!escaped(points(s1 as nat)));
                }
            }
            assert(!(s2 < s1)) by {
                if s2 < s1 {
                    assert(!escaped(points(s2 as nat)));
                }
            }
            assert(l1.x.raw == l2.x.raw && l1.y.raw == l2.y.raw);
        },
        (Escape::Exterior { steps, last }, Escape::Interior) => {
            assert(!escaped(points(steps as nat)));
        },
        (Escape::Interior, Escape::Exterior { steps, last }) => {
            assert(!escaped(points(steps as nat)));
        },
        (Escape::Interior, Escape::Interior) => {},
    }
}

} // verus!
