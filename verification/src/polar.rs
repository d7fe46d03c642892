//! The power of a complex number with any exponent, by the polar form of the
//! number, and the orbits under such a power.
//!
//! A number at the distance `r` from the origin and at the angle `t` has the
//! power `r^e (cos(e t), sin(e t))`. The distance enters as its binary
//! logarithm, so `r^e` is two to the power `e log2 r`; the angle is counted
//! in turns from minus one half to one half. Every product is rounded down
//! and held in range.
//!
//! The origin has no distance to take a logarithm of. Its power is the
//! origin under a positive exponent and one under the exponent nothing;
//! under a negative exponent it has no power, and an orbit that comes to it
//! ends there: a sample with such an orbit is interior.

use crate::angle::angle;
use crate::angle::angle_of;
use crate::cosine::QUARTER_RAW;
use crate::cosine::cosine;
use crate::cosine::cosine_of;
use crate::exponential::binary_exponential;
use crate::exponential::binary_power;
use crate::fixed::Fixed;
use crate::fixed::ONE_RAW;
use crate::fixed::clamp;
use crate::fixed::floor_div;
use crate::fixed::held_product;
use crate::fixed::hold;
use crate::fractal::Escape;
use crate::fractal::FractalType;
use crate::fractal::escaped;
use crate::fractal::first_outside;
use crate::fractal::fold;
use crate::fractal::folded;
use crate::fractal::has_escaped;
use crate::fractal::modulus_squared;
use crate::fractal::parts;
use crate::fractal::squared_modulus;
use crate::logarithm::binary_log;
use crate::logarithm::binary_logarithm;
use crate::vector2::Vector2;
use vstd::prelude::*;

verus! {

/// The binary logarithm of the distance of a point from the origin: half
/// that of the squared distance, which is counted in squared steps of 2^-64.
/// The point is not the origin.
pub open spec fn modulus_log(z: (int, int)) -> int {
    (binary_log(squared_modulus(z) as nat) - 64 * ONE_RAW) / 2
}

/// Whether a complex number has a power with the exponent `e`: every
/// number but the origin has, and the origin has one where the exponent is
/// not negative.
pub open spec fn has_power(z: (int, int), e: int) -> bool {
    e >= 0 || z.0 != 0 || z.1 != 0
}

/// The power of a complex number with the exponent `e`, by its polar form,
/// where it [`has_power`].
pub open spec fn polar_power(z: (int, int), e: int) -> (int, int) {
    if z.0 == 0 && z.1 == 0 {
        if e == 0 {
            (ONE_RAW as int, 0)
        } else {
            (0, 0)
        }
    } else {
        let size = binary_power(held_product(e, modulus_log(z)));
        let turn = held_product(e, angle_of(z.0, z.1));
        (
            held_product(size, cosine_of(turn)),
            held_product(size, cosine_of(clamp(turn - QUARTER_RAW))),
        )
    }
}

/// Whether the iteration under the exponent `e` has a next point after `z`:
/// what the formula makes of `z` has a power.
pub open spec fn goes_on(variant: FractalType, e: int, z: (int, int)) -> bool {
    has_power(folded(variant, z), e)
}

/// One step of the iteration under the exponent `e`, where it
/// [`goes_on`].
pub open spec fn polar_next_point(variant: FractalType, e: int, z: (int, int), c: (int, int)) -> (
    int,
    int,
) {
    let p = polar_power(folded(variant, z), e);
    (clamp(p.0 + c.0), clamp(p.1 + c.1))
}

/// The point with index `n` of the orbit under the exponent `e` that starts
/// at `start`.
pub open spec fn polar_orbit(
    variant: FractalType,
    e: int,
    start: (int, int),
    c: (int, int),
    n: nat,
) -> (int, int)
    decreases n,
{
    if n == 0 {
        start
    } else {
        polar_next_point(variant, e, polar_orbit(variant, e, start, c, (n - 1) as nat), c)
    }
}

/// The orbit under the exponent `e` as a function of the index.
pub open spec fn polar_points(variant: FractalType, e: int, start: (int, int), c: (int, int))
    -> spec_fn(nat) -> (int, int) {
    |k: nat| polar_orbit(variant, e, start, c, k)
}

/// How many of the first `limit` points the orbit has: it ends with the
/// first point after which the iteration does not go on.
pub open spec fn polar_reach(
    variant: FractalType,
    e: int,
    start: (int, int),
    c: (int, int),
    limit: nat,
) -> nat
    decreases limit,
{
    if limit <= 1 {
        limit
    } else {
        let before = polar_reach(variant, e, start, c, (limit - 1) as nat);
        if before == limit - 1 && goes_on(
            variant,
            e,
            polar_orbit(variant, e, start, c, (limit - 2) as nat),
        ) {
            limit
        } else {
            before
        }
    }
}

/// What the escape-time evaluation of an orbit under the exponent `e`
/// gives: the index of the first point outside the escape radius, if one of
/// the points that the orbit has among its first `limit` is. An orbit that
/// ends before it leaves the escape radius is interior.
pub open spec fn first_polar_escape(
    variant: FractalType,
    e: int,
    start: (int, int),
    c: (int, int),
    limit: nat,
    result: Escape,
) -> bool {
    first_outside(
        polar_points(variant, e, start, c),
        polar_reach(variant, e, start, c, limit),
        result,
    )
}

/// An orbit has no more points than are asked for, and no fewer among more.
pub proof fn lemma_reach_grows(
    variant: FractalType,
    e: int,
    start: (int, int),
    c: (int, int),
    fewer: nat,
    more: nat,
)
    requires
        fewer <= more,
    ensures
        polar_reach(variant, e, start, c, fewer) <= polar_reach(variant, e, start, c, more) <= more,
    decreases more,
{
    if more > 0 {
        if fewer < more {
            lemma_reach_grows(variant, e, start, c, fewer, (more - 1) as nat);
        } else {
            lemma_reach_grows(variant, e, start, c, (more - 1) as nat, (more - 1) as nat);
        }
    }
}

/// An orbit that does not go on after its point with index `n` has `n + 1`
/// points, however many are asked for beyond them.
pub proof fn lemma_reach_ends(
    variant: FractalType,
    e: int,
    start: (int, int),
    c: (int, int),
    n: nat,
    limit: nat,
)
    requires
        polar_reach(variant, e, start, c, n + 1) == n + 1,
        !goes_on(variant, e, polar_orbit(variant, e, start, c, n)),
        limit > n,
    ensures
        polar_reach(variant, e, start, c, limit) == n + 1,
    decreases limit,
{
    if limit > n + 1 {
        lemma_reach_ends(variant, e, start, c, n, (limit - 1) as nat);
    }
}

/// The binary logarithm of the distance of a point from the origin.
pub fn modulus_logarithm(z: Vector2<Fixed>) -> (r: Fixed)
    requires
        z.x@ != 0 || z.y@ != 0,
    ensures
        r@ == modulus_log(parts(z)),
        -32 * ONE_RAW <= r@ < 32 * ONE_RAW,
{
    proof {
        assert(z.x@ * z.x@ >= 0 && z.y@ * z.y@ >= 0) by (nonlinear_arith);
        assert(z.x@ != 0 ==> z.x@ * z.x@ > 0) by (nonlinear_arith);
        assert(z.y@ != 0 ==> z.y@ * z.y@ > 0) by (nonlinear_arith);
    }
    let whole: i64 = binary_logarithm(modulus_squared(z));
    Fixed { raw: floor_div(whole as i128 - 64 * (ONE_RAW as i128), 2) as i64 }
}

/// The power of a complex number with the exponent `e`, by its polar form;
/// `None` where it has none.
pub fn polar_raise(z: Vector2<Fixed>, e: Fixed) -> (r: Option<Vector2<Fixed>>)
    ensures
        r.is_some() == has_power(parts(z), e@),
        r matches Some(p) ==> parts(p) == polar_power(parts(z), e@),
{
    if z.x.raw == 0 && z.y.raw == 0 {
        return if e.raw < 0 {
            None
        } else if e.raw == 0 {
            Some(Vector2::new(Fixed { raw: ONE_RAW }, Fixed { raw: 0 }))
        } else {
            Some(Vector2::new(Fixed { raw: 0 }, Fixed { raw: 0 }))
        };
    }
    let size = binary_exponential(Fixed::saturating_mul(e, modulus_logarithm(z)));
    let turn = Fixed::saturating_mul(e, angle(z));
    let across = cosine(turn);
    let along = cosine(hold(turn.raw as i128 - QUARTER_RAW as i128));
    Some(Vector2::new(Fixed::saturating_mul(size, across), Fixed::saturating_mul(size, along)))
}

/// One step of the iteration under the exponent `e`; `None` where the
/// iteration does not go on.
pub fn polar_step(variant: FractalType, e: Fixed, z: Vector2<Fixed>, c: Vector2<Fixed>) -> (r:
    Option<Vector2<Fixed>>)
    ensures
        r.is_some() == goes_on(variant, e@, parts(z)),
        r matches Some(p) ==> parts(p) == polar_next_point(variant, e@, parts(z), parts(c)),
{
    match polar_raise(fold(variant, z), e) {
        Some(p) => Some(
            Vector2::new(
                hold(p.x.raw as i128 + c.x.raw as i128),
                hold(p.y.raw as i128 + c.y.raw as i128),
            ),
        ),
        None => None,
    }
}

/// Follows an orbit under the exponent `e` from `start` and reports the
/// first of its points with an index below `max_iterations` that lies
/// outside the escape radius. An orbit that ends before that is interior.
pub fn polar_escape_time(
    variant: FractalType,
    e: Fixed,
    start: Vector2<Fixed>,
    c: Vector2<Fixed>,
    max_iterations: u32,
) -> (r: Escape)
    ensures
        first_polar_escape(variant, e@, parts(start), parts(c), max_iterations as nat, r),
{
    let ghost points = polar_points(variant, e@, parts(start), parts(c));
    let mut z = start;
    let mut n: u32 = 0;
    proof {
        lemma_reach_grows(variant, e@, parts(start), parts(c), 0, max_iterations as nat);
    }
    while n < max_iterations
        invariant
            n <= max_iterations,
            points == polar_points(variant, e@, parts(start), parts(c)),
            parts(z) == points(n as nat),
            polar_reach(variant, e@, parts(start), parts(c), n as nat + 1) == n + 1,
            forall|k: nat| k < n ==> !escaped(#[trigger] points(k)),
        decreases max_iterations - n,
    {
        if has_escaped(z) {
            proof {
                lemma_reach_grows(
                    variant,
                    e@,
                    parts(start),
                    parts(c),
                    n as nat + 1,
                    max_iterations as nat,
                );
            }
            return Escape::Exterior { steps: n, last: z };
        }
        match polar_step(variant, e, z, c) {
            Some(next) => {
                z = next;
            },
            None => {
                proof {
                    lemma_reach_ends(
                        variant,
                        e@,
                        parts(start),
                        parts(c),
                        n as nat,
                        max_iterations as nat,
                    );
                }
                return Escape::Interior;
            },
        }
        n = n + 1;
    }
    proof {
        lemma_reach_grows(
            variant,
            e@,
            parts(start),
            parts(c),
            max_iterations as nat,
            max_iterations as nat,
        );
    }
    Escape::Interior
}

/// An orbit that never comes to a point without a power has all the points
/// that are asked for: under an exponent that is not negative every orbit
/// is one.
pub proof fn lemma_reach_is_whole(
    variant: FractalType,
    e: int,
    start: (int, int),
    c: (int, int),
    limit: nat,
)
    requires
        e >= 0,
    ensures
        polar_reach(variant, e, start, c, limit) == limit,
    decreases limit,
{
    if limit > 1 {
        lemma_reach_is_whole(variant, e, start, c, (limit - 1) as nat);
    }
}

/// An orbit that does not go on after its point with index `n` has no
/// more than `n + 1` points.
pub proof fn lemma_reach_stops(
    variant: FractalType,
    e: int,
    start: (int, int),
    c: (int, int),
    n: nat,
    limit: nat,
)
    requires
        !goes_on(variant, e, polar_orbit(variant, e, start, c, n)),
    ensures
        polar_reach(variant, e, start, c, limit) <= n + 1,
    decreases limit,
{
    if limit > n + 1 {
        lemma_reach_stops(variant, e, start, c, n, (limit - 1) as nat);
    } else {
        lemma_reach_grows(variant, e, start, c, limit, limit);
    }
}

/// An orbit goes on after each of its points but the last.
pub proof fn lemma_reach_went_on(
    variant: FractalType,
    e: int,
    start: (int, int),
    c: (int, int),
    k: nat,
    limit: nat,
)
    requires
        k + 1 < polar_reach(variant, e, start, c, limit),
    ensures
        goes_on(variant, e, polar_orbit(variant, e, start, c, k)),
{
    if !goes_on(variant, e, polar_orbit(variant, e, start, c, k)) {
        lemma_reach_stops(variant, e, start, c, k, limit);
    }
}

/// A sample is interior where its orbit comes, before any point outside the
/// escape radius, to a point after which the iteration does not go on: to
/// the origin, under a negative exponent.
pub proof fn lemma_an_orbit_that_ends_is_interior(
    variant: FractalType,
    e: int,
    start: (int, int),
    c: (int, int),
    n: nat,
    limit: nat,
)
    requires
        !goes_on(variant, e, polar_orbit(variant, e, start, c, n)),
        forall|k: nat| k <= n ==> !escaped(#[trigger] polar_orbit(variant, e, start, c, k)),
    ensures
        first_polar_escape(variant, e, start, c, limit, Escape::Interior),
{
    lemma_reach_stops(variant, e, start, c, n, limit);
    let points = polar_points(variant, e, start, c);
    assert forall|k: nat| k < polar_reach(variant, e, start, c, limit) implies !escaped(
        #[trigger] points(k),
    ) by {
        assert(!escaped(polar_orbit(variant, e, start, c, k)));
    }
}

/// A sample is exterior only where the iteration went on after every point
/// before the one outside the escape radius.
pub proof fn lemma_an_exterior_orbit_went_on(
    variant: FractalType,
    e: int,
    start: (int, int),
    c: (int, int),
    limit: nat,
    result: Escape,
    k: nat,
)
    requires
        first_polar_escape(variant, e, start, c, limit, result),
        result matches Escape::Exterior { steps, .. } && k < steps,
    ensures
        goes_on(variant, e, polar_orbit(variant, e, start, c, k)),
        !escaped(polar_orbit(variant, e, start, c, k)),
{
    let points = polar_points(variant, e, start, c);
    lemma_reach_went_on(variant, e, start, c, k, limit);
    assert(!escaped(points(k)));
}

} // verus!
