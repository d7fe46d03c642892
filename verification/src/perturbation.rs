//! Deep zoom by perturbation: one orbit, the reference, is followed in
//! full, and every sample near it is followed as its small distance from the
//! reference.
//!
//! If `z` is a point of the reference orbit under the constant `c`, and a
//! sample's orbit under `c + dc` stands at `z + d`, then the sample's next
//! distance is `2 z d + d d + dc`. This is the classic square only; it is
//! written out for the Mandelbrot formula.
//!
//! A sample can be followed along the reference as far as the reference
//! goes ([`perturbed_escape_time`]), or with the distance taken anew
//! whenever it has grown larger than the sample's own point, or the
//! reference has come to its end ([`rebased_escape_time`]): the sample's
//! point then becomes its distance from the start of the reference, which is
//! the origin. This rule knows no threshold.

use crate::fixed::Fixed;
use crate::fixed::ONE_RAW;
use crate::fixed::clamp;
use crate::fixed::held_product;
use crate::fixed::hold;
use crate::fixed::lemma_div_at_least;
use crate::fixed::lemma_div_at_most;
use crate::fixed::lemma_floor_of_sum;
use crate::fixed::lemma_product_bounds;
use crate::fixed::product;
use crate::fractal::Escape;
use crate::fractal::FractalType;
use crate::fractal::complex_product;
use crate::fractal::escaped;
use crate::fractal::first_outside;
use crate::fractal::has_escaped;
use crate::fractal::modulus_squared;
use crate::fractal::multiply;
use crate::fractal::next_point;
use crate::fractal::orbit;
use crate::fractal::parts;
use crate::fractal::squared_modulus;
use crate::fractal::step;
use crate::vector2::Vector2;
use vstd::prelude::*;

verus! {

/// The sum of two complex numbers, held in range.
pub open spec fn complex_sum(a: (int, int), b: (int, int)) -> (int, int) {
    (clamp(a.0 + b.0), clamp(a.1 + b.1))
}

/// The next distance of a sample from the reference: `2 z d + d d + dc`.
pub open spec fn delta_next(z: (int, int), d: (int, int), dc: (int, int)) -> (int, int) {
    let cross = complex_product(z, d);
    let square = complex_product(d, d);
    (clamp(2 * cross.0 + square.0 + dc.0), clamp(2 * cross.1 + square.1 + dc.1))
}

/// The distance with index `n` of a sample from the reference orbit
/// `points`: none at the start, then step by step.
pub open spec fn delta_along(points: Seq<(int, int)>, dc: (int, int), n: nat) -> (int, int)
    decreases n,
{
    if n == 0 {
        (0, 0)
    } else {
        delta_next(points[n - 1], delta_along(points, dc, (n - 1) as nat), dc)
    }
}

/// The point with index `n` of a sample's orbit, as the reference and the
/// distance give it.
pub open spec fn perturbed_point(points: Seq<(int, int)>, dc: (int, int), n: nat) -> (int, int) {
    complex_sum(points[n as int], delta_along(points, dc, n))
}

/// The points of a run of complex numbers.
pub open spec fn all_parts(points: Seq<Vector2<Fixed>>) -> Seq<(int, int)> {
    Seq::new(points.len(), |i: int| parts(points[i]))
}

/// A sample's orbit along a reference, as a function of the index.
pub open spec fn perturbed_points(points: Seq<(int, int)>, dc: (int, int)) -> spec_fn(nat) -> (
    int,
    int,
) {
    |k: nat| perturbed_point(points, dc, k)
}

/// What following a sample along a reference gives: the index of the first
/// of its points outside the escape radius, if the reference is long enough
/// to show one.
pub open spec fn first_perturbed_escape(points: Seq<(int, int)>, dc: (int, int), result: Escape)
    -> bool {
    first_outside(perturbed_points(points, dc), points.len(), result)
}

/// The sum of two complex numbers, held in range.
pub fn sum(a: Vector2<Fixed>, b: Vector2<Fixed>) -> (r: Vector2<Fixed>)
    ensures
        parts(r) == complex_sum(parts(a), parts(b)),
{
    Vector2::new(
        hold(a.x.raw as i128 + b.x.raw as i128),
        hold(a.y.raw as i128 + b.y.raw as i128),
    )
}

/// The next distance of a sample from the reference.
pub fn delta_step(z: Vector2<Fixed>, d: Vector2<Fixed>, dc: Vector2<Fixed>) -> (r: Vector2<
    Fixed,
>)
    ensures
        parts(r) == delta_next(parts(z), parts(d), parts(dc)),
{
    let cross = multiply(z, d);
    let square = multiply(d, d);
    Vector2::new(
        hold(2 * (cross.x.raw as i128) + square.x.raw as i128 + dc.x.raw as i128),
        hold(2 * (cross.y.raw as i128) + square.y.raw as i128 + dc.y.raw as i128),
    )
}

/// The first `length` points of the orbit of the origin under the classic
/// square with the constant `c`.
pub fn reference_orbit(c: Vector2<Fixed>, length: u32) -> (points: Vec<Vector2<Fixed>>)
    ensures
        points@.len() == length,
        forall|i: int|
            0 <= i < length ==> parts(#[trigger] points@[i]) == orbit(
                FractalType::Mandelbrot,
                2,
                (0, 0),
                parts(c),
                i as nat,
            ),
{
    let mut points: Vec<Vector2<Fixed>> = Vec::new();
    let mut z = Vector2::new(Fixed { raw: 0 }, Fixed { raw: 0 });
    let mut n: u32 = 0;
    while n < length
        invariant
            n <= length,
            points@.len() == n,
            parts(z) == orbit(FractalType::Mandelbrot, 2, (0, 0), parts(c), n as nat),
            forall|i: int|
                0 <= i < n ==> parts(#[trigger] points@[i]) == orbit(
                    FractalType::Mandelbrot,
                    2,
                    (0, 0),
                    parts(c),
                    i as nat,
                ),
        decreases length - n,
    {
        points.push(z);
        z = step(FractalType::Mandelbrot, 2, z, c);
        n = n + 1;
    }
    points
}

/// Follows a sample along the reference orbit and reports the first of its
/// points that lies outside the escape radius. `dc` is the distance of the
/// sample's constant from the reference's. The count of steps is held in 32
/// bits, so the reference is no longer than such a count.
pub fn perturbed_escape_time(reference: &Vec<Vector2<Fixed>>, dc: Vector2<Fixed>) -> (r: Escape)
    requires
        reference@.len() <= u32::MAX,
    ensures
        first_perturbed_escape(all_parts(reference@), parts(dc), r),
{
    let ghost points = all_parts(reference@);
    let mut d = Vector2::new(Fixed { raw: 0 }, Fixed { raw: 0 });
    let mut n: usize = 0;
    while n < reference.len()
        invariant
            n <= reference@.len(),
            reference@.len() <= u32::MAX,
            points == all_parts(reference@),
            parts(d) == delta_along(points, parts(dc), n as nat),
            forall|k: nat| k < n ==> !escaped(#[trigger] perturbed_point(points, parts(dc), k)),
        decreases reference@.len() - n,
    {
        let z = reference[n];
        let w = sum(z, d);
        if has_escaped(w) {
            return Escape::Exterior { steps: n as u32, last: w };
        }
        d = delta_step(z, d, dc);
        n = n + 1;
    }
    Escape::Interior
}

/// Whether the distance of a sample is taken anew before the next step: the
/// reference has no next point, or the distance is larger than the sample's
/// own point.
pub open spec fn rebases(points: Seq<(int, int)>, at: nat, d: (int, int)) -> bool {
    at + 1 >= points.len() || squared_modulus(complex_sum(points[at as int], d)) < squared_modulus(
        d,
    )
}

/// Where a sample stands after `n` steps along a reference with the
/// distance taken anew where [`rebases`] says so: the index of the point of
/// the reference, and the distance from it.
pub open spec fn rebased_along(points: Seq<(int, int)>, dc: (int, int), n: nat) -> (
    nat,
    (int, int),
)
    decreases n,
{
    if n == 0 {
        (0, (0, 0))
    } else {
        let (at, d) = rebased_along(points, dc, (n - 1) as nat);
        if rebases(points, at, d) {
            (1, delta_next(points[0], complex_sum(points[at as int], d), dc))
        } else {
            (at + 1, delta_next(points[at as int], d, dc))
        }
    }
}

/// The point with index `n` of a sample's orbit, as the reference and the
/// distance give it where the distance is taken anew.
pub open spec fn rebased_point(points: Seq<(int, int)>, dc: (int, int), n: nat) -> (int, int) {
    let (at, d) = rebased_along(points, dc, n);
    complex_sum(points[at as int], d)
}

/// A sample's orbit along a reference where the distance is taken anew, as
/// a function of the index.
pub open spec fn rebased_points(points: Seq<(int, int)>, dc: (int, int)) -> spec_fn(nat) -> (
    int,
    int,
) {
    |k: nat| rebased_point(points, dc, k)
}

/// What following a sample along a reference gives where the distance is
/// taken anew: the index of the first of its points outside the escape
/// radius, if one of the first `limit` points is.
pub open spec fn first_rebased_escape(
    points: Seq<(int, int)>,
    dc: (int, int),
    limit: nat,
    result: Escape,
) -> bool {
    first_outside(rebased_points(points, dc), limit, result)
}

/// Follows a sample along the reference orbit, the distance taken anew
/// where [`rebases`] says so, and reports the first of its points with an
/// index below `max_iterations` that lies outside the escape radius. The
/// reference has at least two points.
pub fn rebased_escape_time(
    reference: &Vec<Vector2<Fixed>>,
    dc: Vector2<Fixed>,
    max_iterations: u32,
) -> (r: Escape)
    requires
        reference@.len() >= 2,
    ensures
        first_rebased_escape(all_parts(reference@), parts(dc), max_iterations as nat, r),
{
    let ghost points = all_parts(reference@);
    let mut d = Vector2::new(Fixed { raw: 0 }, Fixed { raw: 0 });
    let mut at: usize = 0;
    let mut n: u32 = 0;
    while n < max_iterations
        invariant
            n <= max_iterations,
            reference@.len() >= 2,
            at < reference@.len(),
            points == all_parts(reference@),
            (at as nat, parts(d)) == rebased_along(points, parts(dc), n as nat),
            forall|k: nat| k < n ==> !escaped(#[trigger] rebased_point(points, parts(dc), k)),
        decreases max_iterations - n,
    {
        let w = sum(reference[at], d);
        if has_escaped(w) {
            return Escape::Exterior { steps: n, last: w };
        }
        if at >= reference.len() - 1 || modulus_squared(w) < modulus_squared(d) {
            d = delta_step(reference[0], w, dc);
            at = 1;
        } else {
            d = delta_step(reference[at], d, dc);
            at = at + 1;
        }
        n = n + 1;
    }
    Escape::Interior
}

/// Taking the distance anew moves nothing: where the reference starts at
/// the origin, a sample's point is its own distance from that start.
pub proof fn lemma_rebase_keeps_the_point(points: Seq<(int, int)>, w: (int, int))
    requires
        points.len() > 0,
        points[0] == (0int, 0int),
        i64::MIN <= w.0 <= i64::MAX,
        i64::MIN <= w.1 <= i64::MAX,
    ensures
        complex_sum(points[0], w) == w,
{
}

/// The largest step count of a part for which [`lemma_delta_tracks_the_square`]
/// is stated: the number 256. No product of two such parts, nor a sum of a few, leaves
/// the range of the numbers.
pub const MODERATE_LIMIT: i64 = 0x100_0000_0000;

/// Whether both parts of a complex number are within [`MODERATE_LIMIT`].
pub open spec fn moderate(z: (int, int)) -> bool {
    &&& -MODERATE_LIMIT <= z.0 <= MODERATE_LIMIT
    &&& -MODERATE_LIMIT <= z.1 <= MODERATE_LIMIT
}

/// The quotient of a sum of four is the sum of the four quotients, or up to
/// three more.
pub proof fn lemma_floor_of_four(p: int, q: int, r: int, s: int, v: int)
    requires
        v > 0,
    ensures
        0 <= (p + q + r + s) / v - p / v - q / v - r / v - s / v <= 3,
{
    lemma_floor_of_sum(p, q, v);
    lemma_floor_of_sum(p + q, r, v);
    lemma_floor_of_sum(p + q + r, s, v);
}

/// A product of two parts of moderate size is not held back, is the same in
/// either order, and is of moderate size itself.
pub proof fn lemma_moderate_product(a: int, b: int)
    requires
        -2 * MODERATE_LIMIT <= a <= 2 * MODERATE_LIMIT,
        -2 * MODERATE_LIMIT <= b <= 2 * MODERATE_LIMIT,
    ensures
        held_product(a, b) == product(a, b),
        product(a, b) == product(b, a),
        -0x4_0000_0000_0000 <= product(a, b) <= 0x4_0000_0000_0000,
{
    lemma_product_bounds(a, b, 2 * MODERATE_LIMIT, 2 * MODERATE_LIMIT);
    assert((2 * MODERATE_LIMIT) * (2 * MODERATE_LIMIT) == 0x4_0000_0000_0000 * 0x1_0000_0000)
        by (nonlinear_arith);
    lemma_div_at_most(a * b, ONE_RAW as int, 0x4_0000_0000_0000);
    lemma_div_at_least(a * b, ONE_RAW as int, -0x4_0000_0000_0000);
    assert(a * b == b * a) by (nonlinear_arith);
}

/// One step of a sample that is followed as its distance from the reference
/// lands where the step of the sample itself lands, up to the rounding of
/// the products: the real part within three steps of 2^-32 either way, the
/// imaginary part at most six steps below. This is stated of the classic
/// square and of parts of moderate size, where nothing is held back at the
/// ends of the range.
pub proof fn lemma_delta_tracks_the_square(
    z: (int, int),
    d: (int, int),
    c: (int, int),
    dc: (int, int),
)
    requires
        moderate(z),
        moderate(d),
        moderate(c),
        moderate(dc),
    ensures
        ({
            let direct = next_point(
                FractalType::Mandelbrot,
                2,
                (z.0 + d.0, z.1 + d.1),
                (c.0 + dc.0, c.1 + dc.1),
            );
            let reference = next_point(FractalType::Mandelbrot, 2, z, c);
            let distance = delta_next(z, d, dc);
            &&& -3 <= direct.0 - (reference.0 + distance.0) <= 3
            &&& 0 <= direct.1 - (reference.1 + distance.1) <= 6
        }),
{
    let s = ONE_RAW as int;
    let (x, y) = z;
    let (dx, dy) = d;
    let w = (x + dx, y + dy);
    crate::fractal_laws::lemma_second_power(z);
    crate::fractal_laws::lemma_second_power(w);
    lemma_moderate_product(w.0, w.0);
    lemma_moderate_product(w.1, w.1);
    lemma_moderate_product(w.0, w.1);
    lemma_moderate_product(w.1, w.0);
    lemma_moderate_product(x, x);
    lemma_moderate_product(y, y);
    lemma_moderate_product(x, y);
    lemma_moderate_product(y, x);
    lemma_moderate_product(x, dx);
    lemma_moderate_product(y, dy);
    lemma_moderate_product(x, dy);
    lemma_moderate_product(y, dx);
    lemma_moderate_product(dx, dx);
    lemma_moderate_product(dy, dy);
    lemma_moderate_product(dx, dy);
    lemma_moderate_product(dy, dx);
    assert((x + dx) * (x + dx) == x * x + x * dx + x * dx + dx * dx) by (nonlinear_arith);
    assert((y + dy) * (y + dy) == y * y + y * dy + y * dy + dy * dy) by (nonlinear_arith);
    assert((x + dx) * (y + dy) == x * y + x * dy + y * dx + dx * dy) by (nonlinear_arith);
    lemma_floor_of_four(x * x, x * dx, x * dx, dx * dx, s);
    lemma_floor_of_four(y * y, y * dy, y * dy, dy * dy, s);
    lemma_floor_of_four(x * y, x * dy, y * dx, dx * dy, s);
}

} // verus!
