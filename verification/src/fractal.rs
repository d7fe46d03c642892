//! The escape-time evaluation of one sample: which formula is iterated, from
//! where, and at which step the orbit leaves the escape radius.
//!
//! A complex number is a [`Vector2`] of fixed-point numbers, real part first.
//! The arithmetic of the orbit saturates: a result that leaves the range of
//! the numbers is held at the end of the range. Such a value lies far outside
//! the escape radius, so it ends the orbit at the next test.
//!
//! A whole power up to [`WHOLE_POWER_LIMIT`] is taken by multiplying; any
//! other power is taken by the polar form of the number ([`crate::polar`]).

use crate::fixed::Fixed;
use crate::fixed::ONE_RAW;
use crate::fixed::clamp;
use crate::fixed::fraction;
use crate::fixed::held_product;
use crate::fixed::hold;
use crate::fixed::lemma_product_bounds;
use crate::polar::first_polar_escape;
use crate::polar::polar_escape_time;
use crate::vector2::Vector2;
use vstd::prelude::*;

verus! {

/// The escape radius: an orbit has escaped once it is farther than this from
/// the origin.
pub const ESCAPE_RADIUS: i32 = 4;

/// The largest whole power that is taken by multiplying.
pub const WHOLE_POWER_LIMIT: u32 = 64;

/// The square of the escape radius, in squared steps.
pub const ESCAPE_RADIUS_SQUARED_RAW: u128 = 0x10_0000_0000_0000_0000;

/// The formula that is iterated.
#[derive(Debug, Copy, Clone, PartialEq, Eq, Structural)]
pub enum FractalType {
    /// `z` to the power, plus `c`.
    Mandelbrot,
    /// As Mandelbrot, with both parts of `z` made positive before the power.
    BurningShip,
    /// As Mandelbrot, with `z` mirrored on the real axis before the power.
    Tricorn,
}

/// How the escape step becomes a colour index.
#[derive(Debug, Copy, Clone, PartialEq, Eq, Structural)]
pub enum ShadingType {
    /// The whole escape step.
    Normal,
    /// The escape step with its fraction.
    Smooth,
}

impl FractalType {
    /// The number that stands for the formula in the parameter block.
    pub open spec fn spec_code(self) -> u32 {
        match self {
            FractalType::Mandelbrot => 0,
            FractalType::BurningShip => 1,
            FractalType::Tricorn => 2,
        }
    }

    /// The number that stands for the formula in the parameter block.
    pub fn code(self) -> (c: u32)
        ensures
            c == self.spec_code(),
    {
        match self {
            FractalType::Mandelbrot => 0,
            FractalType::BurningShip => 1,
            FractalType::Tricorn => 2,
        }
    }

    /// The formula that a number stands for. A number that stands for none is
    /// read as Mandelbrot.
    pub fn from_code(code: u32) -> (t: FractalType)
        ensures
            t == (if code == 1 {
                FractalType::BurningShip
            } else if code == 2 {
                FractalType::Tricorn
            } else {
                FractalType::Mandelbrot
            }),
            code <= 2 ==> t.spec_code() == code,
    {
        if code == 1 {
            FractalType::BurningShip
        } else if code == 2 {
            FractalType::Tricorn
        } else {
            FractalType::Mandelbrot
        }
    }
}

impl ShadingType {
    /// The number that stands for the shading in the parameter block.
    pub open spec fn spec_code(self) -> u32 {
        match self {
            ShadingType::Normal => 0,
            ShadingType::Smooth => 1,
        }
    }

    /// The number that stands for the shading in the parameter block.
    pub fn code(self) -> (c: u32)
        ensures
            c == self.spec_code(),
    {
        match self {
            ShadingType::Normal => 0,
            ShadingType::Smooth => 1,
        }
    }

    /// The shading that a number stands for. A number that stands for none
    /// is read as the whole-step shading.
    pub fn from_code(code: u32) -> (t: ShadingType)
        ensures
            t == (if code == 1 {
                ShadingType::Smooth
            } else {
                ShadingType::Normal
            }),
            code <= 1 ==> t.spec_code() == code,
    {
        if code == 1 {
            ShadingType::Smooth
        } else {
            ShadingType::Normal
        }
    }
}

/// What is iterated, and for how long.
#[derive(Debug, Copy, Clone)]
pub struct FractalSettings {
    pub variant: FractalType,
    /// The power of the iteration; two is the classic square.
    pub exponent: Fixed,
    /// Whether the sample is the start of the orbit and `julia_seed` the
    /// constant, instead of the sample being the constant.
    pub julia_enabled: bool,
    pub julia_seed: Vector2<Fixed>,
    pub perturbation_enabled: bool,
    pub max_iterations: i32,
}

/// How the escape step is shaded.
#[derive(Debug, Copy, Clone)]
pub struct ShadingSettings {
    pub mode: ShadingType,
}

/// What became of an orbit.
#[derive(Debug, Copy, Clone)]
pub enum Escape {
    /// No point of the orbit that was looked at lies outside the escape
    /// radius.
    Interior,
    /// The point with index `steps` is the first outside the escape radius;
    /// `last` is that point.
    Exterior { steps: u32, last: Vector2<Fixed> },
}

/// A complex number as its two step counts.
pub open spec fn parts(z: Vector2<Fixed>) -> (int, int) {
    (z.x@, z.y@)
}

/// The product of two complex numbers.
pub open spec fn complex_product(a: (int, int), b: (int, int)) -> (int, int) {
    (
        clamp(held_product(a.0, b.0) - held_product(a.1, b.1)),
        clamp(held_product(a.0, b.1) + held_product(a.1, b.0)),
    )
}

/// A complex number to a whole power: one, multiplied by the number that
/// many times.
pub open spec fn complex_power(z: (int, int), power: nat) -> (int, int)
    decreases power,
{
    if power == 0 {
        (ONE_RAW as int, 0)
    } else {
        complex_product(complex_power(z, (power - 1) as nat), z)
    }
}

/// What a formula does to `z` before the power.
pub open spec fn folded(variant: FractalType, z: (int, int)) -> (int, int) {
    match variant {
        FractalType::Mandelbrot => z,
        FractalType::BurningShip => (
            clamp(
                if z.0 < 0 {
                    -z.0
                } else {
                    z.0
                },
            ),
            clamp(
                if z.1 < 0 {
                    -z.1
                } else {
                    z.1
                },
            ),
        ),
        FractalType::Tricorn => (z.0, clamp(-z.1)),
    }
}

/// One step of the iteration.
pub open spec fn next_point(variant: FractalType, power: nat, z: (int, int), c: (int, int)) -> (
    int,
    int,
) {
    let p = complex_power(folded(variant, z), power);
    (clamp(p.0 + c.0), clamp(p.1 + c.1))
}

/// The point with index `n` of the orbit that starts at `start`.
pub open spec fn orbit(
    variant: FractalType,
    power: nat,
    start: (int, int),
    c: (int, int),
    n: nat,
) -> (int, int)
    decreases n,
{
    if n == 0 {
        start
    } else {
        next_point(variant, power, orbit(variant, power, start, c, (n - 1) as nat), c)
    }
}

/// The square of the distance of a point from the origin, in squared steps.
pub open spec fn squared_modulus(z: (int, int)) -> int {
    z.0 * z.0 + z.1 * z.1
}

/// Whether a point lies outside the escape radius.
pub open spec fn escaped(z: (int, int)) -> bool {
    squared_modulus(z) > ESCAPE_RADIUS_SQUARED_RAW
}

/// The orbit as a function of the index.
pub open spec fn orbit_points(variant: FractalType, power: nat, start: (int, int), c: (int, int))
    -> spec_fn(nat) -> (int, int) {
    |k: nat| orbit(variant, power, start, c, k)
}

/// What following an orbit gives, the orbit given by its points: the index
/// of the first of them that lies outside the escape radius, with that
/// point, if one of the first `limit` points does; else that the orbit is
/// interior.
pub open spec fn first_outside(points: spec_fn(nat) -> (int, int), limit: nat, result: Escape)
    -> bool {
    match result {
        Escape::Interior => forall|k: nat| k < limit ==> !escaped(#[trigger] points(k)),
        Escape::Exterior { steps, last } => {
            &&& steps < limit
            &&& escaped(points(steps as nat))
            &&& parts(last) == points(steps as nat)
            &&& forall|k: nat| k < steps ==> !escaped(#[trigger] points(k))
        },
    }
}

/// What the escape-time evaluation of an orbit gives: the index of its first
/// point outside the escape radius, if one of the first `limit` points is.
pub open spec fn first_escape(
    variant: FractalType,
    power: nat,
    start: (int, int),
    c: (int, int),
    limit: nat,
    result: Escape,
) -> bool {
    first_outside(orbit_points(variant, power, start, c), limit, result)
}

/// The whole power that an exponent stands for, where it is one that is
/// taken by multiplying: the exponent has no fraction, is not negative and
/// is no more than [`WHOLE_POWER_LIMIT`].
pub open spec fn whole_power(exponent: int) -> Option<nat> {
    if 0 <= exponent <= WHOLE_POWER_LIMIT * ONE_RAW && fraction(exponent) == 0 {
        Some((exponent / (ONE_RAW as int)) as nat)
    } else {
        None
    }
}

/// The product of two complex numbers.
pub fn multiply(a: Vector2<Fixed>, b: Vector2<Fixed>) -> (r: Vector2<Fixed>)
    ensures
        parts(r) == complex_product(parts(a), parts(b)),
{
    let rr = Fixed::saturating_mul(a.x, b.x);
    let ii = Fixed::saturating_mul(a.y, b.y);
    let ri = Fixed::saturating_mul(a.x, b.y);
    let ir = Fixed::saturating_mul(a.y, b.x);
    Vector2::new(
        hold(rr.raw as i128 - ii.raw as i128),
        hold(ri.raw as i128 + ir.raw as i128),
    )
}

/// A complex number to a whole power.
pub fn raise(z: Vector2<Fixed>, power: u32) -> (r: Vector2<Fixed>)
    ensures
        parts(r) == complex_power(parts(z), power as nat),
{
    let mut acc = Vector2::new(Fixed { raw: ONE_RAW }, Fixed { raw: 0 });
    let mut done: u32 = 0;
    while done < power
        invariant
            done <= power,
            parts(acc) == complex_power(parts(z), done as nat),
        decreases power - done,
    {
        acc = multiply(acc, z);
        done = done + 1;
    }
    acc
}

/// What a formula does to `z` before the power.
pub fn fold(variant: FractalType, z: Vector2<Fixed>) -> (r: Vector2<Fixed>)
    ensures
        parts(r) == folded(variant, parts(z)),
{
    match variant {
        FractalType::Mandelbrot => z,
        FractalType::BurningShip => {
            let x: i128 = if z.x.raw < 0 {
                -(z.x.raw as i128)
            } else {
                z.x.raw as i128
            };
            let y: i128 = if z.y.raw < 0 {
                -(z.y.raw as i128)
            } else {
                z.y.raw as i128
            };
            Vector2::new(hold(x), hold(y))
        },
        FractalType::Tricorn => Vector2::new(z.x, hold(-(z.y.raw as i128))),
    }
}

/// One step of the iteration.
pub fn step(variant: FractalType, power: u32, z: Vector2<Fixed>, c: Vector2<Fixed>) -> (r:
    Vector2<Fixed>)
    ensures
        parts(r) == next_point(variant, power as nat, parts(z), parts(c)),
{
    let p = raise(fold(variant, z), power);
    Vector2::new(
        hold(p.x.raw as i128 + c.x.raw as i128),
        hold(p.y.raw as i128 + c.y.raw as i128),
    )
}

/// The square of the distance of a point from the origin.
pub fn modulus_squared(z: Vector2<Fixed>) -> (n: u128)
    ensures
        n == squared_modulus(parts(z)),
        n <= 0x8000_0000_0000_0000_0000_0000_0000_0000,
{
    proof {
        lemma_product_bounds(z.x@, z.x@, 0x8000_0000_0000_0000, 0x8000_0000_0000_0000);
        lemma_product_bounds(z.y@, z.y@, 0x8000_0000_0000_0000, 0x8000_0000_0000_0000);
        assert(z.x@ * z.x@ >= 0) by (nonlinear_arith);
        assert(z.y@ * z.y@ >= 0) by (nonlinear_arith);
    }
    let xx: i128 = (z.x.raw as i128) * (z.x.raw as i128);
    let yy: i128 = (z.y.raw as i128) * (z.y.raw as i128);
    (xx as u128) + (yy as u128)
}

/// Whether a point lies outside the escape radius.
pub fn has_escaped(z: Vector2<Fixed>) -> (r: bool)
    ensures
        r == escaped(parts(z)),
{
    modulus_squared(z) > ESCAPE_RADIUS_SQUARED_RAW
}

/// Follows an orbit from `start` and reports the first of its points with an
/// index below `max_iterations` that lies outside the escape radius.
pub fn escape_time(
    variant: FractalType,
    power: u32,
    start: Vector2<Fixed>,
    c: Vector2<Fixed>,
    max_iterations: u32,
) -> (r: Escape)
    ensures
        first_escape(variant, power as nat, parts(start), parts(c), max_iterations as nat, r),
{
    let mut z = start;
    let mut n: u32 = 0;
    while n < max_iterations
        invariant
            n <= max_iterations,
            parts(z) == orbit(variant, power as nat, parts(start), parts(c), n as nat),
            forall|k: nat|
                k < n ==> !escaped(
                    #[trigger] orbit(variant, power as nat, parts(start), parts(c), k),
                ),
        decreases max_iterations - n,
    {
        if has_escaped(z) {
            return Escape::Exterior { steps: n, last: z };
        }
        z = step(variant, power, z, c);
        n = n + 1;
    }
    Escape::Interior
}

impl FractalSettings {
    /// Where the orbit of a sample starts: at the sample for a Julia set,
    /// else at the origin.
    pub open spec fn start_of(self, sample: (int, int)) -> (int, int) {
        if self.julia_enabled {
            sample
        } else {
            (0, 0)
        }
    }

    /// The constant of the orbit of a sample: the seed for a Julia set, else
    /// the sample.
    pub open spec fn constant_of(self, sample: (int, int)) -> (int, int) {
        if self.julia_enabled {
            parts(self.julia_seed)
        } else {
            sample
        }
    }

    /// The number of points of an orbit that are looked at.
    pub open spec fn limit(self) -> nat {
        if self.max_iterations > 0 {
            self.max_iterations as nat
        } else {
            0
        }
    }

    /// Whether `e` is what became of the orbit of a sample: of its orbit by
    /// multiplying where the exponent is a whole power, else of its orbit by
    /// the polar form.
    pub open spec fn evaluated(self, sample: (int, int), e: Escape) -> bool {
        match whole_power(self.exponent@) {
            Some(k) => first_escape(
                self.variant,
                k,
                self.start_of(sample),
                self.constant_of(sample),
                self.limit(),
                e,
            ),
            None => first_polar_escape(
                self.variant,
                self.exponent@,
                self.start_of(sample),
                self.constant_of(sample),
                self.limit(),
                e,
            ),
        }
    }

    /// The whole power of the iteration, where the exponent is one.
    pub fn power(&self) -> (p: Option<u32>)
        ensures
            p.is_some() == whole_power(self.exponent@).is_some(),
            p matches Some(k) ==> whole_power(self.exponent@) == Some(k as nat),
    {
        if self.exponent.raw < 0 || self.exponent.raw > (WHOLE_POWER_LIMIT as i64) * ONE_RAW
            || !self.exponent.is_whole() {
            None
        } else {
            Some((self.exponent.raw / ONE_RAW) as u32)
        }
    }

    /// The escape-time evaluation of one sample.
    pub fn evaluate(&self, sample: Vector2<Fixed>) -> (r: Escape)
        ensures
            self.evaluated(parts(sample), r),
    {
        let limit: u32 = if self.max_iterations > 0 {
            self.max_iterations as u32
        } else {
            0
        };
        let start = if self.julia_enabled {
            sample
        } else {
            Vector2::new(Fixed { raw: 0 }, Fixed { raw: 0 })
        };
        let c = if self.julia_enabled {
            self.julia_seed
        } else {
            sample
        };
        match self.power() {
            Some(power) => escape_time(self.variant, power, start, c, limit),
            None => polar_escape_time(self.variant, self.exponent, start, c, limit),
        }
    }
}

} // verus!
