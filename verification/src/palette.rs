//! The cosine palette: four triples of coefficients `a`, `b`, `c`, `d` that
//! turn a colour index `t` into the colour `a + b * cos(2 pi (c t + d))`,
//! channel by channel, each channel held between zero and one.
//!
//! The cosine has the period one in `c t + d`, so only the fraction of that
//! sum matters: the phase, a fraction of a turn. The phase is exact but for
//! the rounding of the product `c t`; the cosine of a phase is that of
//! [`crate::cosine`].

use crate::cosine::cosine_at;
use crate::cosine::turn_cosine;
use crate::fixed::Fixed;
use crate::fixed::HALF_RAW;
use crate::fixed::ONE_RAW;
use crate::fixed::floor_div;
use crate::fixed::fraction;
use crate::fixed::held_product;
use crate::fixed::lemma_product_bounds;
use crate::fixed::product;
use vstd::prelude::*;

verus! {

/// The coefficients of one cosine palette, one triple per letter, each triple
/// in the order red, green, blue.
#[derive(Debug, Copy, Clone, PartialEq, Eq)]
pub struct ColorScheme {
    pub a: [Fixed; 3],
    pub b: [Fixed; 3],
    pub c: [Fixed; 3],
    pub d: [Fixed; 3],
}

/// A palette and how fast the colour index runs through it.
#[derive(Debug, Copy, Clone)]
pub struct PaletteSettings {
    pub scheme: ColorScheme,
    pub speed: Fixed,
}

/// The phase of one channel at the colour index `t`: the fraction of
/// `c t + d`, the product rounded down.
pub open spec fn phase_of(c: int, d: int, t: int) -> int {
    fraction(product(c, t) + d)
}

/// One channel of the colour: `a + b * cosine`, the product rounded down,
/// held between zero and one.
pub open spec fn channel_of(a: int, b: int, cosine: int) -> int {
    let v = a + product(b, cosine);
    if v < 0 {
        0
    } else if v > ONE_RAW {
        ONE_RAW as int
    } else {
        v
    }
}

/// One channel of the colour at the colour index `t`.
pub open spec fn channel_at(a: int, b: int, c: int, d: int, t: int) -> int {
    channel_of(a, b, turn_cosine(phase_of(c, d, t)))
}

fn triple(x: i64, y: i64, z: i64) -> (r: [Fixed; 3])
    ensures
        r[0]@ == x,
        r[1]@ == y,
        r[2]@ == z,
{
    [Fixed { raw: x }, Fixed { raw: y }, Fixed { raw: z }]
}

impl ColorScheme {
    /// The palette with the given coefficients.
    pub fn new(a: [Fixed; 3], b: [Fixed; 3], c: [Fixed; 3], d: [Fixed; 3]) -> (s: Self)
        ensures
            s.a == a,
            s.b == b,
            s.c == c,
            s.d == d,
    {
        Self { a, b, c, d }
    }

    /// Whether the palette has the given step counts, triple by triple.
    pub open spec fn has(self, a: (int, int, int), b: (int, int, int), c: (int, int, int), d: (
        int,
        int,
        int,
    )) -> bool {
        &&& self.a[0]@ == a.0 && self.a[1]@ == a.1 && self.a[2]@ == a.2
        &&& self.b[0]@ == b.0 && self.b[1]@ == b.1 && self.b[2]@ == b.2
        &&& self.c[0]@ == c.0 && self.c[1]@ == c.1 && self.c[2]@ == c.2
        &&& self.d[0]@ == d.0 && self.d[1]@ == d.1 && self.d[2]@ == d.2
    }

    /// Rainbow: a and b one half, c one, d 0.00, 0.33, 0.67.
    pub fn rainbow() -> (s: Self)
        ensures
            s.has(
                (HALF_RAW as int, HALF_RAW as int, HALF_RAW as int),
                (HALF_RAW as int, HALF_RAW as int, HALF_RAW as int),
                (ONE_RAW as int, ONE_RAW as int, ONE_RAW as int),
                (0, 1_417_339_208, 2_877_628_088),
            ),
    {
        Self::new(
            triple(HALF_RAW, HALF_RAW, HALF_RAW),
            triple(HALF_RAW, HALF_RAW, HALF_RAW),
            triple(ONE_RAW, ONE_RAW, ONE_RAW),
            triple(0, 1_417_339_208, 2_877_628_088),
        )
    }

    /// Earth: a and b one half, c one, d 0.00, 0.10, 0.20.
    pub fn earth() -> (s: Self)
        ensures
            s.has(
                (HALF_RAW as int, HALF_RAW as int, HALF_RAW as int),
                (HALF_RAW as int, HALF_RAW as int, HALF_RAW as int),
                (ONE_RAW as int, ONE_RAW as int, ONE_RAW as int),
                (0, 429_496_730, 858_993_459),
            ),
    {
        Self::new(
            triple(HALF_RAW, HALF_RAW, HALF_RAW),
            triple(HALF_RAW, HALF_RAW, HALF_RAW),
            triple(ONE_RAW, ONE_RAW, ONE_RAW),
            triple(0, 429_496_730, 858_993_459),
        )
    }

    /// Sky: a and b one half, c one, d 0.30, 0.20, 0.20.
    pub fn sky() -> (s: Self)
        ensures
            s.has(
                (HALF_RAW as int, HALF_RAW as int, HALF_RAW as int),
                (HALF_RAW as int, HALF_RAW as int, HALF_RAW as int),
                (ONE_RAW as int, ONE_RAW as int, ONE_RAW as int),
                (1_288_490_189, 858_993_459, 858_993_459),
            ),
    {
        Self::new(
            triple(HALF_RAW, HALF_RAW, HALF_RAW),
            triple(HALF_RAW, HALF_RAW, HALF_RAW),
            triple(ONE_RAW, ONE_RAW, ONE_RAW),
            triple(1_288_490_189, 858_993_459, 858_993_459),
        )
    }

    /// Midday: a and b one half, c 1.0, 1.0, 0.5, d 0.80, 0.90, 0.30.
    pub fn midday() -> (s: Self)
        ensures
            s.has(
                (HALF_RAW as int, HALF_RAW as int, HALF_RAW as int),
                (HALF_RAW as int, HALF_RAW as int, HALF_RAW as int),
                (ONE_RAW as int, ONE_RAW as int, HALF_RAW as int),
                (3_435_973_837, 3_865_470_566, 1_288_490_189),
            ),
    {
        Self::new(
            triple(HALF_RAW, HALF_RAW, HALF_RAW),
            triple(HALF_RAW, HALF_RAW, HALF_RAW),
            triple(ONE_RAW, ONE_RAW, HALF_RAW),
            triple(3_435_973_837, 3_865_470_566, 1_288_490_189),
        )
    }

    /// Midnight Amber: a and b one half, c 1.0, 0.7, 0.4, d 0.00, 0.15, 0.20.
    pub fn midnight_amber() -> (s: Self)
        ensures
            s.has(
                (HALF_RAW as int, HALF_RAW as int, HALF_RAW as int),
                (HALF_RAW as int, HALF_RAW as int, HALF_RAW as int),
                (ONE_RAW as int, 3_006_477_107, 1_717_986_918),
                (0, 644_245_094, 858_993_459),
            ),
    {
        Self::new(
            triple(HALF_RAW, HALF_RAW, HALF_RAW),
            triple(HALF_RAW, HALF_RAW, HALF_RAW),
            triple(ONE_RAW, 3_006_477_107, 1_717_986_918),
            triple(0, 644_245_094, 858_993_459),
        )
    }

    /// Sunset: a and b one half, c 2.0, 1.0, 0.0, d 0.50, 0.20, 0.25.
    pub fn sunset() -> (s: Self)
        ensures
            s.has(
                (HALF_RAW as int, HALF_RAW as int, HALF_RAW as int),
                (HALF_RAW as int, HALF_RAW as int, HALF_RAW as int),
                (2 * ONE_RAW, ONE_RAW as int, 0),
                (HALF_RAW as int, 858_993_459, 1_073_741_824),
            ),
    {
        Self::new(
            triple(HALF_RAW, HALF_RAW, HALF_RAW),
            triple(HALF_RAW, HALF_RAW, HALF_RAW),
            triple(2 * ONE_RAW, ONE_RAW, 0),
            triple(HALF_RAW, 858_993_459, 1_073_741_824),
        )
    }

    /// Crimson: a 0.8, 0.5, 0.4, b 0.2, 0.4, 0.2, c 2.0, 1.0, 1.0,
    /// d 0.00, 0.25, 0.25.
    pub fn crimson() -> (s: Self)
        ensures
            s.has(
                (3_435_973_837, HALF_RAW as int, 1_717_986_918),
                (858_993_459, 1_717_986_918, 858_993_459),
                (2 * ONE_RAW, ONE_RAW as int, ONE_RAW as int),
                (0, 1_073_741_824, 1_073_741_824),
            ),
    {
        Self::new(
            triple(3_435_973_837, HALF_RAW, 1_717_986_918),
            triple(858_993_459, 1_717_986_918, 858_993_459),
            triple(2 * ONE_RAW, ONE_RAW, ONE_RAW),
            triple(0, 1_073_741_824, 1_073_741_824),
        )
    }

    /// The colour at the colour index `t`, as the step counts of red, green
    /// and blue.
    pub open spec fn color_at(self, t: int) -> (int, int, int) {
        (
            channel_at(self.a[0]@, self.b[0]@, self.c[0]@, self.d[0]@, t),
            channel_at(self.a[1]@, self.b[1]@, self.c[1]@, self.d[1]@, t),
            channel_at(self.a[2]@, self.b[2]@, self.c[2]@, self.d[2]@, t),
        )
    }

    /// The colour at the colour index `t`.
    pub fn palette(&self, t: Fixed) -> (r: [Fixed; 3])
        ensures
            (r[0]@, r[1]@, r[2]@) == self.color_at(t@),
    {
        let at = self.phases(t);
        self.color([cosine_at(at[0]), cosine_at(at[1]), cosine_at(at[2])])
    }

    /// The phases of the three channels at the colour index `t`.
    pub fn phases(&self, t: Fixed) -> (r: [Fixed; 3])
        ensures
            r[0]@ == phase_of(self.c[0]@, self.d[0]@, t@),
            r[1]@ == phase_of(self.c[1]@, self.d[1]@, t@),
            r[2]@ == phase_of(self.c[2]@, self.d[2]@, t@),
            0 <= r[0]@ < ONE_RAW,
            0 <= r[1]@ < ONE_RAW,
            0 <= r[2]@ < ONE_RAW,
    {
        [
            phase(self.c[0], self.d[0], t),
            phase(self.c[1], self.d[1], t),
            phase(self.c[2], self.d[2], t),
        ]
    }

    /// The colour whose channels have the given cosines.
    pub fn color(&self, cosines: [Fixed; 3]) -> (r: [Fixed; 3])
        ensures
            r[0]@ == channel_of(self.a[0]@, self.b[0]@, cosines[0]@),
            r[1]@ == channel_of(self.a[1]@, self.b[1]@, cosines[1]@),
            r[2]@ == channel_of(self.a[2]@, self.b[2]@, cosines[2]@),
    {
        [
            channel(self.a[0], self.b[0], cosines[0]),
            channel(self.a[1], self.b[1], cosines[1]),
            channel(self.a[2], self.b[2], cosines[2]),
        ]
    }
}

/// The phase of one channel: the fraction of `c t + d`. It lies between zero
/// and one.
pub fn phase(c: Fixed, d: Fixed, t: Fixed) -> (r: Fixed)
    ensures
        r@ == phase_of(c@, d@, t@),
        0 <= r@ < ONE_RAW,
{
    proof {
        lemma_product_bounds(c@, t@, 0x8000_0000_0000_0000, 0x8000_0000_0000_0000);
    }
    let wide: i128 = (c.raw as i128) * (t.raw as i128);
    let turns: i128 = floor_div(wide, ONE_RAW as i128);
    proof {
        crate::fixed::lemma_div_at_most(
            wide as int,
            ONE_RAW as int,
            0x4000_0000_0000_0000_0000_0000,
        );
        crate::fixed::lemma_div_at_least(
            wide as int,
            ONE_RAW as int,
            -0x4000_0000_0000_0000_0000_0000,
        );
    }
    let sum: i128 = turns + d.raw as i128;
    let whole: i128 = floor_div(sum, ONE_RAW as i128);
    proof {
        vstd::arithmetic::div_mod::lemma_mod_bound(sum as int, ONE_RAW as int);
        crate::fixed::lemma_floor_bounds(sum as int, ONE_RAW as int);
    }
    Fixed { raw: (sum - whole * (ONE_RAW as i128)) as i64 }
}

/// One channel of the colour: `a + b * cosine`, held between zero and one.
pub fn channel(a: Fixed, b: Fixed, cosine: Fixed) -> (r: Fixed)
    ensures
        r@ == channel_of(a@, b@, cosine@),
        0 <= r@ <= ONE_RAW,
{
    proof {
        lemma_product_bounds(b@, cosine@, 0x8000_0000_0000_0000, 0x8000_0000_0000_0000);
    }
    let wide: i128 = (b.raw as i128) * (cosine.raw as i128);
    let part: i128 = floor_div(wide, ONE_RAW as i128);
    proof {
        crate::fixed::lemma_div_at_most(
            wide as int,
            ONE_RAW as int,
            0x4000_0000_0000_0000_0000_0000,
        );
        crate::fixed::lemma_div_at_least(
            wide as int,
            ONE_RAW as int,
            -0x4000_0000_0000_0000_0000_0000,
        );
    }
    let v: i128 = a.raw as i128 + part;
    if v < 0 {
        Fixed { raw: 0 }
    } else if v > ONE_RAW as i128 {
        Fixed { raw: ONE_RAW }
    } else {
        Fixed { raw: v as i64 }
    }
}

impl PaletteSettings {
    /// The colour of a sample by the step that is shaded: the colour of the
    /// palette at the step's colour index.
    pub fn color_of_step(&self, step: Fixed) -> (r: [Fixed; 3])
        ensures
            (r[0]@, r[1]@, r[2]@) == self.scheme.color_at(held_product(step@, self.speed@)),
    {
        self.scheme.palette(color_index(step, self.speed))
    }
}

/// The colour of a sample that never left the escape radius: black.
pub fn interior_color() -> (r: [Fixed; 3])
    ensures
        r[0]@ == 0,
        r[1]@ == 0,
        r[2]@ == 0,
{
    [Fixed { raw: 0 }, Fixed { raw: 0 }, Fixed { raw: 0 }]
}

/// The colour index of an escape step: the step times the palette's speed,
/// rounded down and held in range.
pub fn color_index(step: Fixed, speed: Fixed) -> (t: Fixed)
    ensures
        t@ == held_product(step@, speed@),
{
    Fixed::saturating_mul(step, speed)
}

/// Where `c` is a whole number, a colour index one larger has the same
/// phase: the palette repeats with the period one.
pub proof fn lemma_phase_has_period_one(c: int, d: int, t: int)
    requires
        fraction(c) == 0,
    ensures
        phase_of(c, d, t + ONE_RAW) == phase_of(c, d, t),
{
    let s = ONE_RAW as int;
    let k = c / s;
    vstd::arithmetic::div_mod::lemma_fundamental_div_mod(c, s);
    assert(c == s * k);
    assert(c * (t + s) == c * t + c * s) by (nonlinear_arith);
    // One more turn of the index adds `c` whole turns to the product.
    vstd::arithmetic::div_mod::lemma_hoist_over_denominator(c * t, c, s as nat);
    assert(product(c, t + s) == product(c, t) + c);
    // And whole turns do not change the fraction.
    vstd::arithmetic::div_mod::lemma_mod_multiples_vanish(k, product(c, t) + d, s);
    assert(product(c, t) + c + d == s * k + (product(c, t) + d));
}

/// Where the `c` of a palette are whole numbers, a colour index one larger
/// has the same colour: the palette repeats with the period one.
pub proof fn lemma_palette_has_period_one(scheme: ColorScheme, t: int)
    requires
        fraction(scheme.c[0]@) == 0,
        fraction(scheme.c[1]@) == 0,
        fraction(scheme.c[2]@) == 0,
    ensures
        scheme.color_at(t + ONE_RAW) == scheme.color_at(t),
{
    lemma_phase_has_period_one(scheme.c[0]@, scheme.d[0]@, t);
    lemma_phase_has_period_one(scheme.c[1]@, scheme.d[1]@, t);
    lemma_phase_has_period_one(scheme.c[2]@, scheme.d[2]@, t);
}

} // verus!
