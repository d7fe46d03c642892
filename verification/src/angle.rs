//! The direction of a point of the plane as seen from the origin, in fixed
//! point: the angle between the positive real axis and the point, as a
//! fraction of a turn from minus one half to one half.
//!
//! The plane is cut into eight octants. Within the first, where the
//! imaginary part is no more than the real part, the angle is the arc tangent
//! of their ratio. Up to the tangent of a sixteenth of a turn that is the
//! series of the arc tangent with ten terms; above it the ratio `t` is
//! replaced by `(1 - t) / (1 + t)`, whose arc tangent is what is missing to
//! an eighth of a turn. The other octants are mirror images of the first.
//! The angles of the axes and of the diagonals are exact.

use crate::cosine::QUARTER_RAW;
use crate::cosine::descend;
use crate::cosine::descent;
use crate::cosine::lemma_part_of;
use crate::fixed::Fixed;
use crate::fixed::HALF_RAW;
use crate::fixed::ONE_RAW;
use crate::fixed::floor_div;
use crate::fixed::lemma_div_at_least;
use crate::fixed::lemma_div_at_most;
use crate::fixed::product;
use crate::vector2::Vector2;
use vstd::prelude::*;

verus! {

/// The step count of an eighth.
pub const EIGHTH_RAW: i64 = 0x2000_0000;

/// The step count of the tangent of a sixteenth of a turn, the root of two
/// less one.
pub const OCTANT_SPLIT_RAW: i64 = 1_779_033_704;

/// The terms of the series of the arc tangent, in turns, as step counts:
/// `1 / ((2 k + 1) 2 pi)` for `k` from zero to nine.
pub const ARC_0: i64 = 683_565_276;

pub const ARC_1: i64 = 227_855_092;

pub const ARC_2: i64 = 136_713_055;

pub const ARC_3: i64 = 97_652_182;

pub const ARC_4: i64 = 75_951_697;

pub const ARC_5: i64 = 62_142_298;

pub const ARC_6: i64 = 52_581_944;

pub const ARC_7: i64 = 45_571_018;

pub const ARC_8: i64 = 40_209_722;

pub const ARC_9: i64 = 35_977_120;

/// The series of the arc tangent of `u`, in turns:
/// `u (a0 - v (a1 - v (a2 - ... - v a9)))` with `v` the square of `u`.
pub open spec fn arc_series(u: int) -> int {
    let v = product(u, u);
    let h8 = descent(ARC_8 as int, v, ARC_9 as int);
    let h7 = descent(ARC_7 as int, v, h8);
    let h6 = descent(ARC_6 as int, v, h7);
    let h5 = descent(ARC_5 as int, v, h6);
    let h4 = descent(ARC_4 as int, v, h5);
    let h3 = descent(ARC_3 as int, v, h4);
    let h2 = descent(ARC_2 as int, v, h3);
    let h1 = descent(ARC_1 as int, v, h2);
    let h0 = descent(ARC_0 as int, v, h1);
    product(u, h0)
}

/// The arc tangent of a ratio `t` from nothing up to one, in turns: an
/// angle within the first octant.
pub open spec fn octant_arc(t: int) -> int {
    if t <= OCTANT_SPLIT_RAW {
        arc_series(t)
    } else {
        EIGHTH_RAW - arc_series(((ONE_RAW - t) * ONE_RAW) / (ONE_RAW + t))
    }
}

/// The angle of a point of the first quadrant that is not the origin: `x`
/// and `y` are not negative.
pub open spec fn quadrant_arc(x: int, y: int) -> int {
    if y > x {
        QUARTER_RAW - octant_arc((x * ONE_RAW) / y)
    } else {
        octant_arc((y * ONE_RAW) / x)
    }
}

/// The size of a number without its sign.
pub open spec fn magnitude(v: int) -> int {
    if v < 0 {
        -v
    } else {
        v
    }
}

/// The angle of the point `(x, y)`, in turns from minus one half to one
/// half. The origin has the angle nothing.
pub open spec fn angle_of(x: int, y: int) -> int {
    if x == 0 && y == 0 {
        0
    } else {
        let a = quadrant_arc(magnitude(x), magnitude(y));
        if x >= 0 {
            if y >= 0 {
                a
            } else {
                -a
            }
        } else {
            if y >= 0 {
                HALF_RAW - a
            } else {
                a - HALF_RAW
            }
        }
    }
}

/// The series of the arc tangent.
pub fn arc(u: i64) -> (r: i64)
    requires
        0 <= u <= ONE_RAW,
    ensures
        r == arc_series(u as int),
        0 <= r <= ARC_0,
        u <= HALF_RAW ==> r <= EIGHTH_RAW,
{
    proof {
        lemma_part_of(u as int, u as int);
    }
    let v: i64 = floor_div((u as i128) * (u as i128), ONE_RAW as i128) as i64;
    let h8: i64 = descend(ARC_8, v, ARC_9);
    let h7: i64 = descend(ARC_7, v, h8);
    let h6: i64 = descend(ARC_6, v, h7);
    let h5: i64 = descend(ARC_5, v, h6);
    let h4: i64 = descend(ARC_4, v, h5);
    let h3: i64 = descend(ARC_3, v, h4);
    let h2: i64 = descend(ARC_2, v, h3);
    let h1: i64 = descend(ARC_1, v, h2);
    let h0: i64 = descend(ARC_0, v, h1);
    proof {
        lemma_part_of(u as int, h0 as int);
        if u <= HALF_RAW {
            assert(u * h0 <= EIGHTH_RAW * ONE_RAW) by (nonlinear_arith)
                requires
                    0 <= u <= HALF_RAW,
                    0 <= h0 <= ARC_0,
                    HALF_RAW * ARC_0 <= EIGHTH_RAW * ONE_RAW,
            ;
            lemma_div_at_most(u * h0, ONE_RAW as int, EIGHTH_RAW as int);
        }
    }
    floor_div((u as i128) * (h0 as i128), ONE_RAW as i128) as i64
}

/// The arc tangent of a ratio from nothing up to one, in turns.
pub fn octant(t: i64) -> (r: i64)
    requires
        0 <= t <= ONE_RAW,
    ensures
        r == octant_arc(t as int),
        0 <= r <= EIGHTH_RAW,
{
    if t <= OCTANT_SPLIT_RAW {
        arc(t)
    } else {
        proof {
            let n = (ONE_RAW - t) * ONE_RAW;
            assert(0 <= n <= ONE_RAW * (ONE_RAW + t)) by (nonlinear_arith)
                requires
                    n == (ONE_RAW - t) * ONE_RAW,
                    0 <= t <= ONE_RAW,
            ;
            lemma_div_at_least(n, ONE_RAW + t, 0);
            assert(n <= HALF_RAW * (ONE_RAW + t)) by (nonlinear_arith)
                requires
                    n == (ONE_RAW - t) * ONE_RAW,
                    OCTANT_SPLIT_RAW < t <= ONE_RAW,
            ;
            lemma_div_at_most(n, ONE_RAW + t, HALF_RAW as int);
        }
        let s: i64 = floor_div(
            ((ONE_RAW - t) as i128) * (ONE_RAW as i128),
            (ONE_RAW + t) as i128,
        ) as i64;
        EIGHTH_RAW - arc(s)
    }
}

/// The ratio of the smaller to the larger of two sizes lies from nothing up
/// to one.
pub proof fn lemma_ratio_bounds(small: int, large: int)
    requires
        0 <= small <= large,
        0 < large,
    ensures
        0 <= (small * ONE_RAW) / large <= ONE_RAW,
{
    assert(0 <= small * ONE_RAW <= ONE_RAW * large) by (nonlinear_arith)
        requires
            0 <= small <= large,
    ;
    lemma_div_at_least(small * ONE_RAW, large, 0);
    lemma_div_at_most(small * ONE_RAW, large, ONE_RAW as int);
}

/// The angle of a point of the first quadrant that is not the origin.
pub fn quadrant(x: i128, y: i128) -> (r: i64)
    requires
        0 <= x <= 0x8000_0000_0000_0000,
        0 <= y <= 0x8000_0000_0000_0000,
        x > 0 || y > 0,
    ensures
        r == quadrant_arc(x as int, y as int),
        0 <= r <= QUARTER_RAW,
{
    if y > x {
        proof {
            lemma_ratio_bounds(x as int, y as int);
            assert(0 <= x * ONE_RAW <= 0x8000_0000_0000_0000 * 0x1_0000_0000) by (nonlinear_arith)
                requires
                    0 <= x <= 0x8000_0000_0000_0000,
                    ONE_RAW == 0x1_0000_0000,
            ;
        }
        let t: i64 = floor_div(x * (ONE_RAW as i128), y) as i64;
        QUARTER_RAW - octant(t)
    } else {
        proof {
            lemma_ratio_bounds(y as int, x as int);
            assert(0 <= y * ONE_RAW <= 0x8000_0000_0000_0000 * 0x1_0000_0000) by (nonlinear_arith)
                requires
                    0 <= y <= 0x8000_0000_0000_0000,
                    ONE_RAW == 0x1_0000_0000,
            ;
        }
        let t: i64 = floor_div(y * (ONE_RAW as i128), x) as i64;
        octant(t)
    }
}

/// The angle of a point, in turns from minus one half to one half.
pub fn angle(z: Vector2<Fixed>) -> (r: Fixed)
    ensures
        r@ == angle_of(z.x@, z.y@),
        -HALF_RAW <= r@ <= HALF_RAW,
{
    if z.x.raw == 0 && z.y.raw == 0 {
        return Fixed { raw: 0 };
    }
    let x: i128 = if z.x.raw < 0 {
        -(z.x.raw as i128)
    } else {
        z.x.raw as i128
    };
    let y: i128 = if z.y.raw < 0 {
        -(z.y.raw as i128)
    } else {
        z.y.raw as i128
    };
    let a: i64 = quadrant(x, y);
    if z.x.raw >= 0 {
        if z.y.raw >= 0 {
            Fixed { raw: a }
        } else {
            Fixed { raw: -a }
        }
    } else {
        if z.y.raw >= 0 {
            Fixed { raw: HALF_RAW - a }
        } else {
            Fixed { raw: a - HALF_RAW }
        }
    }
}

/// The series of the arc tangent of nothing is nothing.
pub proof fn lemma_arc_of_nothing()
    ensures
        arc_series(0) == 0,
{
    assert forall|h: int| product(0, h) == 0 by {
        assert(0 * h == 0) by (nonlinear_arith);
    }
}

/// The angles of the four axes and of the first diagonal are exact: a point
/// to the right of the origin has the angle nothing, one above it a quarter,
/// one to its left a half, one below it minus a quarter, and one on the
/// diagonal to the upper right an eighth.
pub proof fn lemma_angle_of_the_axes(d: int)
    requires
        d > 0,
    ensures
        angle_of(d, 0) == 0,
        angle_of(0, d) == QUARTER_RAW,
        angle_of(-d, 0) == HALF_RAW,
        angle_of(0, -d) == -QUARTER_RAW,
        angle_of(d, d) == EIGHTH_RAW,
{
    lemma_arc_of_nothing();
    assert(0 * ONE_RAW == 0) by (nonlinear_arith);
    assert((0 * ONE_RAW) / d == 0);
    assert((d * ONE_RAW) / d == ONE_RAW) by {
        vstd::arithmetic::div_mod::lemma_div_by_multiple(ONE_RAW as int, d);
        assert(d * ONE_RAW == ONE_RAW * d) by (nonlinear_arith);
    }
    assert(((ONE_RAW - ONE_RAW) * ONE_RAW) / (ONE_RAW + ONE_RAW) == 0);
}

/// A point and its mirror image below the real axis have opposite angles.
pub proof fn lemma_angle_mirrors(x: int, y: int)
    requires
        y != 0,
    ensures
        angle_of(x, -y) == -angle_of(x, y),
{
}

} // verus!
