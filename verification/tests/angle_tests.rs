use fractal_viewer::angle::angle;
use fractal_viewer::angle::arc;
use fractal_viewer::angle::octant;
use fractal_viewer::angle::quadrant;
use fractal_viewer::angle::ARC_0;
use fractal_viewer::angle::ARC_1;
use fractal_viewer::angle::ARC_2;
use fractal_viewer::angle::ARC_3;
use fractal_viewer::angle::ARC_4;
use fractal_viewer::angle::ARC_5;
use fractal_viewer::angle::ARC_6;
use fractal_viewer::angle::ARC_7;
use fractal_viewer::angle::ARC_8;
use fractal_viewer::angle::ARC_9;
use fractal_viewer::angle::EIGHTH_RAW;
use fractal_viewer::angle::OCTANT_SPLIT_RAW;
use fractal_viewer::cosine::QUARTER_RAW;
use fractal_viewer::fixed::Fixed;
use fractal_viewer::fixed::HALF_RAW;
use fractal_viewer::fixed::ONE_RAW;
use fractal_viewer::vector2::Vector2;

fn point(x: i64, y: i64) -> Vector2<Fixed> {
    Vector2::new(Fixed::from_raw(x), Fixed::from_raw(y))
}

fn next(seed: &mut u64) -> u64 {
    *seed = seed.wrapping_mul(6364136223846793005).wrapping_add(1442695040888963407);
    *seed >> 11
}

fn float_angle(x: i64, y: i64) -> f64 {
    (y as f64).atan2(x as f64) / (2.0 * std::f64::consts::PI)
}

#[test]
fn the_terms_of_the_arc_tangent() {
    let terms = [ARC_0, ARC_1, ARC_2, ARC_3, ARC_4, ARC_5, ARC_6, ARC_7, ARC_8, ARC_9];
    for k in 0..10 {
        let want = 4294967296.0 / ((2 * k + 1) as f64 * 2.0 * std::f64::consts::PI);
        assert_eq!(terms[k], want.round() as i64);
    }
    assert_eq!(OCTANT_SPLIT_RAW, ((2.0f64.sqrt() - 1.0) * 4294967296.0).round() as i64);
}

#[test]
fn angles_of_the_axes_and_the_diagonals() {
    assert_eq!(angle(point(0, 0)).raw, 0);
    for d in [1, 2, 1000, ONE_RAW, i64::MAX] {
        assert_eq!(angle(point(d, 0)).raw, 0);
        assert_eq!(angle(point(0, d)).raw, QUARTER_RAW);
        assert_eq!(angle(point(-d, 0)).raw, HALF_RAW);
        assert_eq!(angle(point(0, -d)).raw, -QUARTER_RAW);
        assert_eq!(angle(point(d, d)).raw, EIGHTH_RAW);
        assert_eq!(angle(point(-d, d)).raw, 3 * EIGHTH_RAW);
        assert_eq!(angle(point(-d, -d)).raw, -3 * EIGHTH_RAW);
        assert_eq!(angle(point(d, -d)).raw, -EIGHTH_RAW);
    }
    assert_eq!(angle(point(i64::MIN, 0)).raw, HALF_RAW);
    assert_eq!(angle(point(0, i64::MIN)).raw, -QUARTER_RAW);
    assert_eq!(angle(point(i64::MIN, i64::MIN)).raw, -3 * EIGHTH_RAW);
}

#[test]
fn the_angle_of_a_twelfth_of_a_turn() {
    // The tangent of thirty degrees is one over the root of three.
    let x = 3_000_000_000_000_000_000;
    let y = 1_732_050_807_568_877_294;
    let got = angle(point(x, y)).raw;
    assert!((got - ONE_RAW / 12).abs() <= 4, "{}", got);
    // And sixty degrees is what is missing to a quarter.
    let other = angle(point(y, x)).raw;
    assert_eq!(other, QUARTER_RAW - got);
}

#[test]
fn angle_is_near_the_angle() {
    let mut seed: u64 = 31;
    for _ in 0..20000 {
        let bits = 2 + next(&mut seed) % 50;
        let x = (next(&mut seed) % (1 << bits)) as i64 - (1 << (bits - 1));
        let y = (next(&mut seed) % (1 << bits)) as i64 - (1 << (bits - 1));
        if x.abs().max(y.abs()) < 1 << 20 {
            continue;
        }
        let got = angle(point(x, y)).raw as f64 / 4294967296.0;
        let mut miss = (got - float_angle(x, y)).abs();
        if miss > 0.5 {
            miss = (miss - 1.0).abs();
        }
        assert!(miss < 2e-9, "of {} {}: {}", x, y, got);
    }
}

#[test]
fn angle_stays_within_half_a_turn() {
    let mut seed: u64 = 32;
    for _ in 0..20000 {
        let x = (next(&mut seed) as i64).wrapping_mul(2049);
        let y = (next(&mut seed) as i64).wrapping_mul(2051);
        let a = angle(point(x, y)).raw;
        assert!(-HALF_RAW <= a && a <= HALF_RAW);
    }
}

#[test]
fn mirror_images_have_opposite_angles() {
    let mut seed: u64 = 33;
    for _ in 0..5000 {
        let x = next(&mut seed) as i64 - (1 << 52);
        let y = 1 + (next(&mut seed) as i64);
        assert_eq!(angle(point(x, -y)).raw, -angle(point(x, y)).raw);
    }
}

#[test]
fn the_pieces_of_the_angle() {
    assert_eq!(arc(0), 0);
    assert_eq!(octant(0), 0);
    assert_eq!(octant(ONE_RAW), EIGHTH_RAW);
    // On either side of the split the two forms agree to a few steps.
    let below = octant(OCTANT_SPLIT_RAW);
    let above = octant(OCTANT_SPLIT_RAW + 1);
    assert!((below - EIGHTH_RAW / 2).abs() <= 4);
    assert!((above - EIGHTH_RAW / 2).abs() <= 4);
    assert_eq!(quadrant(5, 0), 0);
    assert_eq!(quadrant(0, 5), QUARTER_RAW);
    assert_eq!(quadrant(5, 5), EIGHTH_RAW);
    assert_eq!(quadrant(1 << 63, 1 << 63), EIGHTH_RAW);
}
