use fractal_viewer::fixed::Fixed;
use fractal_viewer::fixed::ONE_RAW;
use fractal_viewer::fractal::raise;
use fractal_viewer::fractal::Escape;
use fractal_viewer::fractal::FractalType;
use fractal_viewer::polar::modulus_logarithm;
use fractal_viewer::polar::polar_escape_time;
use fractal_viewer::polar::polar_raise;
use fractal_viewer::polar::polar_step;
use fractal_viewer::vector2::Vector2;

fn complex(re: f64, im: f64) -> Vector2<Fixed> {
    Vector2::new(
        Fixed::from_raw((re * 4294967296.0).round() as i64),
        Fixed::from_raw((im * 4294967296.0).round() as i64),
    )
}

fn number(v: f64) -> Fixed {
    Fixed::from_raw((v * 4294967296.0).round() as i64)
}

fn pair(z: Vector2<Fixed>) -> (i64, i64) {
    (z.x.raw, z.y.raw)
}

fn floats(z: Vector2<Fixed>) -> (f64, f64) {
    (z.x.raw as f64 / 4294967296.0, z.y.raw as f64 / 4294967296.0)
}

fn raised(z: Vector2<Fixed>, e: Fixed) -> Vector2<Fixed> {
    polar_raise(z, e).expect("the number has a power")
}

fn stepped(variant: FractalType, e: Fixed, z: Vector2<Fixed>, c: Vector2<Fixed>) -> Vector2<Fixed> {
    polar_step(variant, e, z, c).expect("the iteration goes on")
}

fn float_power(re: f64, im: f64, e: f64) -> (f64, f64) {
    let r = re.hypot(im).powf(e);
    let t = im.atan2(re) * e;
    (r * t.cos(), r * t.sin())
}

fn next(seed: &mut u64) -> u64 {
    *seed = seed.wrapping_mul(6364136223846793005).wrapping_add(1442695040888963407);
    *seed >> 11
}

#[test]
fn the_logarithm_of_a_distance() {
    assert_eq!(modulus_logarithm(complex(4.0, 0.0)).raw, 2 * ONE_RAW);
    assert_eq!(modulus_logarithm(complex(0.0, -1.0)).raw, 0);
    assert_eq!(modulus_logarithm(complex(-0.25, 0.0)).raw, -2 * ONE_RAW);
    // The distance of 1 + i is the root of two.
    assert_eq!(modulus_logarithm(complex(1.0, 1.0)).raw, ONE_RAW / 2);
    // The smallest and the largest distances.
    assert_eq!(modulus_logarithm(Vector2::new(Fixed::from_raw(1), Fixed::zero())).raw, -32 * ONE_RAW);
    let far = Vector2::new(Fixed::from_raw(i64::MIN), Fixed::from_raw(i64::MIN));
    assert_eq!(modulus_logarithm(far).raw, 31 * ONE_RAW + ONE_RAW / 2);
}

#[test]
fn roots_and_inverses_of_numbers_on_the_axes() {
    // The root of four is two, that of minus four is 2 i.
    assert_eq!(pair(raised(complex(4.0, 0.0), number(0.5))), (2 * ONE_RAW, 0));
    assert_eq!(pair(raised(complex(-4.0, 0.0), number(0.5))), (0, 2 * ONE_RAW));
    // One over four, and one over 4 i, which is minus i over four.
    assert_eq!(pair(raised(complex(4.0, 0.0), number(-1.0))), (ONE_RAW / 4, 0));
    assert_eq!(pair(raised(complex(0.0, 4.0), number(-1.0))), (0, -ONE_RAW / 4));
    // The square of 2 i by the polar form is minus four.
    assert_eq!(pair(raised(complex(0.0, 2.0), number(2.0))), (-4 * ONE_RAW, 0));
    // Anything to the power nothing is one.
    assert_eq!(pair(raised(complex(-3.0, 0.0), number(0.0))), (ONE_RAW, 0));
}

#[test]
fn the_power_of_the_origin() {
    let origin = complex(0.0, 0.0);
    // Under a positive exponent the origin stays.
    for e in [0.5, 1.0, 2.5, 100.0] {
        assert_eq!(polar_raise(origin, number(e)).map(pair), Some((0, 0)));
    }
    assert_eq!(polar_raise(origin, Fixed::from_raw(1)).map(pair), Some((0, 0)));
    // Under the exponent nothing it is one, as every number is.
    assert_eq!(polar_raise(origin, number(0.0)).map(pair), Some((ONE_RAW, 0)));
    // Under a negative exponent it has no power.
    for e in [-2.0, -0.5, -100.0] {
        assert!(polar_raise(origin, number(e)).is_none());
    }
    assert!(polar_raise(origin, Fixed::from_raw(-1)).is_none());
    assert!(polar_raise(origin, Fixed::from_raw(i64::MIN)).is_none());
    // Every other number has one under every exponent.
    let small = Vector2::new(Fixed::from_raw(1), Fixed::zero());
    assert!(polar_raise(small, number(-2.0)).is_some());
    assert!(polar_raise(small, Fixed::from_raw(i64::MIN)).is_some());
}

#[test]
fn a_step_from_the_origin_under_a_negative_exponent_is_none() {
    let origin = complex(0.0, 0.0);
    let c = complex(5.0, 0.0);
    for variant in [FractalType::Mandelbrot, FractalType::BurningShip, FractalType::Tricorn] {
        assert!(polar_step(variant, number(-1.0), origin, c).is_none());
        assert_eq!(polar_step(variant, number(1.5), origin, c).map(pair), Some((5 * ONE_RAW, 0)));
        assert!(polar_step(variant, number(-1.0), complex(0.0, 1.0), c).is_some());
    }
}

#[test]
fn an_orbit_that_comes_to_the_origin_under_a_negative_exponent_is_interior() {
    let origin = complex(0.0, 0.0);
    let minus_one = number(-1.0);
    // From the origin the first step has no value, whatever the constant.
    assert!(matches!(
        polar_escape_time(FractalType::Mandelbrot, minus_one, origin, complex(5.0, 0.0), 10),
        Escape::Interior
    ));
    // From 1 under the constant -1 the orbit is 1, 1/1 - 1 = 0, and ends.
    assert!(matches!(
        polar_escape_time(FractalType::Mandelbrot, minus_one, complex(1.0, 0.0), complex(-1.0, 0.0), 10),
        Escape::Interior
    ));
    // A point outside the radius before the origin is found first.
    assert!(matches!(
        polar_escape_time(FractalType::Mandelbrot, minus_one, complex(9.0, 0.0), origin, 10),
        Escape::Exterior { steps: 0, .. }
    ));
    // From 1/8 under the constant 0 the orbit is 1/8, 8: outside at step 1.
    match polar_escape_time(FractalType::Mandelbrot, minus_one, complex(0.125, 0.0), origin, 10) {
        Escape::Exterior { steps, last } => {
            assert_eq!(steps, 1);
            assert_eq!(pair(last), (8 * ONE_RAW, 0));
        }
        Escape::Interior => panic!("eight is outside the escape radius"),
    }
    // The origin as the last point that is looked at: nothing is outside.
    assert!(matches!(
        polar_escape_time(FractalType::Mandelbrot, minus_one, origin, complex(5.0, 0.0), 1),
        Escape::Interior
    ));
    // Under a positive exponent the orbit goes on from the origin.
    assert!(matches!(
        polar_escape_time(FractalType::Mandelbrot, number(1.5), origin, complex(5.0, 0.0), 10),
        Escape::Exterior { steps: 1, .. }
    ));
}

#[test]
fn the_polar_power_is_near_the_power() {
    let mut seed: u64 = 51;
    for _ in 0..20000 {
        let re = (next(&mut seed) % 8_000_000) as f64 / 1_000_000.0 - 4.0;
        let im = (next(&mut seed) % 8_000_000) as f64 / 1_000_000.0 - 4.0;
        let e = (next(&mut seed) % 6_000_000) as f64 / 1_000_000.0;
        if re.hypot(im) < 0.01 {
            continue;
        }
        let z = complex(re, im);
        let (zr, zi) = floats(z);
        let exponent = number(e);
        let (gr, gi) = floats(raised(z, exponent));
        let (wr, wi) = float_power(zr, zi, exponent.raw as f64 / 4294967296.0);
        let size = wr.hypot(wi);
        let miss = (gr - wr).hypot(gi - wi);
        assert!(miss <= size * 1e-7 + 1e-8, "{} {} ^ {}: {} {} and {} {}", re, im, e, gr, gi, wr, wi);
    }
}

#[test]
fn the_polar_power_agrees_with_multiplying() {
    let mut seed: u64 = 52;
    for _ in 0..5000 {
        let re = (next(&mut seed) % 6_000_000) as f64 / 1_000_000.0 - 3.0;
        let im = (next(&mut seed) % 6_000_000) as f64 / 1_000_000.0 - 3.0;
        let power = 1 + (next(&mut seed) % 5) as u32;
        let z = complex(re, im);
        let (mr, mi) = floats(raise(z, power));
        let (pr, pi) = floats(raised(z, Fixed::from_int(power as i32)));
        let size = mr.hypot(mi);
        assert!((mr - pr).hypot(mi - pi) <= size * 1e-7 + 1e-8, "{} {} ^ {}", re, im, power);
    }
}

#[test]
fn a_large_power_is_held_at_the_ends_of_the_range() {
    let z = raised(complex(1000.0, 0.0), number(50.5));
    assert_eq!(pair(z), (i64::MAX, 0));
    let back = raised(complex(-1000.0, 0.0), number(51.0));
    assert_eq!(back.x.raw, i64::MIN + 1);
    let small = raised(complex(0.001, 0.0), number(50.5));
    assert_eq!(pair(small), (0, 0));
}

#[test]
fn a_step_by_the_polar_form() {
    // The Burning Ship folds -4 - 0 i to 4, whose root is 2; then c is added.
    let z = stepped(FractalType::BurningShip, number(0.5), complex(-4.0, 0.0), complex(1.0, -1.0));
    assert_eq!(pair(z), (3 * ONE_RAW, -ONE_RAW));
    // The Tricorn mirrors 4 i to -4 i, whose inverse is i over four.
    let t = stepped(FractalType::Tricorn, number(-1.0), complex(0.0, 4.0), complex(0.0, 0.0));
    assert_eq!(pair(t), (0, ONE_RAW / 4));
    // The Mandelbrot formula takes the number as it is.
    let m = stepped(FractalType::Mandelbrot, number(0.5), complex(-4.0, 0.0), complex(0.0, 0.0));
    assert_eq!(pair(m), (0, 2 * ONE_RAW));
}

#[test]
fn orbits_under_an_exponent_with_a_fraction() {
    let e = number(2.5);
    let origin = complex(0.0, 0.0);
    // The orbit of the origin under no constant never moves.
    assert!(matches!(
        polar_escape_time(FractalType::Mandelbrot, e, origin, origin, 500),
        Escape::Interior
    ));
    // Under the constant 5 the second point is outside.
    match polar_escape_time(FractalType::Mandelbrot, e, origin, complex(5.0, 0.0), 500) {
        Escape::Exterior { steps, last } => {
            assert_eq!(steps, 1);
            assert_eq!(pair(last), (5 * ONE_RAW, 0));
        }
        Escape::Interior => panic!("five is outside the escape radius"),
    }
    // Under the constant 2 the orbit is 0, 2, 2^2.5 + 2 = 7.657.
    match polar_escape_time(FractalType::Mandelbrot, e, origin, complex(2.0, 0.0), 500) {
        Escape::Exterior { steps, last } => {
            assert_eq!(steps, 2);
            let (re, im) = floats(last);
            assert!((re - (2.0f64.powf(2.5) + 2.0)).abs() < 1e-7);
            assert_eq!(im, 0.0);
        }
        Escape::Interior => panic!("two leaves under the power 2.5"),
    }
    // A limit of no steps looks at nothing.
    assert!(matches!(
        polar_escape_time(FractalType::Mandelbrot, e, origin, complex(5.0, 0.0), 0),
        Escape::Interior
    ));
    // A start outside the radius is the first point outside.
    assert!(matches!(
        polar_escape_time(FractalType::Mandelbrot, e, complex(9.0, 0.0), origin, 10),
        Escape::Exterior { steps: 0, .. }
    ));
}

#[test]
fn the_polar_orbit_follows_the_orbit_by_multiplying_for_a_while() {
    // Under the classic square both evaluations see the same early escape.
    let two = number(2.0);
    let origin = complex(0.0, 0.0);
    for c in [(1.0, 0.0), (0.5, 0.5), (-2.5, 0.0), (0.3, -0.8), (1.5, 1.5)] {
        let by_polar = polar_escape_time(FractalType::Mandelbrot, two, origin, complex(c.0, c.1), 30);
        let by_product = fractal_viewer::fractal::escape_time(
            FractalType::Mandelbrot,
            2,
            origin,
            complex(c.0, c.1),
            30,
        );
        match (by_polar, by_product) {
            (Escape::Exterior { steps: a, .. }, Escape::Exterior { steps: b, .. }) => {
                assert_eq!(a, b)
            }
            _ => panic!("{:?} leaves the escape radius", c),
        }
    }
}
