use fractal_viewer::fixed::Fixed;
use fractal_viewer::vector2::Vector2;
use fractal_viewer::vector2::Vector2b;
use fractal_viewer::vector2::Vector2i;

#[test]
fn new_keeps_components() {
    let v = Vector2::new(3, -4);
    assert_eq!(v.x, 3);
    assert_eq!(v.y, -4);
}

#[test]
fn add_is_componentwise() {
    let s: Vector2i = Vector2::new(1, 2) + Vector2::new(10, 20);
    assert_eq!((s.x, s.y), (11, 22));
}

#[test]
fn sub_is_componentwise() {
    let s: Vector2i = Vector2::new(1, 2) - Vector2::new(10, 20);
    assert_eq!((s.x, s.y), (-9, -18));
}

#[test]
fn mul_scales_both_components() {
    let s: Vector2i = Vector2::new(3, -5) * 4;
    assert_eq!((s.x, s.y), (12, -20));
}

#[test]
fn div_divides_both_components() {
    let s: Vector2i = Vector2::new(12, -20) / 4;
    assert_eq!((s.x, s.y), (3, -5));
}

#[test]
fn operators_work_on_doubles_without_a_change_of_type() {
    let s: Vector2<f64> = Vector2::new(0.5f64, 1.5f64) + Vector2::new(0.25f64, 0.25f64);
    assert_eq!((s.x, s.y), (0.75f64, 1.75f64));
    let h: Vector2<f64> = s / 2.0f64;
    assert_eq!((h.x, h.y), (0.375f64, 0.875f64));
}

#[test]
fn assigning_operations_change_in_place() {
    let mut v: Vector2i = Vector2::new(1, 2);
    v.add_assign(Vector2::new(10, 20));
    assert_eq!((v.x, v.y), (11, 22));
    v.sub_assign(Vector2::new(1, 2));
    assert_eq!((v.x, v.y), (10, 20));
    v.mul_assign(3);
    assert_eq!((v.x, v.y), (30, 60));
    v.div_assign(6);
    assert_eq!((v.x, v.y), (5, 10));
}

#[test]
fn default_is_the_default_of_the_scalar() {
    let v: Vector2i = Vector2::default();
    assert_eq!((v.x, v.y), (0, 0));
    let b: Vector2b = Vector2::default();
    assert_eq!((b.x, b.y), (false, false));
}

#[test]
fn converts_to_and_from_a_pair() {
    let pair: (i32, i32) = Vector2::new(7, 8).into();
    assert_eq!(pair, (7, 8));
    let v: Vector2i = (7, 8).into();
    assert_eq!((v.x, v.y), (7, 8));
}

#[test]
fn converts_to_and_from_an_array() {
    let arr: [i32; 2] = Vector2::new(7, 8).into();
    assert_eq!(arr, [7, 8]);
    let v: Vector2i = [7, 8].into();
    assert_eq!((v.x, v.y), (7, 8));
}

#[test]
fn fixed_point_vectors_add_exactly() {
    let a = Vector2::new(Fixed::from_int(1), Fixed::from_raw(5));
    let b = Vector2::new(Fixed::from_raw(-3), Fixed::from_int(2));
    let s = a + b;
    assert_eq!(s.x.raw, (1i64 << 32) - 3);
    assert_eq!(s.y.raw, (2i64 << 32) + 5);
    let d = a - b;
    assert_eq!(d.x.raw, (1i64 << 32) + 3);
    assert_eq!(d.y.raw, 5 - (2i64 << 32));
}

#[test]
fn fixed_point_vectors_scale_with_rounding_down() {
    let v = Vector2::new(Fixed::from_raw(3), Fixed::from_raw(-3));
    let half = Fixed::from_raw(1 << 31);
    let s = v * half;
    assert_eq!((s.x.raw, s.y.raw), (1, -2));
    let q = Vector2::new(Fixed::from_int(3), Fixed::from_int(-3)) / Fixed::from_int(2);
    assert_eq!((q.x.raw, q.y.raw), (3i64 << 31, -(3i64 << 31)));
}
