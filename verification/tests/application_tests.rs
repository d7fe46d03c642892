use fractal_viewer::application::Application;
use fractal_viewer::application::PointerInput;
use fractal_viewer::application::DEFAULT_MAX_ITERATIONS;
use fractal_viewer::application::DEFAULT_PALETTE_SPEED_RAW;
use fractal_viewer::camera::CameraInfo;
use fractal_viewer::camera::Rect;
use fractal_viewer::camera::DEFAULT_ZOOM_RAW;
use fractal_viewer::coloring::colorize;
use fractal_viewer::fixed::Fixed;
use fractal_viewer::fixed::ONE_RAW;
use fractal_viewer::fractal::FractalType;
use fractal_viewer::fractal::ShadingType;
use fractal_viewer::palette::ColorScheme;
use fractal_viewer::vector2::Vector2;

fn at(x: i32, y: i32) -> Vector2<Fixed> {
    Vector2::new(Fixed::from_int(x), Fixed::from_int(y))
}

fn screen() -> Rect {
    Rect::new(at(0, 0), at(800, 600))
}

fn idle(cursor: Vector2<Fixed>) -> PointerInput {
    PointerInput {
        cursor,
        scroll_delta: Fixed::zero(),
        pinch_factor: Fixed::one(),
        primary_drag: None,
        secondary_pos: None,
    }
}

#[test]
fn a_fresh_viewer_has_the_defaults() {
    let app = Application::new();
    assert_eq!((app.camera.pos.x.raw, app.camera.pos.y.raw), (0, 0));
    assert_eq!(app.camera.zoom.raw, DEFAULT_ZOOM_RAW);
    assert_eq!(app.fractal.max_iterations, 1024);
    assert_eq!(DEFAULT_MAX_ITERATIONS, 1024);
    assert_eq!(app.fractal.exponent, Fixed::from_int(2));
    assert_eq!(app.fractal.variant, FractalType::Mandelbrot);
    assert!(!app.fractal.julia_enabled);
    assert!(!app.fractal.perturbation_enabled);
    assert_eq!((app.fractal.julia_seed.x.raw, app.fractal.julia_seed.y.raw), (0, 0));
    assert_eq!(app.shading.mode, ShadingType::Smooth);
    assert_eq!(app.palette.scheme, ColorScheme::midnight_amber());
    assert_eq!(app.palette.speed.raw, DEFAULT_PALETTE_SPEED_RAW);
    assert_eq!(app.palette.speed.raw, (0.05f64 * 4294967296.0).round() as i64);
}

#[test]
fn an_idle_frame_changes_nothing() {
    let mut app = Application::new();
    app.inputs(&idle(at(123, 456)), &screen());
    assert_eq!((app.camera.pos.x.raw, app.camera.pos.y.raw), (0, 0));
    assert_eq!(app.camera.zoom.raw, DEFAULT_ZOOM_RAW);
    assert_eq!((app.fractal.julia_seed.x.raw, app.fractal.julia_seed.y.raw), (0, 0));
}

#[test]
fn a_frame_zooms_then_drags_then_sets_the_seed() {
    let mut app = Application::new();
    let input = PointerInput {
        cursor: at(700, 300),
        scroll_delta: Fixed::zero(),
        pinch_factor: Fixed::from_raw(ONE_RAW / 2),
        primary_drag: Some(at(300, 0)),
        secondary_pos: Some(at(400, 300)),
    };
    app.inputs(&input, &screen());
    let zoom = DEFAULT_ZOOM_RAW / 2;
    assert_eq!(app.camera.zoom.raw, zoom);
    // The zoom moves the position by -zoom, the drag by +zoom.
    assert_eq!((app.camera.pos.x.raw, app.camera.pos.y.raw), (zoom - DEFAULT_ZOOM_RAW + zoom, 0));
    // The seed is what the centre shows after both.
    assert_eq!(app.fractal.julia_seed.x.raw, app.camera.pos.x.raw);
    assert_eq!(app.fractal.julia_seed.y.raw, 0);
    assert_eq!(app.fractal.max_iterations, 1024);
    assert_eq!(app.palette.scheme, ColorScheme::midnight_amber());
}

#[test]
fn the_secondary_button_sets_the_julia_seed() {
    let mut app = Application::new();
    app.set_julia_seed(at(700, 0), &screen());
    assert_eq!(
        (app.fractal.julia_seed.x.raw, app.fractal.julia_seed.y.raw),
        (DEFAULT_ZOOM_RAW, -DEFAULT_ZOOM_RAW)
    );
    // A viewport without area leaves the seed.
    app.set_julia_seed(at(1, 1), &Rect::new(at(0, 0), at(0, 0)));
    assert_eq!(
        (app.fractal.julia_seed.x.raw, app.fractal.julia_seed.y.raw),
        (DEFAULT_ZOOM_RAW, -DEFAULT_ZOOM_RAW)
    );
}

#[test]
fn a_frame_without_a_usable_viewport_changes_nothing() {
    let mut app = Application::new();
    let input = PointerInput {
        cursor: at(700, 300),
        scroll_delta: Fixed::from_int(10),
        pinch_factor: Fixed::from_int(3),
        primary_drag: Some(at(300, 0)),
        secondary_pos: Some(at(1, 1)),
    };
    app.inputs(&input, &Rect::new(at(0, 0), at(800, 0)));
    assert_eq!((app.camera.pos.x.raw, app.camera.pos.y.raw), (0, 0));
    assert_eq!(app.camera.zoom.raw, DEFAULT_ZOOM_RAW);
    assert_eq!((app.fractal.julia_seed.x.raw, app.fractal.julia_seed.y.raw), (0, 0));
}

#[test]
fn the_block_of_a_frame_carries_the_viewport() {
    let app = Application::new();
    let rect = Rect::new(at(10, 20), at(810, 620));
    let block = app.custom_painting(&rect);
    assert_eq!(block.resolution, [800.0f32.to_bits(), 600.0f32.to_bits()]);
    assert_eq!(block.offset, [10.0f32.to_bits(), 20.0f32.to_bits()]);
    assert_eq!(block.pos, [0, 0]);
    assert_eq!(block.zoom, 2.1f32.to_bits());
    assert_eq!(block.max_iter, 1024);
    assert_eq!(block.exponent, 2.0f32.to_bits());
    assert_eq!(block.fractal_type, 0);
    assert_eq!(block.shading_type, 1);
    assert_eq!(block.palette_speed, 0.05f32.to_bits());
    assert_eq!(block.flags, 0);
    assert_eq!(block.julia_pos, [0, 0]);
    assert_eq!(block.color_scheme.c, [1.0f32.to_bits(), 0.7f32.to_bits(), 0.4f32.to_bits(), 0]);
    assert_eq!(block.color_scheme.d, [0, 0.15f32.to_bits(), 0.2f32.to_bits(), 0]);
}

#[test]
fn resetting_the_camera_keeps_the_settings() {
    let mut app = Application::new();
    app.fractal.max_iterations = 77;
    app.inputs(
        &PointerInput {
            cursor: at(100, 100),
            scroll_delta: Fixed::from_int(-50),
            pinch_factor: Fixed::one(),
            primary_drag: Some(at(5, 5)),
            secondary_pos: None,
        },
        &screen(),
    );
    assert_ne!(app.camera.zoom.raw, DEFAULT_ZOOM_RAW);
    app.camera.reset();
    assert_eq!((app.camera.pos.x.raw, app.camera.pos.y.raw), (0, 0));
    assert_eq!(app.camera.zoom.raw, DEFAULT_ZOOM_RAW);
    assert_eq!(app.fractal.max_iterations, 77);
}

#[test]
fn a_pixel_is_the_colour_of_its_sample() {
    let app = Application::new();
    let rect = screen();
    let reference = app.reference();
    let mut outside = 0;
    for x in (0..=800).step_by(50) {
        for y in (0..=600).step_by(50) {
            let here = at(x, y);
            let e = app.sample(here, &rect, &reference).unwrap();
            let want = colorize(e, app.fractal.exponent, &app.shading, &app.palette);
            assert_eq!(app.pixel(here, &rect, &reference), Some(want));
            if want != [Fixed::zero(); 3] {
                outside += 1;
            }
        }
    }
    assert!(outside > 50);
}

#[test]
fn the_pixel_at_the_centre_of_a_fresh_viewer_is_black() {
    let app = Application::new();
    let reference = app.reference();
    assert_eq!(app.pixel(at(400, 300), &screen(), &reference), Some([Fixed::zero(); 3]));
}

#[test]
fn a_pixel_far_from_the_set_has_the_colour_of_an_early_step() {
    let mut app = Application::new();
    app.shading.mode = ShadingType::Normal;
    app.palette.scheme = ColorScheme::rainbow();
    app.palette.speed = Fixed::from_raw(ONE_RAW / 4);
    let reference = app.reference();
    // The right edge of the viewport lies at 2.8: the orbit 0, 2.8, 10.64
    // is outside at its third point, the step two, which is half a turn of
    // the colour index.
    let c = app.pixel(at(800, 300), &screen(), &reference).unwrap();
    assert_eq!(c[0].raw, 0);
}

#[test]
fn there_is_no_pixel_without_a_sample() {
    let app = Application::new();
    let reference = app.reference();
    let empty = Rect::new(at(0, 0), at(0, 0));
    assert_eq!(app.pixel(at(1, 1), &empty, &reference), None);
    assert!(app.sample(at(1, 1), &empty, &reference).is_none());
}

#[test]
fn a_pixel_under_an_exponent_with_a_fraction() {
    let mut app = Application::new();
    app.fractal.exponent = Fixed::from_raw(5 * ONE_RAW / 2);
    app.fractal.max_iterations = 60;
    let rect = screen();
    let reference = app.reference();
    let mut inside = 0;
    let mut outside = 0;
    for x in (0..=800).step_by(100) {
        for y in (0..=600).step_by(100) {
            let here = at(x, y);
            let e = app.sample(here, &rect, &reference).unwrap();
            let want = colorize(e, app.fractal.exponent, &app.shading, &app.palette);
            assert_eq!(app.pixel(here, &rect, &reference), Some(want));
            if want == [Fixed::zero(); 3] {
                inside += 1;
            } else {
                outside += 1;
            }
        }
    }
    assert!(inside > 0 && outside > 0);
}

#[test]
fn the_wheel_of_a_frame_zooms_by_its_turn() {
    let mut app = Application::new();
    let mut input = idle(at(400, 300));
    input.scroll_delta = Fixed::from_int(3);
    app.inputs(&input, &screen());
    let mut camera = CameraInfo::default();
    camera.apply_zoom(at(400, 300), Fixed::from_int(3), Fixed::one(), &screen());
    assert_eq!(app.camera.zoom, camera.zoom);
    assert_eq!(
        (app.camera.pos.x.raw, app.camera.pos.y.raw),
        (camera.pos.x.raw, camera.pos.y.raw)
    );
    let want = DEFAULT_ZOOM_RAW as f64 / 1.01f64.powi(3);
    assert!((app.camera.zoom.raw as f64 - want).abs() < 64.0);
}

#[test]
fn every_screen_point_has_a_colour() {
    let mut app = Application::new();
    app.palette.scheme = ColorScheme::rainbow();
    let reference = app.reference();
    // Where there is a sample, its colour.
    for (x, y) in [(0, 0), (400, 300), (800, 300), (123, 456)] {
        let want = app.pixel(at(x, y), &screen(), &reference).unwrap();
        assert_eq!(app.pixel_color(at(x, y), &screen(), &reference), want);
    }
    assert_ne!(app.pixel_color(at(800, 300), &screen(), &reference), [Fixed::zero(); 3]);
    // Where there is none, the interior colour: a viewport without area,
    // and a point of the plane beyond the range of the numbers.
    let empty = Rect::new(at(0, 0), at(0, 0));
    assert_eq!(app.pixel(at(1, 1), &empty, &reference), None);
    assert_eq!(app.pixel_color(at(1, 1), &empty, &reference), [Fixed::zero(); 3]);
    app.camera.pos = Vector2::new(Fixed::from_raw(i64::MAX), Fixed::zero());
    assert_eq!(app.pixel(at(800, 300), &screen(), &reference), None);
    assert_eq!(app.pixel_color(at(800, 300), &screen(), &reference), [Fixed::zero(); 3]);
}

#[test]
fn a_pixel_under_a_negative_exponent_is_black() {
    let mut app = Application::new();
    app.fractal.exponent = Fixed::from_int(-1);
    app.fractal.max_iterations = 10;
    app.shading.mode = ShadingType::Normal;
    let reference = app.reference();
    for (x, y) in [(0, 0), (400, 300), (800, 300), (123, 456)] {
        assert_eq!(app.pixel_color(at(x, y), &screen(), &reference), [Fixed::zero(); 3]);
    }
}

#[test]
fn two_frames_with_a_drag_each_pan_as_one_frame_with_their_sum() {
    let mut seed: u64 = 61;
    for _ in 0..500 {
        seed = seed.wrapping_mul(6364136223846793005).wrapping_add(1442695040888963407);
        let first = Vector2::new(
            Fixed::from_raw((seed >> 20) as i64 - (1 << 43)),
            Fixed::from_raw((seed >> 30) as i64 - (1 << 33)),
        );
        seed = seed.wrapping_mul(6364136223846793005).wrapping_add(1442695040888963407);
        let second = Vector2::new(
            Fixed::from_raw((seed >> 22) as i64 - (1 << 41)),
            Fixed::from_raw((seed >> 28) as i64 - (1 << 35)),
        );
        let both = Vector2::new(
            Fixed::from_raw(first.x.raw + second.x.raw),
            Fixed::from_raw(first.y.raw + second.y.raw),
        );
        let mut two = Application::new();
        let mut frame = idle(at(10, 20));
        frame.primary_drag = Some(first);
        two.inputs(&frame, &screen());
        frame.cursor = at(30, 40);
        frame.primary_drag = Some(second);
        two.inputs(&frame, &screen());
        let mut one = Application::new();
        frame.primary_drag = Some(both);
        one.inputs(&frame, &screen());
        assert_eq!(one.camera.zoom, two.camera.zoom);
        assert_eq!(one.camera.zoom.raw, DEFAULT_ZOOM_RAW);
        let dx = one.camera.pos.x.raw - two.camera.pos.x.raw;
        let dy = one.camera.pos.y.raw - two.camera.pos.y.raw;
        assert!(dx == 0 || dx == 1);
        assert!(dy == 0 || dy == 1);
        let span = (2 * both.x.raw as i128 * DEFAULT_ZOOM_RAW as i128).div_euclid(600 << 32);
        assert_eq!(one.camera.pos.x.raw as i128, span);
    }
}

#[test]
fn the_seed_of_a_click_comes_back_to_the_click() {
    let rect = screen();
    for (x, y) in [(0, 0), (400, 300), (799, 1), (123, 456), (650, 599)] {
        let mut app = Application::new();
        app.camera.pos = Vector2::new(Fixed::from_raw(-3_000_000_001), Fixed::from_raw(77));
        let mut frame = idle(at(5, 5));
        frame.secondary_pos = Some(at(x, y));
        app.inputs(&frame, &rect);
        let seed = app.fractal.julia_seed;
        assert_eq!(seed.x, app.camera.screen_to_world(at(x, y), &rect).unwrap().x);
        let back = app.camera.world_to_screen(seed, &rect).unwrap();
        let slack = (600i64 << 32) / (2 * DEFAULT_ZOOM_RAW) + 1;
        let dx = at(x, y).x.raw - back.x.raw;
        let dy = at(x, y).y.raw - back.y.raw;
        assert!(0 <= dx && dx <= slack, "{}", dx);
        assert!(0 <= dy && dy <= slack, "{}", dy);
    }
}
