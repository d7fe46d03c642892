//! What holds of the camera's gestures, proved of the functions' own
//! contracts.

use crate::camera::CameraInfo;
use crate::camera::Rect;
use crate::camera::WHEEL_LOG_RAW;
use crate::camera::span;
use crate::camera::span_back;
use crate::camera::wheel_factor;
use crate::camera::zoom_after;
use crate::exponential::lemma_power_of_a_whole_number;
use crate::fixed::Fixed;
use crate::fixed::ONE_RAW;
use crate::fixed::lemma_div_at_least;
use crate::fixed::lemma_div_at_most;
use crate::fixed::lemma_floor_bounds;
use crate::fixed::lemma_floor_of_sum;
use crate::fixed::product;
use crate::vector2::Vector2;
use vstd::prelude::*;

verus! {

/// When a zoom gesture leaves the point under the cursor where it was: per
/// coordinate, exactly when the cursor shows the same distance from the
/// camera's position after the change of zoom as before. That is so when the
/// cursor sits at the centre of the viewport, and when the factors leave the
/// zoom as it was.
///
/// For any other gesture the point under the cursor moves: see
/// [`lemma_zoom_moves_anchor`].
pub proof fn lemma_zoom_keeps_anchor(
    cam: CameraInfo,
    cursor: Vector2<Fixed>,
    scroll: Fixed,
    pinch: Fixed,
    rect: Rect,
)
    requires
        cam.wf(),
        cam.zoom_applies(cursor, scroll, pinch, rect),
    ensures
        ({
            let after = cam.zoomed(cursor, scroll, pinch, rect);
            let dx = cursor.x@ - rect.center_x();
            let dy = cursor.y@ - rect.center_y();
            let s = rect.scale();
            let kept_x = after.world_x(rect, cursor.x@) == cam.world_x(rect, cursor.x@);
            let kept_y = after.world_y(rect, cursor.y@) == cam.world_y(rect, cursor.y@);
            &&& kept_x <==> span(dx, after.zoom@, s) == span(dx, cam.zoom@, s)
            &&& kept_y <==> span(dy, after.zoom@, s) == span(dy, cam.zoom@, s)
            &&& dx == 0 ==> kept_x
            &&& dy == 0 ==> kept_y
            &&& after.zoom@ == cam.zoom@ ==> kept_x && kept_y
        }),
{
    let after = cam.zoomed(cursor, scroll, pinch, rect);
    assert(2 * 0 * cam.zoom@ == 0) by (nonlinear_arith);
    assert(2 * 0 * after.zoom@ == 0) by (nonlinear_arith);
    assert(span(0, cam.zoom@, rect.scale()) == 0);
    assert(span(0, after.zoom@, rect.scale()) == 0);
}

/// What a zoom gesture does to the point under the cursor, for every gesture
/// that is carried out: it moves by twice the change of the cursor's distance
/// from the camera's position. And the one quantity that every zoom gesture
/// keeps: that distance less the position.
pub proof fn lemma_zoom_moves_anchor(
    cam: CameraInfo,
    cursor: Vector2<Fixed>,
    scroll: Fixed,
    pinch: Fixed,
    rect: Rect,
)
    requires
        cam.wf(),
        cam.zoom_applies(cursor, scroll, pinch, rect),
    ensures
        ({
            let after = cam.zoomed(cursor, scroll, pinch, rect);
            let dx = cursor.x@ - rect.center_x();
            let dy = cursor.y@ - rect.center_y();
            let s = rect.scale();
            &&& after.wf()
            &&& after.zoom@ == zoom_after(cam.zoom@, scroll@, pinch@).unwrap()
            &&& after.world_x(rect, cursor.x@) - cam.world_x(rect, cursor.x@) == 2 * (span(
                dx,
                after.zoom@,
                s,
            ) - span(dx, cam.zoom@, s))
            &&& after.world_y(rect, cursor.y@) - cam.world_y(rect, cursor.y@) == 2 * (span(
                dy,
                after.zoom@,
                s,
            ) - span(dy, cam.zoom@, s))
            &&& span(dx, after.zoom@, s) - after.pos.x@ == span(dx, cam.zoom@, s) - cam.pos.x@
            &&& span(dy, after.zoom@, s) - after.pos.y@ == span(dy, cam.zoom@, s) - cam.pos.y@
        }),
{
}

/// Two drags one after the other move the camera as one drag by their sum
/// does, up to the rounding of each drag: per coordinate the single drag lands
/// on the same step or on the next one, and the zoom is the same. The two
/// agree exactly when the remainders that the two roundings drop stay,
/// together, below one divisor.
pub proof fn lemma_pan_composes(
    cam: CameraInfo,
    first: Vector2<Fixed>,
    second: Vector2<Fixed>,
    both: Vector2<Fixed>,
    rect: Rect,
)
    requires
        cam.wf(),
        both.x@ == first.x@ + second.x@,
        both.y@ == first.y@ + second.y@,
        cam.pan_applies(first, rect),
        cam.panned(first, rect).pan_applies(second, rect),
        cam.pan_applies(both, rect),
    ensures
        ({
            let two = cam.panned(first, rect).panned(second, rect);
            let one = cam.panned(both, rect);
            let s = rect.scale();
            let z = cam.zoom@;
            &&& one.zoom == two.zoom
            &&& two.zoom == cam.zoom
            &&& 0 <= one.pos.x@ - two.pos.x@ <= 1
            &&& 0 <= one.pos.y@ - two.pos.y@ <= 1
            &&& (one.pos.x == two.pos.x) <==> ((2 * first.x@ * z) % s) + ((2 * second.x@ * z) % s)
                < s
            &&& (one.pos.y == two.pos.y) <==> ((2 * first.y@ * z) % s) + ((2 * second.y@ * z) % s)
                < s
        }),
{
    let s = rect.scale();
    let z = cam.zoom@;
    assert(2 * both.x@ * z == 2 * first.x@ * z + 2 * second.x@ * z) by (nonlinear_arith)
        requires
            both.x@ == first.x@ + second.x@,
    ;
    assert(2 * both.y@ * z == 2 * first.y@ * z + 2 * second.y@ * z) by (nonlinear_arith)
        requires
            both.y@ == first.y@ + second.y@,
    ;
    lemma_floor_of_sum(2 * first.x@ * z, 2 * second.x@ * z, s);
    lemma_floor_of_sum(2 * first.y@ * z, 2 * second.y@ * z, s);
}

/// One coordinate of the way from the screen to the plane and back: the
/// offset that comes back is never larger than the one that went out, and
/// falls short of it by at most one step more than half the shorter side of
/// the viewport divided by the zoom.
pub proof fn lemma_span_round_trip(d: int, zoom: int, scale: int)
    requires
        zoom > 0,
        scale > 0,
    ensures
        0 <= d - span_back(span(d, zoom, scale), zoom, scale) <= scale / (2 * zoom) + 1,
{
    let m = span(d, zoom, scale);
    let q = scale / (2 * zoom);
    lemma_floor_bounds(2 * d * zoom, scale);
    lemma_floor_bounds(scale, 2 * zoom);
    // m * scale <= 2 d zoom < m * scale + scale, and scale < (q + 1) * 2 zoom.
    assert(m * scale <= d * (2 * zoom)) by (nonlinear_arith)
        requires
            m * scale <= 2 * d * zoom,
    ;
    lemma_div_at_most(m * scale, 2 * zoom, d);
    assert(m * scale >= (d - q - 1) * (2 * zoom)) by (nonlinear_arith)
        requires
            2 * d * zoom < m * scale + scale,
            scale < q * (2 * zoom) + 2 * zoom,
    ;
    lemma_div_at_least(m * scale, 2 * zoom, d - q - 1);
}

/// One coordinate of the way from the plane to the screen and back: the
/// offset that comes back is never larger than the one that went out, and
/// falls short of it by at most one step more than twice the zoom divided by
/// the shorter side of the viewport.
pub proof fn lemma_span_back_round_trip(w: int, zoom: int, scale: int)
    requires
        zoom > 0,
        scale > 0,
    ensures
        0 <= w - span(span_back(w, zoom, scale), zoom, scale) <= (2 * zoom) / scale + 1,
{
    let d = span_back(w, zoom, scale);
    let q = (2 * zoom) / scale;
    lemma_floor_bounds(w * scale, 2 * zoom);
    lemma_floor_bounds(2 * zoom, scale);
    assert(2 * d * zoom <= w * scale) by (nonlinear_arith)
        requires
            d * (2 * zoom) <= w * scale,
    ;
    lemma_div_at_most(2 * d * zoom, scale, w);
    assert(2 * d * zoom >= (w - q - 1) * scale) by (nonlinear_arith)
        requires
            w * scale < d * (2 * zoom) + 2 * zoom,
            2 * zoom < q * scale + scale,
    ;
    lemma_div_at_least(2 * d * zoom, scale, w - q - 1);
}

/// A point of the plane taken to the screen and back comes back within a
/// bound that the camera and the viewport fix: per coordinate it is never
/// past the point that went out, and short of it by at most one step more
/// than twice the zoom divided by the viewport's shorter side.
pub proof fn lemma_world_round_trip(cam: CameraInfo, rect: Rect, world: Vector2<Fixed>)
    requires
        cam.wf(),
        cam.maps_back(rect, world),
    ensures
        ({
            let sx = cam.screen_x(rect, world.x@);
            let sy = cam.screen_y(rect, world.y@);
            let slack = (2 * cam.zoom@) / rect.scale() + 1;
            &&& 0 <= world.x@ - cam.world_x(rect, sx) <= slack
            &&& 0 <= world.y@ - cam.world_y(rect, sy) <= slack
        }),
{
    lemma_span_back_round_trip(world.x@ - cam.pos.x@, cam.zoom@, rect.scale());
    lemma_span_back_round_trip(world.y@ - cam.pos.y@, cam.zoom@, rect.scale());
}

/// A screen point taken to the plane and back comes back within a bound that
/// the camera and the viewport fix: per coordinate it is never past the
/// point that went out, and short of it by at most one step more than half
/// the viewport's shorter side divided by the zoom.
pub proof fn lemma_screen_round_trip(cam: CameraInfo, rect: Rect, screen: Vector2<Fixed>)
    requires
        cam.wf(),
        cam.maps(rect, screen),
    ensures
        ({
            let wx = cam.world_x(rect, screen.x@);
            let wy = cam.world_y(rect, screen.y@);
            let slack = rect.scale() / (2 * cam.zoom@) + 1;
            &&& 0 <= screen.x@ - cam.screen_x(rect, wx) <= slack
            &&& 0 <= screen.y@ - cam.screen_y(rect, wy) <= slack
        }),
{
    lemma_span_round_trip(screen.x@ - rect.center_x(), cam.zoom@, rect.scale());
    lemma_span_round_trip(screen.y@ - rect.center_y(), cam.zoom@, rect.scale());
}

/// A wheel that did not turn asks for the factor one.
pub proof fn lemma_idle_wheel()
    ensures
        wheel_factor(0) == ONE_RAW,
{
    assert(product(0, WHEEL_LOG_RAW as int) == 0) by {
        assert(0 * WHEEL_LOG_RAW == 0) by (nonlinear_arith);
    }
    lemma_power_of_a_whole_number(0);
    vstd::arithmetic::power2::lemma2_to64();
    assert(0 * ONE_RAW == 0) by (nonlinear_arith);
    assert(1 * ONE_RAW == ONE_RAW) by (nonlinear_arith);
}

/// A gesture with the factor one from the wheel and from the pinch leaves
/// the camera as it was.
pub proof fn lemma_idle_zoom(cam: CameraInfo, cursor: Vector2<Fixed>, rect: Rect)
    requires
        cam.wf(),
    ensures
        cam.zoomed(cursor, Fixed { raw: ONE_RAW }, Fixed { raw: ONE_RAW }, rect) == cam,
{
    assert(product(cam.zoom@, ONE_RAW as int) == cam.zoom@) by {
        vstd::arithmetic::div_mod::lemma_div_by_multiple(cam.zoom@, ONE_RAW as int);
    }
    let same = cam.with_zoom(cam.zoom@);
    assert(same.zoom == cam.zoom);
    assert(same == cam);
}

} // verus!
