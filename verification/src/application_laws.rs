//! What holds of the frames of the viewer, proved of the contract of
//! [`Application::inputs`].

use crate::application::Application;
use crate::application::PointerInput;
use crate::camera::Rect;
use crate::camera::span;
use crate::camera_laws::lemma_idle_wheel;
use crate::camera_laws::lemma_idle_zoom;
use crate::camera_laws::lemma_pan_composes;
use crate::camera_laws::lemma_screen_round_trip;
use crate::fixed::Fixed;
use crate::fixed::ONE_RAW;
use crate::vector2::Vector2;
use vstd::prelude::*;

verus! {

/// The gestures of a frame in which the wheel did not turn and nothing was
/// pinched.
pub open spec fn still_frame(
    cursor: Vector2<Fixed>,
    primary_drag: Option<Vector2<Fixed>>,
    secondary_pos: Option<Vector2<Fixed>>,
) -> PointerInput {
    PointerInput {
        cursor,
        scroll_delta: Fixed { raw: 0 },
        pinch_factor: Fixed { raw: ONE_RAW },
        primary_drag,
        secondary_pos,
    }
}

/// A frame without a turn of the wheel, a pinch or a drag leaves the camera
/// as it was, and a frame with a drag only pans it.
pub proof fn lemma_still_frame(
    app: Application,
    cursor: Vector2<Fixed>,
    drag: Vector2<Fixed>,
    secondary_pos: Option<Vector2<Fixed>>,
    rect: Rect,
)
    requires
        app.wf(),
    ensures
        app.camera_after(still_frame(cursor, None, secondary_pos), rect) == app.camera,
        app.camera_after(still_frame(cursor, Some(drag), secondary_pos), rect)
            == app.camera.panned(drag, rect),
{
    lemma_idle_wheel();
    lemma_idle_zoom(app.camera, cursor, rect);
}

/// Two frames with a drag each move the camera as one frame with a drag by
/// their sum does, up to the rounding of each drag: per coordinate the
/// single frame lands on the same step or on the next one, and the zoom
/// stays. This is stated of drags that the camera can carry out: one that
/// would take the position beyond the range of the numbers is not carried
/// out at all.
pub proof fn lemma_frames_pan_as_one(
    app: Application,
    later: Application,
    first_cursor: Vector2<Fixed>,
    second_cursor: Vector2<Fixed>,
    first: Vector2<Fixed>,
    second: Vector2<Fixed>,
    both: Vector2<Fixed>,
    rect: Rect,
)
    requires
        app.wf(),
        later.camera == app.camera_after(still_frame(first_cursor, Some(first), None), rect),
        both.x@ == first.x@ + second.x@,
        both.y@ == first.y@ + second.y@,
        app.camera.pan_applies(first, rect),
        app.camera.panned(first, rect).pan_applies(second, rect),
        app.camera.pan_applies(both, rect),
    ensures
        ({
            let two = later.camera_after(still_frame(second_cursor, Some(second), None), rect);
            let one = app.camera_after(still_frame(first_cursor, Some(both), None), rect);
            &&& one.zoom == app.camera.zoom
            &&& two.zoom == app.camera.zoom
            &&& one.pos.x@ == app.camera.pos.x@ + span(both.x@, app.camera.zoom@, rect.scale())
            &&& one.pos.y@ == app.camera.pos.y@ + span(both.y@, app.camera.zoom@, rect.scale())
            &&& 0 <= one.pos.x@ - two.pos.x@ <= 1
            &&& 0 <= one.pos.y@ - two.pos.y@ <= 1
        }),
{
    lemma_still_frame(app, first_cursor, first, None, rect);
    lemma_still_frame(app, first_cursor, both, None, rect);
    lemma_still_frame(later, second_cursor, second, None, rect);
    lemma_pan_composes(app.camera, first, second, both, rect);
}

/// The Julia seed that a click of the secondary button sets, taken back to
/// the screen, comes back within a bound of the click: per coordinate it is
/// never past the click, and short of it by at most one step more than half
/// the viewport's shorter side divided by the zoom. This is stated of a
/// click that has a point of the plane in range.
pub proof fn lemma_seed_comes_back_to_the_click(
    app: Application,
    cursor: Vector2<Fixed>,
    click: Vector2<Fixed>,
    rect: Rect,
)
    requires
        app.wf(),
        app.camera.maps(rect, click),
    ensures
        ({
            let seed = app.seed_after(still_frame(cursor, None, Some(click)), rect);
            let slack = rect.scale() / (2 * app.camera.zoom@) + 1;
            &&& seed.x@ == app.camera.world_x(rect, click.x@)
            &&& seed.y@ == app.camera.world_y(rect, click.y@)
            &&& 0 <= click.x@ - app.camera.screen_x(rect, seed.x@) <= slack
            &&& 0 <= click.y@ - app.camera.screen_y(rect, seed.y@) <= slack
        }),
{
    lemma_still_frame(app, cursor, click, Some(click), rect);
    lemma_screen_round_trip(app.camera, rect, click);
}

} // verus!
