//! The camera: where the view sits in the plane, how far it is zoomed, and
//! how pointer gestures on the screen move it.
//!
//! A point of the screen lies at some offset from the centre of the viewport.
//! That offset, doubled, divided by the shorter side of the viewport and
//! multiplied by the zoom, is its distance from the camera's position in the
//! plane. The whole factor is applied in one step and rounded down once.
//!
//! A gesture that cannot be carried out (the viewport has no area, or a
//! coordinate would leave the range of the numbers) leaves the camera as it
//! was.

use crate::exponential::binary_exponential;
use crate::exponential::binary_power;
use crate::fixed::Fixed;
use crate::fixed::ONE_RAW;
use crate::fixed::clamp;
use crate::fixed::fits;
use crate::fixed::floor_div;
use crate::fixed::held_product;
use crate::fixed::hold;
use crate::fixed::lemma_product_bounds;
use crate::fixed::narrow;
use crate::fixed::product;
use crate::single::single_head;
use crate::vector2::Vector2;
use vstd::prelude::*;

verus! {

/// The step count of the zoom a fresh camera has: 2.1, which frames the whole
/// of the classic set.
pub const DEFAULT_ZOOM_RAW: i64 = 9_019_431_322;

/// The step count of the binary logarithm of 1.01, the factor of one unit
/// of the wheel.
pub const WHEEL_LOG_RAW: i64 = 61_655_514;

/// The factor by which a turn of the wheel multiplies the zoom: 1.01 to the
/// power of minus the turn, as two to the power of minus the turn times the
/// binary logarithm of 1.01.
pub open spec fn wheel_factor(scroll_delta: int) -> int {
    binary_power(held_product(clamp(-scroll_delta), WHEEL_LOG_RAW as int))
}

/// The factor by which a turn of the wheel multiplies the zoom.
pub fn scroll_factor(scroll_delta: Fixed) -> (f: Fixed)
    ensures
        f@ == wheel_factor(scroll_delta@),
        f@ >= 0,
{
    let back = hold(-(scroll_delta.raw as i128));
    binary_exponential(Fixed::saturating_mul(back, Fixed { raw: WHEEL_LOG_RAW }))
}

/// The part of the screen that shows the plane, by two opposite corners.
#[derive(Debug, Copy, Clone)]
pub struct Rect {
    pub min: Vector2<Fixed>,
    pub max: Vector2<Fixed>,
}

/// The camera: `pos` is the point of the plane at the centre of the viewport,
/// `zoom` is what half of the viewport's shorter side spans in the plane. A
/// smaller zoom magnifies more.
#[derive(Debug, Copy, Clone)]
pub struct CameraInfo {
    pub pos: Vector2<Fixed>,
    pub zoom: Fixed,
}

/// What a screen offset of `d` spans in the plane at the given zoom, in a
/// viewport whose shorter side is `scale`; rounded down.
pub open spec fn span(d: int, zoom: int, scale: int) -> int {
    (2 * d * zoom) / scale
}

/// What an offset of `w` in the plane spans on the screen: the inverse of
/// [`span`], rounded down.
pub open spec fn span_back(w: int, zoom: int, scale: int) -> int {
    (w * scale) / (2 * zoom)
}

/// The zoom after one factor has been applied, or `None` where the product
/// is not a positive number in range.
pub open spec fn zoom_step(zoom: int, factor: int) -> Option<int> {
    let next = product(zoom, factor);
    if 0 < next && fits(next) {
        Some(next)
    } else {
        None
    }
}

/// The zoom after a scroll factor and a pinch factor. A pinch factor of one
/// is no factor.
pub open spec fn zoom_after(zoom: int, scroll: int, pinch: int) -> Option<int> {
    match zoom_step(zoom, scroll) {
        Some(scrolled) => if pinch != ONE_RAW {
            zoom_step(scrolled, pinch)
        } else {
            Some(scrolled)
        },
        None => None,
    }
}

impl Rect {
    /// The rectangle between two corners.
    pub fn new(min: Vector2<Fixed>, max: Vector2<Fixed>) -> (r: Rect)
        ensures
            r.min == min,
            r.max == max,
    {
        Rect { min, max }
    }

    pub open spec fn width(self) -> int {
        self.max.x@ - self.min.x@
    }

    pub open spec fn height(self) -> int {
        self.max.y@ - self.min.y@
    }

    /// The shorter side.
    pub open spec fn scale(self) -> int {
        if self.width() <= self.height() {
            self.width()
        } else {
            self.height()
        }
    }

    pub open spec fn center_x(self) -> int {
        (self.min.x@ + self.max.x@) / 2
    }

    pub open spec fn center_y(self) -> int {
        (self.min.y@ + self.max.y@) / 2
    }

    /// Whether the rectangle can serve as a viewport: it has an area, and its
    /// shorter side is a number in range.
    pub open spec fn usable(self) -> bool {
        0 < self.scale() && fits(self.scale())
    }

    /// The middle of the rectangle, each coordinate rounded down.
    pub fn center(&self) -> (c: Vector2<Fixed>)
        ensures
            c.x@ == self.center_x(),
            c.y@ == self.center_y(),
    {
        let sx: i128 = self.min.x.raw as i128 + self.max.x.raw as i128;
        let sy: i128 = self.min.y.raw as i128 + self.max.y.raw as i128;
        let cx: i128 = floor_div(sx, 2);
        let cy: i128 = floor_div(sy, 2);
        Vector2::new(Fixed { raw: cx as i64 }, Fixed { raw: cy as i64 })
    }

    /// Width and height, each held at the ends of the range.
    pub fn size(&self) -> (s: Vector2<Fixed>)
        ensures
            s.x@ == clamp(self.width()),
            s.y@ == clamp(self.height()),
    {
        Vector2::new(
            hold(self.max.x.raw as i128 - self.min.x.raw as i128),
            hold(self.max.y.raw as i128 - self.min.y.raw as i128),
        )
    }

    /// The shorter side, where the rectangle is usable.
    pub fn viewport_scale(&self) -> (s: Option<Fixed>)
        ensures
            s == (if self.usable() {
                Some(Fixed { raw: self.scale() as i64 })
            } else {
                None
            }),
    {
        let w: i128 = self.max.x.raw as i128 - self.min.x.raw as i128;
        let h: i128 = self.max.y.raw as i128 - self.min.y.raw as i128;
        let shorter: i128 = if w <= h {
            w
        } else {
            h
        };
        if shorter <= 0 {
            None
        } else {
            narrow(shorter)
        }
    }
}

/// `base + span(d, zoom, scale)`, where that is a number in range.
fn shifted(base: Fixed, d: Fixed, zoom: Fixed, scale: Fixed) -> (r: Option<Fixed>)
    requires
        zoom@ > 0,
        scale@ > 0,
    ensures
        r == (if fits(base@ + span(d@, zoom@, scale@)) {
            Some(Fixed { raw: (base@ + span(d@, zoom@, scale@)) as i64 })
        } else {
            None
        }),
{
    proof {
        lemma_product_bounds(2 * d@, zoom@, 0x1_0000_0000_0000_0000, 0x7fff_ffff_ffff_ffff);
    }
    let wide: i128 = (2 * (d.raw as i128)) * (zoom.raw as i128);
    let part: i128 = floor_div(wide, scale.raw as i128);
    if part < -0x2_0000_0000_0000_0000 || part > 0x2_0000_0000_0000_0000 {
        None
    } else {
        narrow(base.raw as i128 + part)
    }
}

/// `base + span_back(w, zoom, scale)`, where that is a number in range.
fn shifted_back(base: Fixed, w: Fixed, zoom: Fixed, scale: Fixed) -> (r: Option<Fixed>)
    requires
        zoom@ > 0,
        scale@ > 0,
    ensures
        r == (if fits(base@ + span_back(w@, zoom@, scale@)) {
            Some(Fixed { raw: (base@ + span_back(w@, zoom@, scale@)) as i64 })
        } else {
            None
        }),
{
    proof {
        lemma_product_bounds(w@, scale@, 0x8000_0000_0000_0000, 0x8000_0000_0000_0000);
    }
    let wide: i128 = (w.raw as i128) * (scale.raw as i128);
    let part: i128 = floor_div(wide, 2 * (zoom.raw as i128));
    if part < -0x2_0000_0000_0000_0000 || part > 0x2_0000_0000_0000_0000 {
        None
    } else {
        narrow(base.raw as i128 + part)
    }
}

impl CameraInfo {
    /// A camera is well formed when its zoom is positive.
    pub open spec fn wf(self) -> bool {
        self.zoom@ > 0
    }

    /// The x coordinate in the plane of the screen coordinate `sx`.
    pub open spec fn world_x(self, rect: Rect, sx: int) -> int {
        self.pos.x@ + span(sx - rect.center_x(), self.zoom@, rect.scale())
    }

    /// The y coordinate in the plane of the screen coordinate `sy`.
    pub open spec fn world_y(self, rect: Rect, sy: int) -> int {
        self.pos.y@ + span(sy - rect.center_y(), self.zoom@, rect.scale())
    }

    /// Whether a screen point has a point of the plane: the viewport is
    /// usable, and the offset from its centre and the result are in range.
    pub open spec fn maps(self, rect: Rect, screen: Vector2<Fixed>) -> bool {
        &&& rect.usable()
        &&& fits(screen.x@ - rect.center_x())
        &&& fits(screen.y@ - rect.center_y())
        &&& fits(self.world_x(rect, screen.x@))
        &&& fits(self.world_y(rect, screen.y@))
    }

    /// The screen x coordinate of the plane coordinate `wx`.
    pub open spec fn screen_x(self, rect: Rect, wx: int) -> int {
        rect.center_x() + span_back(wx - self.pos.x@, self.zoom@, rect.scale())
    }

    /// The screen y coordinate of the plane coordinate `wy`.
    pub open spec fn screen_y(self, rect: Rect, wy: int) -> int {
        rect.center_y() + span_back(wy - self.pos.y@, self.zoom@, rect.scale())
    }

    /// Whether a point of the plane has a screen point.
    pub open spec fn maps_back(self, rect: Rect, world: Vector2<Fixed>) -> bool {
        &&& rect.usable()
        &&& fits(world.x@ - self.pos.x@)
        &&& fits(world.y@ - self.pos.y@)
        &&& fits(self.screen_x(rect, world.x@))
        &&& fits(self.screen_y(rect, world.y@))
    }

    /// How far in x the point under the screen coordinate `sx` lies from the
    /// camera's position.
    pub open spec fn offset_x(self, rect: Rect, sx: int) -> int {
        span(sx - rect.center_x(), self.zoom@, rect.scale())
    }

    /// How far in y the point under the screen coordinate `sy` lies from the
    /// camera's position.
    pub open spec fn offset_y(self, rect: Rect, sy: int) -> int {
        span(sy - rect.center_y(), self.zoom@, rect.scale())
    }

    /// Whether the distance of a screen point's point of the plane from the
    /// camera's position is in range.
    pub open spec fn has_offset(self, rect: Rect, screen: Vector2<Fixed>) -> bool {
        &&& rect.usable()
        &&& fits(screen.x@ - rect.center_x())
        &&& fits(screen.y@ - rect.center_y())
        &&& fits(self.offset_x(rect, screen.x@))
        &&& fits(self.offset_y(rect, screen.y@))
    }

    /// How far the point of the plane under a screen point lies from the
    /// camera's position. The point itself is the position plus this.
    pub fn screen_to_offset(&self, screen: Vector2<Fixed>, rect: &Rect) -> (w: Option<
        Vector2<Fixed>,
    >)
        requires
            self.wf(),
        ensures
            w.is_some() == self.has_offset(*rect, screen),
            w matches Some(p) ==> {
                &&& p.x@ == self.offset_x(*rect, screen.x@)
                &&& p.y@ == self.offset_y(*rect, screen.y@)
                &&& self.world_x(*rect, screen.x@) == self.pos.x@ + p.x@
                &&& self.world_y(*rect, screen.y@) == self.pos.y@ + p.y@
            },
    {
        let scale = match rect.viewport_scale() {
            Some(s) => s,
            None => { return None; },
        };
        let center = rect.center();
        let dx = match screen.x.checked_sub(center.x) {
            Some(d) => d,
            None => { return None; },
        };
        let dy = match screen.y.checked_sub(center.y) {
            Some(d) => d,
            None => { return None; },
        };
        let zero = Fixed { raw: 0 };
        let wx = match shifted(zero, dx, self.zoom, scale) {
            Some(v) => v,
            None => { return None; },
        };
        let wy = match shifted(zero, dy, self.zoom, scale) {
            Some(v) => v,
            None => { return None; },
        };
        Some(Vector2::new(wx, wy))
    }

    /// The point of the plane under a screen point.
    pub fn screen_to_world(&self, screen: Vector2<Fixed>, rect: &Rect) -> (w: Option<
        Vector2<Fixed>,
    >)
        requires
            self.wf(),
        ensures
            w.is_some() == self.maps(*rect, screen),
            w matches Some(p) ==> p.x@ == self.world_x(*rect, screen.x@) && p.y@ == self.world_y(
                *rect,
                screen.y@,
            ),
    {
        let scale = match rect.viewport_scale() {
            Some(s) => s,
            None => { return None; },
        };
        let center = rect.center();
        let dx = match screen.x.checked_sub(center.x) {
            Some(d) => d,
            None => { return None; },
        };
        let dy = match screen.y.checked_sub(center.y) {
            Some(d) => d,
            None => { return None; },
        };
        let wx = match shifted(self.pos.x, dx, self.zoom, scale) {
            Some(v) => v,
            None => { return None; },
        };
        let wy = match shifted(self.pos.y, dy, self.zoom, scale) {
            Some(v) => v,
            None => { return None; },
        };
        Some(Vector2::new(wx, wy))
    }

    /// The screen point that shows a point of the plane.
    pub fn world_to_screen(&self, world: Vector2<Fixed>, rect: &Rect) -> (s: Option<
        Vector2<Fixed>,
    >)
        requires
            self.wf(),
        ensures
            s.is_some() == self.maps_back(*rect, world),
            s matches Some(p) ==> p.x@ == self.screen_x(*rect, world.x@) && p.y@ == self.screen_y(
                *rect,
                world.y@,
            ),
    {
        let scale = match rect.viewport_scale() {
            Some(s) => s,
            None => { return None; },
        };
        let center = rect.center();
        let dx = match world.x.checked_sub(self.pos.x) {
            Some(d) => d,
            None => { return None; },
        };
        let dy = match world.y.checked_sub(self.pos.y) {
            Some(d) => d,
            None => { return None; },
        };
        let sx = match shifted_back(center.x, dx, self.zoom, scale) {
            Some(v) => v,
            None => { return None; },
        };
        let sy = match shifted_back(center.y, dy, self.zoom, scale) {
            Some(v) => v,
            None => { return None; },
        };
        Some(Vector2::new(sx, sy))
    }

    /// The position in two parts, for an evaluator that works in single
    /// precision and follows its samples as distances from the position: the
    /// part that the parameter block carries, and what the block loses of
    /// the position. The two add up to the position, exactly.
    pub fn split_position(&self) -> (r: (Vector2<Fixed>, Vector2<Fixed>))
        ensures
            r.0.x@ == single_head(self.pos.x@),
            r.0.y@ == single_head(self.pos.y@),
            r.0.x@ + r.1.x@ == self.pos.x@,
            r.0.y@ + r.1.y@ == self.pos.y@,
    {
        let (head_x, rest_x) = self.pos.x.split_single();
        let (head_y, rest_y) = self.pos.y.split_single();
        (Vector2::new(head_x, head_y), Vector2::new(rest_x, rest_y))
    }

    /// The camera with another zoom and the same position.
    pub open spec fn with_zoom(self, zoom: int) -> CameraInfo {
        CameraInfo { pos: self.pos, zoom: Fixed { raw: zoom as i64 } }
    }

    /// Whether a zoom gesture can be carried out: the zoom stays a positive
    /// number in range, the cursor has a point of the plane before and after,
    /// and the moved position is in range.
    pub open spec fn zoom_applies(
        self,
        cursor: Vector2<Fixed>,
        scroll: Fixed,
        pinch: Fixed,
        rect: Rect,
    ) -> bool {
        &&& zoom_after(self.zoom@, scroll@, pinch@) matches Some(next)
        &&& self.maps(rect, cursor)
        &&& self.with_zoom(next).maps(rect, cursor)
        &&& fits(
            self.pos.x@ + (self.with_zoom(next).world_x(rect, cursor.x@) - self.world_x(
                rect,
                cursor.x@,
            )),
        )
        &&& fits(
            self.pos.y@ + (self.with_zoom(next).world_y(rect, cursor.y@) - self.world_y(
                rect,
                cursor.y@,
            )),
        )
    }

    /// The camera after a zoom gesture.
    pub open spec fn zoomed(
        self,
        cursor: Vector2<Fixed>,
        scroll: Fixed,
        pinch: Fixed,
        rect: Rect,
    ) -> CameraInfo {
        if self.zoom_applies(cursor, scroll, pinch, rect) {
            let next = zoom_after(self.zoom@, scroll@, pinch@).unwrap();
            let after = self.with_zoom(next);
            CameraInfo {
                pos: Vector2 {
                    x: Fixed {
                        raw: (self.pos.x@ + (after.world_x(rect, cursor.x@) - self.world_x(
                            rect,
                            cursor.x@,
                        ))) as i64,
                    },
                    y: Fixed {
                        raw: (self.pos.y@ + (after.world_y(rect, cursor.y@) - self.world_y(
                            rect,
                            cursor.y@,
                        ))) as i64,
                    },
                },
                zoom: Fixed { raw: next as i64 },
            }
        } else {
            self
        }
    }

    /// Changes the zoom as the wheel and a pinch gesture ask, with the
    /// cursor where it is: the wheel multiplies the zoom by 1.01 to the
    /// power of minus its turn, the pinch by its factor, and the position
    /// moves as [`zoom_by`](Self::zoom_by) says.
    pub fn apply_zoom(
        &mut self,
        cursor: Vector2<Fixed>,
        scroll_delta: Fixed,
        pinch_factor: Fixed,
        rect: &Rect,
    )
        requires
            old(self).wf(),
        ensures
            final(self).wf(),
            *final(self) == old(self).zoomed(
                cursor,
                Fixed { raw: wheel_factor(scroll_delta@) as i64 },
                pinch_factor,
                *rect,
            ),
    {
        self.zoom_by(cursor, scroll_factor(scroll_delta), pinch_factor, rect)
    }

    /// Changes the zoom and moves the position with it. The zoom is
    /// multiplied by the scroll factor and, where the pinch factor is not
    /// one, by the pinch factor too. The position then moves by the
    /// difference between what the cursor showed after and before the change
    /// of zoom. With the cursor off the centre the point under the cursor
    /// moves too, by twice that difference
    /// ([`lemma_zoom_moves_anchor`](crate::camera_laws::lemma_zoom_moves_anchor)).
    pub fn zoom_by(
        &mut self,
        cursor: Vector2<Fixed>,
        scroll_factor: Fixed,
        pinch_factor: Fixed,
        rect: &Rect,
    )
        requires
            old(self).wf(),
        ensures
            final(self).wf(),
            *final(self) == old(self).zoomed(cursor, scroll_factor, pinch_factor, *rect),
    {
        let scrolled = match self.zoom.checked_mul(scroll_factor) {
            Some(z) => z,
            None => { return ; },
        };
        if scrolled.raw <= 0 {
            return ;
        }
        let mut next = scrolled;
        if pinch_factor.raw != ONE_RAW {
            next =
            match scrolled.checked_mul(pinch_factor) {
                Some(z) => z,
                None => { return ; },
            };
            if next.raw <= 0 {
                return ;
            }
        }
        let before = match self.screen_to_world(cursor, rect) {
            Some(w) => w,
            None => { return ; },
        };
        let zoomed_in = CameraInfo { pos: self.pos, zoom: next };
        let after = match zoomed_in.screen_to_world(cursor, rect) {
            Some(w) => w,
            None => { return ; },
        };
        let x = match narrow(
            self.pos.x.raw as i128 + (after.x.raw as i128 - before.x.raw as i128),
        ) {
            Some(v) => v,
            None => { return ; },
        };
        let y = match narrow(
            self.pos.y.raw as i128 + (after.y.raw as i128 - before.y.raw as i128),
        ) {
            Some(v) => v,
            None => { return ; },
        };
        self.pos = Vector2::new(x, y);
        self.zoom = next;
    }

    /// Whether a drag can be carried out.
    pub open spec fn pan_applies(self, drag: Vector2<Fixed>, rect: Rect) -> bool {
        &&& rect.usable()
        &&& fits(self.pos.x@ + span(drag.x@, self.zoom@, rect.scale()))
        &&& fits(self.pos.y@ + span(drag.y@, self.zoom@, rect.scale()))
    }

    /// The camera after a drag.
    pub open spec fn panned(self, drag: Vector2<Fixed>, rect: Rect) -> CameraInfo {
        if self.pan_applies(drag, rect) {
            CameraInfo {
                pos: Vector2 {
                    x: Fixed { raw: (self.pos.x@ + span(drag.x@, self.zoom@, rect.scale())) as i64 },
                    y: Fixed { raw: (self.pos.y@ + span(drag.y@, self.zoom@, rect.scale())) as i64 },
                },
                zoom: self.zoom,
            }
        } else {
            self
        }
    }

    /// Moves the position by what a drag of the pointer spans in the plane.
    pub fn apply_pan(&mut self, drag_delta: Vector2<Fixed>, rect: &Rect)
        requires
            old(self).wf(),
        ensures
            final(self).wf(),
            *final(self) == old(self).panned(drag_delta, *rect),
    {
        let scale = match rect.viewport_scale() {
            Some(s) => s,
            None => { return ; },
        };
        let x = match shifted(self.pos.x, drag_delta.x, self.zoom, scale) {
            Some(v) => v,
            None => { return ; },
        };
        let y = match shifted(self.pos.y, drag_delta.y, self.zoom, scale) {
            Some(v) => v,
            None => { return ; },
        };
        self.pos = Vector2::new(x, y);
    }

    /// Puts the camera back where a fresh one stands.
    pub fn reset(&mut self)
        ensures
            final(self).wf(),
            final(self).pos.x@ == 0,
            final(self).pos.y@ == 0,
            final(self).zoom@ == DEFAULT_ZOOM_RAW,
    {
        *self = CameraInfo::default();
    }
}

impl Default for CameraInfo {
    /// The camera at the origin with the default zoom.
    fn default() -> (c: CameraInfo)
        ensures
            c.wf(),
            c.pos.x@ == 0,
            c.pos.y@ == 0,
            c.zoom@ == DEFAULT_ZOOM_RAW,
    {
        CameraInfo {
            pos: Vector2::new(Fixed::zero(), Fixed::zero()),
            zoom: Fixed::from_raw(DEFAULT_ZOOM_RAW),
        }
    }
}

} // verus!
