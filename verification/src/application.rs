//! The state of the viewer and what one frame does with it: the pointer's
//! gestures move the camera and set the Julia seed, the state is put
//! together into the parameter block, and every sample of the screen has its
//! colour.

use crate::camera::CameraInfo;
use crate::camera::DEFAULT_ZOOM_RAW;
use crate::camera::Rect;
use crate::camera::wheel_factor;
use crate::coloring::color_of;
use crate::coloring::colorize;
use crate::fixed::Fixed;
use crate::fixed::ONE_RAW;
use crate::fractal::Escape;
use crate::fractal::FractalSettings;
use crate::fractal::FractalType;
use crate::fractal::ShadingSettings;
use crate::fractal::ShadingType;
use crate::fractal::orbit;
use crate::fractal::orbit_points;
use crate::fractal::parts;
use crate::fractal::whole_power;
use crate::fractal_laws::lemma_first_outside_is_unique;
use crate::palette::ColorScheme;
use crate::palette::PaletteSettings;
use crate::palette::interior_color;
use crate::perturbation::all_parts;
use crate::perturbation::first_perturbed_escape;
use crate::perturbation::first_rebased_escape;
use crate::perturbation::perturbed_escape_time;
use crate::perturbation::perturbed_points;
use crate::perturbation::rebased_escape_time;
use crate::perturbation::rebased_points;
use crate::perturbation::reference_orbit;
use crate::polar::polar_points;
use crate::polar::polar_reach;
use crate::shader::RenderCallback;
use crate::shader::assemble;
use crate::shader::assembled;
use crate::vector2::Vector2;
use vstd::prelude::*;

verus! {

/// How many points of an orbit a fresh viewer looks at.
pub const DEFAULT_MAX_ITERATIONS: i32 = 1024;

/// The step count of the palette speed of a fresh viewer: 0.05.
pub const DEFAULT_PALETTE_SPEED_RAW: i64 = 214_748_365;

/// All that the viewer keeps from frame to frame.
#[derive(Debug, Copy, Clone)]
pub struct Application {
    pub camera: CameraInfo,
    pub fractal: FractalSettings,
    pub shading: ShadingSettings,
    pub palette: PaletteSettings,
}

/// What the pointer did during one frame.
#[derive(Debug, Copy, Clone)]
pub struct PointerInput {
    /// Where the pointer is on the screen.
    pub cursor: Vector2<Fixed>,
    /// How far the wheel turned; nothing where it did not.
    pub scroll_delta: Fixed,
    /// The factor of a pinch gesture; one where there was none.
    pub pinch_factor: Fixed,
    /// How far the pointer was dragged with the primary button held, if it
    /// was.
    pub primary_drag: Option<Vector2<Fixed>>,
    /// Where the secondary button was clicked or dragged, if it was.
    pub secondary_pos: Option<Vector2<Fixed>>,
}

impl Application {
    /// The state of a fresh viewer: the camera at its default, the classic
    /// square of the Mandelbrot formula over 1024 steps, smooth shading, and
    /// the Midnight Amber palette at the speed 0.05.
    pub fn new() -> (app: Application)
        ensures
            app.wf(),
            app.camera.pos.x@ == 0,
            app.camera.pos.y@ == 0,
            app.camera.zoom@ == DEFAULT_ZOOM_RAW,
            app.fractal.variant == FractalType::Mandelbrot,
            app.fractal.exponent@ == 2 * ONE_RAW,
            !app.fractal.julia_enabled,
            app.fractal.julia_seed.x@ == 0,
            app.fractal.julia_seed.y@ == 0,
            !app.fractal.perturbation_enabled,
            app.fractal.max_iterations == DEFAULT_MAX_ITERATIONS,
            app.shading.mode == ShadingType::Smooth,
            app.palette.scheme.has(
                (0x8000_0000, 0x8000_0000, 0x8000_0000),
                (0x8000_0000, 0x8000_0000, 0x8000_0000),
                (ONE_RAW as int, 3_006_477_107, 1_717_986_918),
                (0, 644_245_094, 858_993_459),
            ),
            app.palette.speed@ == DEFAULT_PALETTE_SPEED_RAW,
    {
        Application {
            camera: CameraInfo::default(),
            fractal: FractalSettings {
                variant: FractalType::Mandelbrot,
                exponent: Fixed::from_raw(2 * ONE_RAW),
                julia_enabled: false,
                julia_seed: Vector2::new(Fixed::zero(), Fixed::zero()),
                perturbation_enabled: false,
                max_iterations: DEFAULT_MAX_ITERATIONS,
            },
            shading: ShadingSettings { mode: ShadingType::Smooth },
            palette: PaletteSettings {
                scheme: ColorScheme::midnight_amber(),
                speed: Fixed::from_raw(DEFAULT_PALETTE_SPEED_RAW),
            },
        }
    }

    /// The state is well formed when its camera is.
    pub open spec fn wf(self) -> bool {
        self.camera.wf()
    }

    /// The camera after the gestures of one frame: first the zoom, then the
    /// drag, if there was one.
    pub open spec fn camera_after(self, input: PointerInput, rect: Rect) -> CameraInfo {
        let zoomed = self.camera.zoomed(
            input.cursor,
            Fixed { raw: wheel_factor(input.scroll_delta@) as i64 },
            input.pinch_factor,
            rect,
        );
        match input.primary_drag {
            Some(drag) => zoomed.panned(drag, rect),
            None => zoomed,
        }
    }

    /// The Julia seed after the gestures of one frame: the point of the plane
    /// under the secondary button, as the moved camera shows it; the old seed
    /// where the button was not used or the point is out of range.
    pub open spec fn seed_after(self, input: PointerInput, rect: Rect) -> Vector2<Fixed> {
        let camera = self.camera_after(input, rect);
        match input.secondary_pos {
            Some(at) => if camera.maps(rect, at) {
                Vector2 {
                    x: Fixed { raw: camera.world_x(rect, at.x@) as i64 },
                    y: Fixed { raw: camera.world_y(rect, at.y@) as i64 },
                }
            } else {
                self.fractal.julia_seed
            },
            None => self.fractal.julia_seed,
        }
    }

    /// Carries out the pointer's gestures of one frame. Nothing but the
    /// camera and the Julia seed changes.
    pub fn inputs(&mut self, input: &PointerInput, rect: &Rect)
        requires
            old(self).wf(),
        ensures
            final(self).wf(),
            final(self).camera == old(self).camera_after(*input, *rect),
            final(self).fractal.julia_seed == old(self).seed_after(*input, *rect),
            final(self).fractal.variant == old(self).fractal.variant,
            final(self).fractal.exponent == old(self).fractal.exponent,
            final(self).fractal.julia_enabled == old(self).fractal.julia_enabled,
            final(self).fractal.perturbation_enabled == old(self).fractal.perturbation_enabled,
            final(self).fractal.max_iterations == old(self).fractal.max_iterations,
            final(self).shading == old(self).shading,
            final(self).palette == old(self).palette,
    {
        let mut camera = self.camera;
        camera.apply_zoom(input.cursor, input.scroll_delta, input.pinch_factor, rect);
        match input.primary_drag {
            Some(drag) => {
                camera.apply_pan(drag, rect);
            },
            None => {},
        }
        self.camera = camera;
        match input.secondary_pos {
            Some(at) => {
                self.set_julia_seed(at, rect);
            },
            None => {},
        }
    }

    /// Makes the point of the plane under a screen point the Julia seed.
    /// Where the screen point has no point of the plane, the seed stays.
    pub fn set_julia_seed(&mut self, at: Vector2<Fixed>, rect: &Rect)
        requires
            old(self).wf(),
        ensures
            final(self).camera == old(self).camera,
            final(self).shading == old(self).shading,
            final(self).palette == old(self).palette,
            final(self).fractal.variant == old(self).fractal.variant,
            final(self).fractal.exponent == old(self).fractal.exponent,
            final(self).fractal.julia_enabled == old(self).fractal.julia_enabled,
            final(self).fractal.perturbation_enabled == old(self).fractal.perturbation_enabled,
            final(self).fractal.max_iterations == old(self).fractal.max_iterations,
            final(self).fractal.julia_seed == (if old(self).camera.maps(*rect, at) {
                Vector2 {
                    x: Fixed { raw: old(self).camera.world_x(*rect, at.x@) as i64 },
                    y: Fixed { raw: old(self).camera.world_y(*rect, at.y@) as i64 },
                }
            } else {
                old(self).fractal.julia_seed
            }),
    {
        match self.camera.screen_to_world(at, rect) {
            Some(seed) => {
                self.fractal.julia_seed = seed;
            },
            None => {},
        }
    }

    /// Whether samples are followed as distances from a reference orbit:
    /// perturbation is switched on, and the iteration is the classic square
    /// of the Mandelbrot formula from the origin, the one iteration for which
    /// the distance is written out.
    pub open spec fn perturbs(self) -> bool {
        &&& self.fractal.perturbation_enabled
        &&& !self.fractal.julia_enabled
        &&& self.fractal.variant == FractalType::Mandelbrot
        &&& whole_power(self.fractal.exponent@) == Some(2nat)
    }

    /// The reference orbit of a frame: the orbit of the camera's position,
    /// as long as the limit of steps.
    pub fn reference(&self) -> (points: Vec<Vector2<Fixed>>)
        ensures
            points@.len() == self.fractal.limit(),
            forall|i: int|
                0 <= i < points@.len() ==> parts(#[trigger] points@[i]) == orbit(
                    FractalType::Mandelbrot,
                    2,
                    (0, 0),
                    parts(self.camera.pos),
                    i as nat,
                ),
    {
        let length: u32 = if self.fractal.max_iterations > 0 {
            self.fractal.max_iterations as u32
        } else {
            0
        };
        reference_orbit(self.camera.pos, length)
    }

    /// Whether the sample at a screen point is evaluated: the screen point
    /// has a point of the plane in range.
    pub open spec fn sees(self, rect: Rect, screen: Vector2<Fixed>) -> bool {
        if self.perturbs() {
            self.camera.has_offset(rect, screen)
        } else {
            self.camera.maps(rect, screen)
        }
    }

    /// Whether `e` is what became of the orbit of the sample at a screen
    /// point: followed along `reference` as its distance from the camera's
    /// position where the state [`perturbs`](Self::perturbs), else followed
    /// by itself. Along a reference of two points or more the distance is
    /// taken anew where it has to be; a shorter one is followed as far as it
    /// goes.
    pub open spec fn samples(
        self,
        rect: Rect,
        screen: Vector2<Fixed>,
        reference: Seq<Vector2<Fixed>>,
        e: Escape,
    ) -> bool {
        let offset = (
            self.camera.offset_x(rect, screen.x@),
            self.camera.offset_y(rect, screen.y@),
        );
        if self.perturbs() {
            if reference.len() >= 2 {
                first_rebased_escape(all_parts(reference), offset, self.fractal.limit(), e)
            } else {
                first_perturbed_escape(all_parts(reference), offset, e)
            }
        } else {
            self.fractal.evaluated(
                (self.camera.world_x(rect, screen.x@), self.camera.world_y(rect, screen.y@)),
                e,
            )
        }
    }

    /// The escape-time evaluation of the sample at a screen point, where the
    /// state [`sees`](Self::sees) it.
    pub fn sample(&self, screen: Vector2<Fixed>, rect: &Rect, reference: &Vec<Vector2<Fixed>>) -> (r:
        Option<Escape>)
        requires
            self.wf(),
            reference@.len() <= u32::MAX,
        ensures
            r.is_some() == self.sees(*rect, screen),
            r matches Some(e) ==> self.samples(*rect, screen, reference@, e),
    {
        let perturbs = self.fractal.perturbation_enabled && !self.fractal.julia_enabled && (
        match self.fractal.variant {
            FractalType::Mandelbrot => true,
            _ => false,
        }) && (match self.fractal.power() {
            Some(power) => power == 2,
            None => false,
        });
        if perturbs {
            let limit: u32 = if self.fractal.max_iterations > 0 {
                self.fractal.max_iterations as u32
            } else {
                0
            };
            match self.camera.screen_to_offset(screen, rect) {
                Some(dc) => if reference.len() >= 2 {
                    Some(rebased_escape_time(reference, dc, limit))
                } else {
                    Some(perturbed_escape_time(reference, dc))
                },
                None => None,
            }
        } else {
            match self.camera.screen_to_world(screen, rect) {
                Some(c0) => Some(self.fractal.evaluate(c0)),
                None => None,
            }
        }
    }

    /// The colour of the sample at a screen point, where the state
    /// [`sees`](Self::sees) it: the colour of what became of its orbit.
    pub fn pixel(&self, screen: Vector2<Fixed>, rect: &Rect, reference: &Vec<Vector2<Fixed>>) -> (r:
        Option<[Fixed; 3]>)
        requires
            self.wf(),
            reference@.len() <= u32::MAX,
        ensures
            r.is_some() == self.sees(*rect, screen),
            r matches Some(c) ==> exists|e: Escape|
                self.samples(*rect, screen, reference@, e) && (c[0]@, c[1]@, c[2]@) == color_of(
                    e,
                    self.fractal.exponent@,
                    self.shading,
                    self.palette,
                ),
    {
        let e = match self.sample(screen, rect, reference) {
            Some(e) => e,
            None => { return None; },
        };
        let c = colorize(e, self.fractal.exponent, &self.shading, &self.palette);
        proof {
            assert(self.samples(*rect, screen, reference@, e) && (c[0]@, c[1]@, c[2]@) == color_of(
                e,
                self.fractal.exponent@,
                self.shading,
                self.palette,
            ));
        }
        Some(c)
    }

    /// The colour of the sample at a screen point, for every screen point:
    /// the colour of what became of its orbit, and the interior colour
    /// where the state does not [`see`](Self::sees) the sample.
    pub fn pixel_color(&self, screen: Vector2<Fixed>, rect: &Rect, reference: &Vec<Vector2<Fixed>>)
        -> (c: [Fixed; 3])
        requires
            self.wf(),
            reference@.len() <= u32::MAX,
        ensures
            !self.sees(*rect, screen) ==> (c[0]@, c[1]@, c[2]@) == (0int, 0int, 0int),
            self.sees(*rect, screen) ==> exists|e: Escape|
                self.samples(*rect, screen, reference@, e) && (c[0]@, c[1]@, c[2]@) == color_of(
                    e,
                    self.fractal.exponent@,
                    self.shading,
                    self.palette,
                ),
    {
        match self.pixel(screen, rect, reference) {
            Some(c) => c,
            None => interior_color(),
        }
    }

    /// The parameter block of one frame: the state, with the size of the
    /// viewport as the resolution and its first corner as the offset.
    pub fn custom_painting(&self, rect: &Rect) -> (block: RenderCallback)
        ensures
            assembled(
                block,
                self.camera,
                self.fractal,
                self.shading,
                self.palette,
                Vector2 {
                    x: Fixed { raw: crate::fixed::clamp(rect.width()) as i64 },
                    y: Fixed { raw: crate::fixed::clamp(rect.height()) as i64 },
                },
                rect.min,
            ),
    {
        assemble(&self.camera, &self.fractal, &self.shading, &self.palette, rect.size(), rect.min)
    }
}

/// The sample at a screen point comes to one thing: two outcomes that both
/// fit are the same, and so the sample has one colour.
pub proof fn lemma_sample_is_unique(
    app: Application,
    rect: Rect,
    screen: Vector2<Fixed>,
    reference: Seq<Vector2<Fixed>>,
    one: Escape,
    other: Escape,
)
    requires
        app.samples(rect, screen, reference, one),
        app.samples(rect, screen, reference, other),
    ensures
        one == other,
{
    let world = (app.camera.world_x(rect, screen.x@), app.camera.world_y(rect, screen.y@));
    let offset = (app.camera.offset_x(rect, screen.x@), app.camera.offset_y(rect, screen.y@));
    let start = app.fractal.start_of(world);
    let c = app.fractal.constant_of(world);
    let limit = app.fractal.limit();
    if app.perturbs() {
        if reference.len() >= 2 {
            lemma_first_outside_is_unique(
                rebased_points(all_parts(reference), offset),
                limit,
                one,
                other,
            );
        } else {
            lemma_first_outside_is_unique(
                perturbed_points(all_parts(reference), offset),
                all_parts(reference).len(),
                one,
                other,
            );
        }
    } else {
        match whole_power(app.fractal.exponent@) {
            Some(k) => lemma_first_outside_is_unique(
                orbit_points(app.fractal.variant, k, start, c),
                limit,
                one,
                other,
            ),
            None => lemma_first_outside_is_unique(
                polar_points(app.fractal.variant, app.fractal.exponent@, start, c),
                polar_reach(app.fractal.variant, app.fractal.exponent@, start, c, limit),
                one,
                other,
            ),
        }
    }
}

} // verus!
