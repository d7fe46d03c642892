//! From what became of an orbit to the colour of its sample.
//!
//! A sample whose orbit stayed inside the escape radius has the interior
//! colour. One whose orbit left has the colour of the palette at the shaded
//! escape step times the palette's speed. Where the smooth shading is asked
//! for and the smooth escape step is not stated, the sample has the interior
//! colour too.

use crate::fixed::Fixed;
use crate::fixed::held_product;
use crate::fractal::Escape;
use crate::fractal::ShadingSettings;
use crate::fractal::parts;
use crate::palette::PaletteSettings;
use crate::palette::interior_color;
use crate::smooth::shaded;
use vstd::prelude::*;

verus! {

/// The colour of a sample, as the step counts of red, green and blue.
pub open spec fn color_of(
    escape: Escape,
    exponent: int,
    shading: ShadingSettings,
    palette: PaletteSettings,
) -> (int, int, int) {
    match escape {
        Escape::Interior => (0, 0, 0),
        Escape::Exterior { steps, last } => match shaded(
            shading.mode,
            steps as nat,
            parts(last),
            exponent,
        ) {
            Some(step) => palette.scheme.color_at(held_product(step, palette.speed@)),
            None => (0, 0, 0),
        },
    }
}

/// The colour of a sample whose orbit, under the exponent `exponent`, came
/// to `escape`.
pub fn colorize(escape: Escape, exponent: Fixed, shading: &ShadingSettings, palette: &PaletteSettings)
    -> (r: [Fixed; 3])
    ensures
        (r[0]@, r[1]@, r[2]@) == color_of(escape, exponent@, *shading, *palette),
{
    match escape {
        Escape::Interior => interior_color(),
        Escape::Exterior { steps, last } => match shading.shade(steps, last, exponent) {
            Some(step) => palette.color_of_step(step),
            None => interior_color(),
        },
    }
}

} // verus!
