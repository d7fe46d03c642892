//! The core of a viewer for escape-time fractals: the camera that pointer
//! gestures move through the plane, the escape-time evaluation of a sample,
//! the cosine palette, and the parameter block that tells the evaluator on
//! the graphics device what to draw.
//!
//! All numbers with a fraction are binary fixed-point numbers
//! ([`fixed::Fixed`]), so that every result is exact or rounded in a stated
//! way, and every statement about it can be proved. The parameter block
//! carries them to the device as single-precision bit patterns
//! ([`single`]).
//!
//! What the evaluation needs beyond sums and products is computed in fixed
//! point as well: the cosine of the palette ([`cosine`]), the logarithm of
//! the smooth shading ([`logarithm`]), and the angle and the power of two
//! that give a complex number any power ([`angle`], [`exponential`],
//! [`polar`]).

pub mod angle;
pub mod application;
pub mod application_laws;
pub mod camera;
pub mod camera_laws;
pub mod coloring;
pub mod cosine;
pub mod exponential;
pub mod fixed;
pub mod fractal;
pub mod fractal_laws;
pub mod logarithm;
pub mod palette;
pub mod perturbation;
pub mod polar;
pub mod shader;
pub mod single;
pub mod smooth;
pub mod vector2;
