//! Escape-time rendering of the Mandelbrot set.
//!
//! For a rectangular region of the complex plane (the viewport), the engine
//! determines, per pixel, how many iterations of `z -> z^2 + c` are needed
//! before the point diverges past a bailout radius, and encodes that count as
//! an RGBA color.
//!
//! All arithmetic is fixed point: a coordinate is stored as an integer number
//! of units of `1 / scaling_factor`, and every squared or cross term of the
//! iteration is divided by `scaling_factor` before use, rounding toward zero.
//! The same evaluation is offered in two forms with a proven agreement: a
//! raster backend that fills a whole color buffer, and a per-pixel shading
//! function in the shape of a fragment stage.

pub mod color;
pub mod coords;
pub mod escape;
pub mod fixed;
pub mod params;
pub mod render;
