//! The data model of a render: viewport, evaluation parameters, pixel grid,
//! and the configuration errors under which a render is refused.
//!
//! Every coordinate is a fixed-point value: an integer number of units of
//! `1 / scaling_factor`.  The limits on the scaling factor, the bailout
//! radius and the viewport keep every intermediate product of the iteration
//! inside `i128`; a configuration outside them is rejected with a
//! [`ConfigError`] before any iteration begins.

use vstd::prelude::*;

verus! {

/// Largest accepted scaling factor (2^30 units per one).
pub const SCALE_LIMIT: i128 = 1073741824;

/// Largest accepted bailout radius, as a multiple of the scaling factor.
pub const BAILOUT_LIMIT_FACTOR: i128 = 4;

/// Largest magnitude of a viewport coordinate, as a multiple of the scaling
/// factor.  The Mandelbrot set lies within radius 2 of the origin, so a
/// viewport within radius 8 loses nothing.
pub const COORD_LIMIT_FACTOR: i128 = 8;

/// Why a configuration was rejected.
#[derive(Clone, Copy, Debug, PartialEq, Eq, Structural)]
pub enum ConfigError {
    /// A viewport extent is zero or negative.
    NonPositiveViewport,
    /// The scaling factor is zero or negative.
    NonPositiveScalingFactor,
    /// The scaling factor is above [`SCALE_LIMIT`].
    ScalingFactorTooLarge,
    /// The bailout radius is negative or above four times the scaling factor.
    BailoutOutOfRange,
    /// The viewport leaves the square of radius eight times the scaling
    /// factor about the origin.
    ViewportOutOfRange,
}

/// The rectangular region of the complex plane mapped onto the pixel grid,
/// in fixed-point units.
#[derive(Clone, Copy, Debug, PartialEq, Eq, Structural)]
pub struct Viewport {
    pub x_min: i128,
    pub x_size: i128,
    pub y_min: i128,
    pub y_size: i128,
}

impl Viewport {
    /// Both extents are positive.
    pub open spec fn wf(self) -> bool {
        0 < self.x_size && 0 < self.y_size
    }

    /// The viewport lies within the square of radius `8 * s` about the
    /// origin, where `s` is the scaling factor in use.
    pub open spec fn in_range(self, s: int) -> bool {
        &&& -(COORD_LIMIT_FACTOR as int) * s <= self.x_min
        &&& self.x_min + self.x_size <= COORD_LIMIT_FACTOR * s
        &&& -(COORD_LIMIT_FACTOR as int) * s <= self.y_min
        &&& self.y_min + self.y_size <= COORD_LIMIT_FACTOR * s
    }

    /// A viewport with the given bounds; refused unless both extents are
    /// positive.
    pub fn new(x_min: i128, x_size: i128, y_min: i128, y_size: i128) -> (r: Result<
        Viewport,
        ConfigError,
    >)
        ensures
            r is Ok <==> (0 < x_size && 0 < y_size),
            r is Ok ==> r->Ok_0 == (Viewport { x_min, x_size, y_min, y_size }),
            r is Err ==> r->Err_0 == ConfigError::NonPositiveViewport,
    {
        if x_size <= 0 || y_size <= 0 {
            Err(ConfigError::NonPositiveViewport)
        } else {
            Ok(Viewport { x_min, x_size, y_min, y_size })
        }
    }
}

/// The evaluation budget and the fixed-point geometry of the iteration.
#[derive(Clone, Copy, Debug, PartialEq, Eq, Structural)]
pub struct EvaluationParameters {
    /// Most iterations spent on one point; a count of `max_iterations`
    /// means the point never escaped within budget.
    pub max_iterations: u32,
    /// The bailout radius in fixed-point units: a point is divergent once
    /// its squared magnitude exceeds `bailout * bailout`.
    pub bailout: i128,
    /// Fixed-point units per one.
    pub scaling_factor: i128,
}

impl EvaluationParameters {
    /// The scaling factor is positive and within [`SCALE_LIMIT`], and the
    /// bailout radius is within four times the scaling factor.
    pub open spec fn wf(self) -> bool {
        &&& 1 <= self.scaling_factor <= SCALE_LIMIT
        &&& 0 <= self.bailout <= BAILOUT_LIMIT_FACTOR * self.scaling_factor
    }

    /// Parameters with the given fields; refused unless they are within the
    /// fixed-point limits.
    pub fn new(max_iterations: u32, bailout: i128, scaling_factor: i128) -> (r: Result<
        EvaluationParameters,
        ConfigError,
    >)
        ensures
            r is Ok <==> (1 <= scaling_factor <= SCALE_LIMIT && 0 <= bailout
                <= BAILOUT_LIMIT_FACTOR * scaling_factor),
            r is Ok ==> r->Ok_0 == (EvaluationParameters {
                max_iterations,
                bailout,
                scaling_factor,
            }),
            r is Ok ==> r->Ok_0.wf(),
            r is Err ==> r->Err_0 == (if scaling_factor < 1 {
                ConfigError::NonPositiveScalingFactor
            } else if SCALE_LIMIT < scaling_factor {
                ConfigError::ScalingFactorTooLarge
            } else {
                ConfigError::BailoutOutOfRange
            }),
    {
        if scaling_factor < 1 {
            Err(ConfigError::NonPositiveScalingFactor)
        } else if SCALE_LIMIT < scaling_factor {
            Err(ConfigError::ScalingFactorTooLarge)
        } else if bailout < 0 || BAILOUT_LIMIT_FACTOR * scaling_factor < bailout {
            Err(ConfigError::BailoutOutOfRange)
        } else {
            Ok(EvaluationParameters { max_iterations, bailout, scaling_factor })
        }
    }

    /// The common configuration at a given scaling factor: a budget of 400
    /// iterations and a bailout radius of two.
    pub fn standard(scaling_factor: i128) -> (p: EvaluationParameters)
        requires
            1 <= scaling_factor <= SCALE_LIMIT,
        ensures
            p.max_iterations == 400,
            p.bailout == 2 * scaling_factor,
            p.scaling_factor == scaling_factor,
            p.wf(),
    {
        EvaluationParameters { max_iterations: 400, bailout: 2 * scaling_factor, scaling_factor }
    }
}

impl Default for EvaluationParameters {
    /// A budget of 400 iterations, bailout radius two, scaling factor one.
    fn default() -> (p: EvaluationParameters)
        ensures
            p == (EvaluationParameters { max_iterations: 400u32, bailout: 2i128, scaling_factor: 1i128 }),
            p.wf(),
    {
        EvaluationParameters { max_iterations: 400, bailout: 2, scaling_factor: 1 }
    }
}

/// The output raster dimensions, independent of the viewport's aspect ratio.
#[derive(Clone, Copy, Debug, PartialEq, Eq, Structural)]
pub struct PixelGrid {
    pub width: u32,
    pub height: u32,
}

impl PixelGrid {
    /// Number of pixels in the grid.
    pub open spec fn pixel_total(self) -> int {
        self.width * self.height
    }

    /// Number of bytes in the grid's color buffer, four per pixel.
    pub open spec fn byte_total(self) -> int {
        4 * self.pixel_total()
    }
}

} // verus!
