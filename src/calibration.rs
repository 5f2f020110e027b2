//! Calibration of the raw sensor range and the affine map into the unit square.
use vstd::prelude::*;
use crate::angle::floor_div;

verus! {

/// Fixed-point scale of normalized coordinates and radii: `UNIT` stands for 1.0.
pub const UNIT: i64 = 1_000_000;

/// Why a configuration cannot be used.
#[derive(Debug, Clone, Copy, PartialEq, Eq, Structural)]
pub enum ConfigError {
    /// `x_min` is not below `x_max`.
    DegenerateXRange,
    /// `y_min` is not below `y_max`.
    DegenerateYRange,
    /// The angle per scroll tick is zero.
    ZeroAngleStep,
    /// The inner radius of the rim exceeds its outer radius.
    EmptyRim,
}

/// The raw sensor values that map to the edges of the unit square.
#[derive(Debug, Clone, Copy, PartialEq, Eq, Structural)]
pub struct CalibrationBounds {
    pub x_min: i32,
    pub x_max: i32,
    pub y_min: i32,
    pub y_max: i32,
}

/// A sample mapped into the square [-UNIT, UNIT]^2 (or beyond it, for raw
/// values outside the calibrated range).
#[derive(Debug, Clone, Copy, PartialEq, Eq, Structural)]
pub struct NormalizedPoint {
    pub nx: i64,
    pub ny: i64,
}

/// `(v - lo) / (hi - lo) * 2 - 1` in units of `UNIT`, rounded down.
pub open spec fn normalize_axis(v: int, lo: int, hi: int) -> int {
    (2 * (v - lo) * UNIT) / (hi - lo) - UNIT
}

impl CalibrationBounds {
    /// Both axis ranges are non-empty.
    pub open spec fn wf(self) -> bool {
        self.x_min < self.x_max && self.y_min < self.y_max
    }

    /// The default calibration of a common touchpad.
    pub fn standard() -> (b: CalibrationBounds)
        ensures
            b.wf(),
            b == (CalibrationBounds { x_min: 1232, x_max: 5712, y_min: 1074, y_max: 4780 }),
    {
        CalibrationBounds { x_min: 1232, x_max: 5712, y_min: 1074, y_max: 4780 }
    }

    /// Checks the ranges: a zero-width axis would make normalization meaningless.
    pub fn new(x_min: i32, x_max: i32, y_min: i32, y_max: i32) -> (r: Result<
        CalibrationBounds,
        ConfigError,
    >)
        ensures
            x_min >= x_max ==> r == Err::<CalibrationBounds, ConfigError>(
                ConfigError::DegenerateXRange,
            ),
            x_min < x_max && y_min >= y_max ==> r == Err::<CalibrationBounds, ConfigError>(
                ConfigError::DegenerateYRange,
            ),
            x_min < x_max && y_min < y_max ==> r == Ok::<CalibrationBounds, ConfigError>(
                CalibrationBounds { x_min, x_max, y_min, y_max },
            ),
            r is Ok ==> r->Ok_0.wf(),
    {
        if x_min >= x_max {
            Err(ConfigError::DegenerateXRange)
        } else if y_min >= y_max {
            Err(ConfigError::DegenerateYRange)
        } else {
            Ok(CalibrationBounds { x_min, x_max, y_min, y_max })
        }
    }
}

fn normalize_one(v: i32, lo: i32, hi: i32) -> (n: i64)
    requires
        lo < hi,
    ensures
        n == normalize_axis(v as int, lo as int, hi as int),
{
    let diff: i128 = v as i128 - lo as i128;
    assert(-0x1_0000_0000 <= diff <= 0x1_0000_0000);
    assert(-0x1_0000_0000 * 2_000_000 <= diff * 2_000_000 <= 0x1_0000_0000 * 2_000_000)
        by (nonlinear_arith)
        requires
            -0x1_0000_0000 <= diff <= 0x1_0000_0000,
    ;
    let num: i128 = diff * 2_000_000;
    assert(num == 2 * (v - lo) * UNIT);
    let q: i128 = floor_div(num, hi as i128 - lo as i128);
    (q - UNIT as i128) as i64
}

/// Maps a raw sample into the unit square, each axis independently.
pub fn normalize(b: &CalibrationBounds, x: i32, y: i32) -> (p: NormalizedPoint)
    requires
        b.wf(),
    ensures
        p.nx == normalize_axis(x as int, b.x_min as int, b.x_max as int),
        p.ny == normalize_axis(y as int, b.y_min as int, b.y_max as int),
{
    NormalizedPoint {
        nx: normalize_one(x, b.x_min, b.x_max),
        ny: normalize_one(y, b.y_min, b.y_max),
    }
}

/// The corners of the calibrated range map to the corners of the unit square:
/// the lower bounds to (-1, -1) and the upper bounds to (1, 1).
pub proof fn lemma_corners_normalize(b: CalibrationBounds)
    requires
        b.wf(),
    ensures
        normalize_axis(b.x_min as int, b.x_min as int, b.x_max as int) == -UNIT,
        normalize_axis(b.y_min as int, b.y_min as int, b.y_max as int) == -UNIT,
        normalize_axis(b.x_max as int, b.x_min as int, b.x_max as int) == UNIT,
        normalize_axis(b.y_max as int, b.y_min as int, b.y_max as int) == UNIT,
{
    let dx = b.x_max - b.x_min;
    let dy = b.y_max - b.y_min;
    vstd::arithmetic::div_mod::lemma_div_basics(dx);
    vstd::arithmetic::div_mod::lemma_div_basics(dy);
    vstd::arithmetic::div_mod::lemma_div_multiples_vanish(2 * UNIT, dx);
    vstd::arithmetic::div_mod::lemma_div_multiples_vanish(2 * UNIT, dy);
    assert(2 * dx * UNIT == dx * (2 * UNIT)) by (nonlinear_arith);
    assert(2 * dy * UNIT == dy * (2 * UNIT)) by (nonlinear_arith);
}

} // verus!
