//! Fixed-point core for an ambient-light sensor's lux/raw-count conversions.
//!
//! The sensor reports raw counts that relate to illuminance (lux) through a
//! per-configuration conversion factor, and its response bends upward above
//! roughly 1000 lx at the two lowest-sensitivity gain settings, where a
//! calibrated quartic polynomial corrects the deviation.  Computing a raw
//! threshold value for a desired lux trip point therefore needs the inverse
//! of that polynomial on its increasing branch.
//!
//! All quantities here are exact scaled integers: lux values carry three
//! decimal places (milli-lux), conversion factors four (ten-thousandths of a
//! lux per count), and the polynomial's coefficients are scaled to a common
//! integer denominator, so every contract states the result exactly.

use vstd::prelude::*;

pub mod correction;

pub use correction::calculate_raw_threshold_value;
pub use correction::correct_high_lux;
pub use correction::get_lux_raw_conversion_factor;
pub use correction::inverse_high_lux_correction;
pub use correction::CORRECTED_MILLI_LIMIT;
pub use correction::LUX_MILLI_LIMIT;

verus! {

/// Analog gain setting of the sensor.
///
/// The multiplier each setting contributes to the conversion factor is
/// inverse to its amplification: the strongest gain (`Two`) yields the
/// fewest lux per raw count.
#[derive(Clone, Copy, Debug, PartialEq, Eq, Structural)]
pub enum Gain {
    /// Gain 2x, the highest sensitivity.
    Two,
    /// Gain 1x.
    One,
    /// Gain 1/4x.
    OneQuarter,
    /// Gain 1/8x, the lowest sensitivity.
    OneEighth,
}

/// Integration (exposure) time setting of the sensor.
///
/// Longer integration accumulates more raw counts per unit of light, so the
/// multiplier it contributes to the conversion factor shrinks as the time
/// grows.
#[derive(Clone, Copy, Debug, PartialEq, Eq, Structural)]
pub enum IntegrationTime {
    /// 800 ms integration time.
    _800ms,
    /// 400 ms integration time.
    _400ms,
    /// 200 ms integration time.
    _200ms,
    /// 100 ms integration time.
    _100ms,
    /// 50 ms integration time.
    _50ms,
    /// 25 ms integration time.
    _25ms,
}

} // verus!
