//! Procedural geometry for an hourglass: curve tessellation, the glass
//! outline, and the sand-mass polygon for a given fill fraction.
//!
//! All geometry is fixed-point: a coordinate is an `i64` counting
//! thousandths of a unit, and a factor (fill fraction, curvature, width
//! factor) is an `i64` in thousandths, so `SCALE` stands for `1.0`.

pub mod fixed;
pub mod curves;
pub mod shape;
pub mod sand;
pub mod easing;
