//! Turns a finger tracing circles along the rim of a touchpad into discrete
//! scroll-wheel ticks.
//!
//! All quantities are fixed-point integers: angles are in millionths of a
//! degree, normalized coordinates and radii in millionths of a unit.
pub mod angle;
pub mod calibration;
pub mod gesture;
pub mod pairing;
pub mod device_scan;
pub mod laws;
