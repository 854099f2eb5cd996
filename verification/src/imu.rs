//! Pre-integration of the samples of an inertial measurement unit.
pub mod factors;
pub mod midpoint_integration;
pub mod piecewise_integration;
