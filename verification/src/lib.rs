//! Back end of a visual-inertial odometry pipeline: the sliding window of
//! keyframes, the factor graphs that are built from it, the bookkeeping of the
//! IMU pre-integration, and the decisions taken on what a non-linear solver
//! returns.
//!
//! Real numbers are carried as IEEE-754 bit patterns ([`scalar::Scalar`]); the
//! arithmetic on them is done by the caller.
#![allow(non_snake_case)]

pub mod datasets;
pub mod estimator;
pub mod imu;
pub mod linalg;
pub mod optimization;
pub mod scalar;
