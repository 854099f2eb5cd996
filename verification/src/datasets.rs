//! What the data sets deliver: IMU samples, and the calibration of IMU and
//! cameras.
use crate::linalg::Vector3;
use crate::scalar::Scalar;
use vstd::prelude::*;

verus! {

/// One sample of the IMU.
#[derive(Clone, Copy, Debug, PartialEq, Eq, Structural)]
pub struct ImuData {
    /// Time of the sample, in nanoseconds.
    pub timestamp: i64,
    /// Angular velocity.
    pub gyro: Vector3,
    /// Linear acceleration.
    pub accel: Vector3,
}

/// A 4x4 transform, as its entries row by row.
#[derive(Clone, Debug)]
pub struct Transform {
    pub data: Vec<Scalar>,
}

/// Calibration of the IMU.
#[derive(Clone, Debug)]
pub struct ImuConfig {
    /// Body-from-sensor transform.
    pub T_BS: Transform,
    pub accel_noise_density: Scalar,
    pub gyro_noise_density: Scalar,
    pub accel_random_walk: Scalar,
    pub gyro_random_walk: Scalar,
}

/// A camera model, by its horizontal focal length.
#[derive(Clone, Copy, Debug, PartialEq, Eq, Structural)]
pub enum CameraModelType {
    OpenCV5 { fx: Scalar },
    EUCM { fx: Scalar },
}

impl CameraModelType {
    /// The horizontal focal length.
    pub open spec fn spec_fx(self) -> Scalar {
        match self {
            CameraModelType::OpenCV5 { fx } => fx,
            CameraModelType::EUCM { fx } => fx,
        }
    }

    /// The horizontal focal length.
    pub fn fx(&self) -> (r: Scalar)
        ensures
            r == self.spec_fx(),
    {
        match self {
            CameraModelType::OpenCV5 { fx } => *fx,
            CameraModelType::EUCM { fx } => *fx,
        }
    }
}

} // verus!
