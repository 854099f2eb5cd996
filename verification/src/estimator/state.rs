//! The state of the platform at one instant.
use crate::linalg::{Matrix4x4, Vector3};
use vstd::prelude::*;

verus! {

#[derive(Clone, Copy, Debug, PartialEq, Eq, Structural)]
pub struct State {
    /// World-from-body pose.
    pub T_W_B: Matrix4x4,
    /// Body-from-left-camera pose.
    pub T_B_Cl: Matrix4x4,
    /// Body-from-right-camera pose.
    pub T_B_Cr: Matrix4x4,
    /// Linear velocity of the body in world coordinates.
    pub velocity: Vector3,
    /// Angular velocity in the body frame.
    pub angular_velocity: Vector3,
    /// Accelerometer bias.
    pub accel_bias: Vector3,
    /// Gyroscope bias.
    pub gyro_bias: Vector3,
}

/// The vector in `v`, or the zero vector.
fn or_zero(v: Option<Vector3>) -> (r: Vector3)
    ensures
        r == (match v {
            Some(u) => u,
            None => Vector3::spec_zero(),
        }),
{
    match v {
        Some(u) => u,
        None => Vector3::zeros(),
    }
}

impl State {
    /// The state with the given camera poses. What is not given is the identity
    /// for the pose and zero for the rest.
    pub fn new(
        T_B_Cl: Matrix4x4,
        T_B_Cr: Matrix4x4,
        T_B_W: Option<Matrix4x4>,
        velocity: Option<Vector3>,
        accel_bias: Option<Vector3>,
        gyro_bias: Option<Vector3>,
        angular_velocity: Option<Vector3>,
    ) -> (r: State)
        ensures
            r.T_B_Cl == T_B_Cl,
            r.T_B_Cr == T_B_Cr,
            r.T_W_B == (match T_B_W {
                Some(t) => t,
                None => Matrix4x4::spec_identity(),
            }),
            r.velocity == (match velocity {
                Some(v) => v,
                None => Vector3::spec_zero(),
            }),
            r.accel_bias == (match accel_bias {
                Some(v) => v,
                None => Vector3::spec_zero(),
            }),
            r.gyro_bias == (match gyro_bias {
                Some(v) => v,
                None => Vector3::spec_zero(),
            }),
            r.angular_velocity == (match angular_velocity {
                Some(v) => v,
                None => Vector3::spec_zero(),
            }),
    {
        State {
            T_W_B: match T_B_W {
                Some(t) => t,
                None => Matrix4x4::identity(),
            },
            T_B_Cl,
            T_B_Cr,
            velocity: or_zero(velocity),
            accel_bias: or_zero(accel_bias),
            gyro_bias: or_zero(gyro_bias),
            angular_velocity: or_zero(angular_velocity),
        }
    }

    /// Identity poses, zero velocity and zero biases.
    pub open spec fn spec_identity() -> State {
        State {
            T_W_B: Matrix4x4::spec_identity(),
            T_B_Cl: Matrix4x4::spec_identity(),
            T_B_Cr: Matrix4x4::spec_identity(),
            velocity: Vector3::spec_zero(),
            angular_velocity: Vector3::spec_zero(),
            accel_bias: Vector3::spec_zero(),
            gyro_bias: Vector3::spec_zero(),
        }
    }

    /// Identity poses, zero velocity and zero biases.
    pub fn identity() -> (r: State)
        ensures
            r == State::spec_identity(),
    {
        State {
            T_W_B: Matrix4x4::identity(),
            T_B_Cl: Matrix4x4::identity(),
            T_B_Cr: Matrix4x4::identity(),
            velocity: Vector3::zeros(),
            accel_bias: Vector3::zeros(),
            gyro_bias: Vector3::zeros(),
            angular_velocity: Vector3::zeros(),
        }
    }
}

/// The identity state neither moves nor turns and has no bias, and all its poses are
/// the identity.
pub proof fn identity_state_is_at_rest()
    ensures
        State::spec_identity().T_W_B == Matrix4x4::spec_identity(),
        State::spec_identity().T_B_Cl == Matrix4x4::spec_identity(),
        State::spec_identity().T_B_Cr == Matrix4x4::spec_identity(),
        State::spec_identity().velocity == Vector3::spec_zero(),
        State::spec_identity().angular_velocity == Vector3::spec_zero(),
        State::spec_identity().accel_bias == Vector3::spec_zero(),
        State::spec_identity().gyro_bias == Vector3::spec_zero(),
{
}

} // verus!
