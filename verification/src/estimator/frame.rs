//! Frames of the stereo camera, with the features that were found in them.
use crate::datasets::CameraModelType;
use crate::estimator::state::State;
use crate::imu::piecewise_integration::PreInt;
use crate::scalar::Single;
use vstd::prelude::*;

verus! {

/// A point of the image plane, in normalized coordinates without distortion.
#[derive(Clone, Copy, Debug, PartialEq, Eq, Structural)]
pub struct Coord {
    pub x: Single,
    pub y: Single,
}

/// A feature that was found in an image.
#[derive(Clone, Copy, Debug, PartialEq, Eq, Structural)]
pub struct Feature {
    /// The same for all features that show one point of the world.
    pub feature_id: usize,
    pub undistorted_coord: Coord,
}

/// A pair of images, and the state of the platform at their time.
#[derive(Debug)]
pub struct Frame {
    pub frame_id: usize,
    pub is_keyframe: bool,
    pub state: State,
    pub left_features: Vec<Feature>,
    pub right_features: Vec<Feature>,
    pub left_cam: CameraModelType,
    /// The pre-integration of the samples since the keyframe before.
    pub imu_preintegration: Option<PreInt>,
}

} // verus!
