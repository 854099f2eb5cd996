//! The factor graphs that the solver is given.
//!
//! A graph is made of variables, each with the value it starts from, and of
//! blocks, each with the variables it ties together. The solver computes on
//! them; which variables and blocks there are, and what goes into them, is
//! decided here.
use crate::estimator::frame::{Coord, Feature, Frame};
use crate::imu::piecewise_integration::{Layout, Part};
use crate::linalg::{Matrix, Matrix4x4, Vector2, Vector3};
use crate::optimization::factors::{BundleAdjustmentFactor, Matrix2x3, Side, IMU_COLUMNS};
use crate::optimization::names::VarName;
use crate::scalar::{Scalar, Single};
use apex_solver::manifold::ManifoldType;
use std::collections::HashMap;
use std::collections::HashSet;
use vstd::prelude::*;

verus! {

/// `apex_solver::manifold::ManifoldType`, with the variants that the solver
/// declares.
#[verifier::external_type_specification]
pub struct ExManifoldType(ManifoldType);

/// One of the two cameras.
#[derive(Clone, Copy, Debug, PartialEq, Eq, Structural)]
pub enum Camera {
    Left,
    Right,
}

/// A point of the map, in world coordinates.
#[derive(Clone, Copy, Debug, PartialEq, Eq, Structural)]
pub struct MapPoint {
    pub x: Single,
    pub y: Single,
    pub z: Single,
}

/// A feature that a keyframe of the window shows.
#[derive(Clone, Copy, Debug, PartialEq, Eq, Structural)]
pub struct Sighting {
    /// The position of the keyframe in the window.
    pub frame: usize,
    pub camera: Camera,
    pub feature: Feature,
}

/// The value that a variable starts from.
#[derive(Clone, Copy, Debug, PartialEq, Eq, Structural)]
pub enum InitialValue {
    /// The inverse of this pose.
    Pose { T_W_B: Matrix4x4 },
    /// These three vectors, one behind the other.
    VelocityBias { velocity: Vector3, accel_bias: Vector3, gyro_bias: Vector3 },
    /// This point.
    Known { point: MapPoint },
    /// The point that the camera of a body with this pose sees at these
    /// coordinates and at this depth.
    Seen { T_W_B: Matrix4x4, camera: Camera, coord: Coord, depth: Scalar },
}

/// A variable of the graph.
#[derive(Clone, Copy, Debug, PartialEq, Eq, Structural)]
pub struct Variable {
    pub name: VarName,
    pub initial: InitialValue,
}

/// A block of the graph.
#[derive(Clone, Copy, Debug, PartialEq, Eq, Structural)]
pub enum Block {
    /// What the IMU measured up to the keyframe at position `frame`, linearized
    /// about these biases.
    Imu { frame: usize, bias_a: Vector3, bias_g: Vector3 },
    /// Where a camera saw a landmark. With a fixed pose, that pose of the body is
    /// taken as it is; else it is the variable of the keyframe.
    Reprojection {
        frame: usize,
        camera: Camera,
        landmark: usize,
        coord: Coord,
        fixed_pose: Option<Matrix4x4>,
    },
}

impl InitialValue {
    /// Poses are optimized on their manifold, all else in a vector space.
    pub fn manifold(&self) -> (r: ManifoldType)
        ensures
            *self is Pose ==> r is SE3,
            !(*self is Pose) ==> r is RN,
    {
        match self {
            InitialValue::Pose { .. } => ManifoldType::SE3,
            _ => ManifoldType::RN,
        }
    }
}

impl Block {
    /// The variables that the block ties together.
    pub open spec fn spec_variables(self) -> Seq<VarName> {
        match self {
            Block::Imu { frame, .. } => seq![
                VarName::Pose((frame - 1) as usize),
                VarName::VelocityBias((frame - 1) as usize),
                VarName::Pose(frame),
                VarName::VelocityBias(frame),
            ],
            Block::Reprojection { frame, landmark, fixed_pose, .. } => if fixed_pose is Some {
                seq![VarName::Landmark(landmark)]
            } else {
                seq![VarName::Landmark(landmark), VarName::Pose(frame)]
            },
        }
    }

    /// The variables that the block ties together.
    pub fn variables(&self) -> (r: Vec<VarName>)
        requires
            *self matches Block::Imu { frame, .. } ==> frame > 0,
        ensures
            r@ == self.spec_variables(),
    {
        let mut r: Vec<VarName> = Vec::new();
        match self {
            Block::Imu { frame, .. } => {
                r.push(VarName::Pose(*frame - 1));
                r.push(VarName::VelocityBias(*frame - 1));
                r.push(VarName::Pose(*frame));
                r.push(VarName::VelocityBias(*frame));
            },
            Block::Reprojection { frame, landmark, fixed_pose, .. } => {
                r.push(VarName::Landmark(*landmark));
                if fixed_pose.is_none() {
                    r.push(VarName::Pose(*frame));
                }
            },
        }
        assert(r@ =~= self.spec_variables());
        r
    }

    /// The width of the Huber loss that the block is weighted with: three for an
    /// IMU measurement, two for a reprojection.
    pub fn loss_width(&self) -> (r: Scalar)
        ensures
            *self is Imu ==> r.bits == 0x4008_0000_0000_0000,
            *self is Reprojection ==> r.bits == 0x4000_0000_0000_0000,
    {
        match self {
            Block::Imu { .. } => Scalar::from_bits(0x4008_0000_0000_0000),
            Block::Reprojection { .. } => Scalar::from_bits(0x4000_0000_0000_0000),
        }
    }
}

/// What the keyframe at position `k` shows: the features of the left image, then
/// those of the right image.
pub open spec fn frame_sightings(frame: Frame, k: int) -> Seq<Sighting> {
    let left = frame.left_features@;
    let right = frame.right_features@;
    Seq::new(
        left.len() + right.len(),
        |i: int|
            if i < left.len() {
                Sighting { frame: k as usize, camera: Camera::Left, feature: left[i] }
            } else {
                Sighting {
                    frame: k as usize,
                    camera: Camera::Right,
                    feature: right[i - left.len()],
                }
            },
    )
}

/// What the first `n` keyframes show.
pub open spec fn sightings(frames: Seq<Frame>, n: nat) -> Seq<Sighting>
    decreases n,
{
    if n == 0 {
        Seq::empty()
    } else {
        sightings(frames, (n - 1) as nat) + frame_sightings(frames[n - 1], n - 1)
    }
}

/// Whether the camera saw the feature.
pub open spec fn seen_by(s: Seq<Sighting>, camera: Camera, id: usize) -> bool {
    exists|i: int|
        0 <= i < s.len() && (#[trigger] s[i]).camera == camera && s[i].feature.feature_id == id
}

/// Whether both cameras saw the feature, in the same keyframe or in different
/// ones.
pub open spec fn stereo(s: Seq<Sighting>, id: usize) -> bool {
    seen_by(s, Camera::Left, id) && seen_by(s, Camera::Right, id)
}

/// The features that both cameras saw.
pub open spec fn stereo_ids(s: Seq<Sighting>) -> Set<usize> {
    Set::new(|id: usize| stereo(s, id))
}

/// Whether the first sighting of the feature is the one at index `i`.
pub open spec fn is_first(s: Seq<Sighting>, i: int, id: usize) -> bool {
    &&& 0 <= i < s.len()
    &&& s[i].feature.feature_id == id
    &&& forall|j: int| 0 <= j < i ==> (#[trigger] s[j]).feature.feature_id != id
}

/// The depth at which a landmark is assumed when nothing is known of it: two.
pub open spec fn assumed_depth() -> Scalar {
    Scalar { bits: 0x4000_0000_0000_0000 }
}

/// The value that a landmark starts from: its point of the map, if it has one,
/// else the point on the ray of its first sighting.
pub open spec fn landmark_starts_at(
    frames: Seq<Frame>,
    points: Map<usize, MapPoint>,
    id: usize,
    initial: InitialValue,
) -> bool {
    let s = sightings(frames, frames.len());
    if points.contains_key(id) {
        initial == (InitialValue::Known { point: points[id] })
    } else {
        exists|i: int| #[trigger]
            is_first(s, i, id) && initial == seen_at(frames, s[i])
    }
}

/// The point on the ray of the sighting.
pub open spec fn seen_at(frames: Seq<Frame>, x: Sighting) -> InitialValue {
    InitialValue::Seen {
        T_W_B: frames[x.frame as int].state.T_W_B,
        camera: x.camera,
        coord: x.feature.undistorted_coord,
        depth: assumed_depth(),
    }
}

/// The block of a sighting. The pose of the first keyframe is fixed.
pub open spec fn reprojection(frames: Seq<Frame>, x: Sighting) -> Block {
    Block::Reprojection {
        frame: x.frame,
        camera: x.camera,
        landmark: x.feature.feature_id,
        coord: x.feature.undistorted_coord,
        fixed_pose: if x.frame == 0 {
            Some(frames[0].state.T_W_B)
        } else {
            None
        },
    }
}

/// The blocks of the first `n` sightings of `some`: one for each sighting of a
/// feature that both cameras saw.
pub open spec fn reprojections(frames: Seq<Frame>, some: Seq<Sighting>, n: nat) -> Seq<Block>
    decreases n,
{
    if n == 0 {
        Seq::empty()
    } else {
        let before = reprojections(frames, some, (n - 1) as nat);
        let x = some[n - 1];
        if stereo(sightings(frames, frames.len()), x.feature.feature_id) {
            before.push(reprojection(frames, x))
        } else {
            before
        }
    }
}

/// The block of the IMU measurement up to the keyframe at position `k`, if there
/// is a keyframe before it, something was measured and the window is initialized.
pub open spec fn imu_blocks(frames: Seq<Frame>, initialized: bool, k: int) -> Seq<Block> {
    if k > 0 && frames[k].imu_preintegration is Some && initialized {
        seq![
            Block::Imu {
                frame: k as usize,
                bias_a: frames[k].state.accel_bias,
                bias_g: frames[k].state.gyro_bias,
            },
        ]
    } else {
        Seq::empty()
    }
}

/// The blocks of the first `n` keyframes: for each the IMU measurement, then the
/// reprojections.
pub open spec fn blocks(frames: Seq<Frame>, initialized: bool, n: nat) -> Seq<Block>
    decreases n,
{
    if n == 0 {
        Seq::empty()
    } else {
        let k = n - 1;
        let shown = frame_sightings(frames[k], k);
        blocks(frames, initialized, k as nat) + imu_blocks(frames, initialized, k)
            + reprojections(frames, shown, shown.len())
    }
}

/// Whether the graph of the keyframes has this variable.
pub open spec fn declared(frames: Seq<Frame>, name: VarName) -> bool {
    match name {
        VarName::Pose(k) => k < frames.len(),
        VarName::VelocityBias(k) => k < frames.len(),
        VarName::Landmark(id) => stereo(sightings(frames, frames.len()), id),
        VarName::NewFrame => false,
    }
}

/// Whether the variable starts from the right value.
pub open spec fn starts_right(
    frames: Seq<Frame>,
    points: Map<usize, MapPoint>,
    v: Variable,
) -> bool {
    match v.name {
        VarName::Pose(k) => v.initial == (InitialValue::Pose {
            T_W_B: frames[k as int].state.T_W_B,
        }),
        VarName::VelocityBias(k) => v.initial == (InitialValue::VelocityBias {
            velocity: frames[k as int].state.velocity,
            accel_bias: frames[k as int].state.accel_bias,
            gyro_bias: frames[k as int].state.gyro_bias,
        }),
        VarName::Landmark(id) => landmark_starts_at(frames, points, id, v.initial),
        VarName::NewFrame => false,
    }
}

/// The number of variables of the graph: two for each keyframe, and one for each
/// feature that both cameras saw.
pub open spec fn variable_count(frames: Seq<Frame>) -> nat {
    2 * frames.len() + stereo_ids(sightings(frames, frames.len())).len()
}

/// The graph of a bundle adjustment.
pub struct Problem {
    pub variables: Vec<Variable>,
    pub blocks: Vec<Block>,
    /// Pose of the left camera in the body frame.
    pub T_B_Cl: Matrix4x4,
    /// Pose of the right camera in the body frame.
    pub T_B_Cr: Matrix4x4,
    /// The focal length by which reprojections are weighted.
    pub focal_length: Scalar,
}

impl Problem {
    /// Whether the variables are those of the graph, each once and each with the
    /// value it starts from.
    pub open spec fn variables_of(
        variables: Seq<Variable>,
        frames: Seq<Frame>,
        points: Map<usize, MapPoint>,
    ) -> bool {
        &&& forall|i: int, j: int|
            0 <= i < j < variables.len() ==> (#[trigger] variables[i]).name != (
            #[trigger] variables[j]).name
        &&& forall|i: int|
            0 <= i < variables.len() ==> declared(frames, (#[trigger] variables[i]).name)
                && starts_right(frames, points, variables[i])
        &&& forall|name: VarName| #[trigger]
            declared(frames, name) ==> exists|i: int|
                0 <= i < variables.len() && (#[trigger] variables[i]).name == name
        &&& variables.len() == variable_count(frames)
    }

    /// Whether this is the graph of these keyframes and map points. The cameras
    /// are those of the first keyframe.
    pub open spec fn is_problem_of(
        self,
        frames: Seq<Frame>,
        points: Map<usize, MapPoint>,
        initialized: bool,
    ) -> bool {
        &&& Problem::variables_of(self.variables@, frames, points)
        &&& self.blocks@ == blocks(frames, initialized, frames.len())
        &&& self.T_B_Cl == frames[0].state.T_B_Cl
        &&& self.T_B_Cr == frames[0].state.T_B_Cr
        &&& self.focal_length == frames[0].left_cam.spec_fx()
    }
}

/// What the keyframes show.
fn collect_sightings(frames: &Vec<Frame>) -> (r: Vec<Sighting>)
    ensures
        r@ == sightings(frames@, frames@.len()),
{
    let mut r: Vec<Sighting> = Vec::new();
    let mut k: usize = 0;
    while k < frames.len()
        invariant
            k <= frames@.len(),
            r@ == sightings(frames@, k as nat),
        decreases frames@.len() - k,
    {
        append_sightings(&mut r, &frames[k], k);
        k += 1;
    }
    r
}

/// Appends what the keyframe at position `k` shows.
fn append_sightings(r: &mut Vec<Sighting>, frame: &Frame, k: usize)
    ensures
        final(r)@ == old(r)@ + frame_sightings(*frame, k as int),
{
    let ghost shown = frame_sightings(*frame, k as int);
    let left = &frame.left_features;
    let right = &frame.right_features;
    let mut i: usize = 0;
    while i < left.len()
        invariant
            i <= left@.len(),
            *left == frame.left_features,
            shown == frame_sightings(*frame, k as int),
            r@ == old(r)@ + shown.take(i as int),
        decreases left@.len() - i,
    {
        r.push(Sighting { frame: k, camera: Camera::Left, feature: left[i] });
        i += 1;
        assert(r@ =~= old(r)@ + shown.take(i as int));
    }
    let mut j: usize = 0;
    while j < right.len()
        invariant
            j <= right@.len(),
            *left == frame.left_features,
            *right == frame.right_features,
            shown == frame_sightings(*frame, k as int),
            r@ == old(r)@ + shown.take(left@.len() + j),
        decreases right@.len() - j,
    {
        r.push(Sighting { frame: k, camera: Camera::Right, feature: right[j] });
        j += 1;
        assert(r@ =~= old(r)@ + shown.take(left@.len() + j));
    }
    assert(shown.take(left@.len() + j) =~= shown);
}

/// The identifiers of the features that the camera saw.
fn ids_seen_by(s: &Vec<Sighting>, camera: Camera) -> (r: HashSet<usize>)
    ensures
        forall|id: usize| #[trigger] r@.contains(id) <==> seen_by(s@, camera, id),
{
    broadcast use vstd::std_specs::hash::group_hash_axioms;

    let mut r: HashSet<usize> = HashSet::new();
    let mut i: usize = 0;
    while i < s.len()
        invariant
            i <= s@.len(),
            forall|id: usize| #[trigger]
                r@.contains(id) <==> exists|a: int|
                    0 <= a < i && (#[trigger] s@[a]).camera == camera && s@[a].feature.feature_id
                        == id,
        decreases s@.len() - i,
    {
        let x = s[i];
        if x.camera == camera {
            r.insert(x.feature.feature_id);
        }
        i += 1;
        assert forall|id: usize| #[trigger] r@.contains(id) <==> exists|a: int|
            0 <= a < i && (#[trigger] s@[a]).camera == camera && s@[a].feature.feature_id == id by {
            assert(s@[i - 1] == x);
        }
    }
    r
}

/// What the first keyframes show comes first among what all show.
proof fn lemma_sightings_prefix(frames: Seq<Frame>, k: nat, n: nat)
    requires
        k <= n,
    ensures
        sightings(frames, k).len() <= sightings(frames, n).len(),
        forall|i: int|
            0 <= i < sightings(frames, k).len() ==> #[trigger] sightings(frames, n)[i] == sightings(
                frames,
                k,
            )[i],
    decreases n,
{
    if k < n {
        lemma_sightings_prefix(frames, k, (n - 1) as nat);
    }
}

/// Whether `variables` are those of the first `n` keyframes and of the landmarks
/// `seen`, each once and each with the value it starts from.
spec fn partial(
    variables: Seq<Variable>,
    frames: Seq<Frame>,
    points: Map<usize, MapPoint>,
    n: nat,
    seen: Set<usize>,
) -> bool {
    &&& n <= frames.len()
    &&& seen.finite()
    &&& variables.len() == 2 * n + seen.len()
    &&& forall|i: int, j: int|
        0 <= i < j < variables.len() ==> (#[trigger] variables[i]).name != (
        #[trigger] variables[j]).name
    &&& forall|i: int|
        0 <= i < variables.len() ==> declared(frames, (#[trigger] variables[i]).name)
            && starts_right(frames, points, variables[i])
    &&& forall|i: int| 0 <= i < variables.len() ==> added((#[trigger] variables[i]).name, n, seen)
    &&& forall|name: VarName| #[trigger]
        added(name, n, seen) ==> exists|i: int|
            0 <= i < variables.len() && (#[trigger] variables[i]).name == name
}

/// Whether the variable belongs to the first `n` keyframes or to one of the
/// landmarks `seen`.
spec fn added(name: VarName, n: nat, seen: Set<usize>) -> bool {
    match name {
        VarName::Pose(k) => k < n,
        VarName::VelocityBias(k) => k < n,
        VarName::Landmark(id) => seen.contains(id),
        VarName::NewFrame => false,
    }
}

/// One more keyframe adds its two variables.
proof fn lemma_add_keyframe(
    variables: Seq<Variable>,
    frames: Seq<Frame>,
    points: Map<usize, MapPoint>,
    k: usize,
    seen: Set<usize>,
    pose: Variable,
    vb: Variable,
)
    requires
        partial(variables, frames, points, k as nat, seen),
        k < frames.len(),
        pose.name == VarName::Pose(k),
        vb.name == VarName::VelocityBias(k),
        starts_right(frames, points, pose),
        starts_right(frames, points, vb),
    ensures
        partial(variables.push(pose).push(vb), frames, points, (k + 1) as nat, seen),
{
    let after = variables.push(pose).push(vb);
    assert forall|name: VarName| #[trigger] added(name, (k + 1) as nat, seen) implies exists|i: int|
        0 <= i < after.len() && (#[trigger] after[i]).name == name by {
        if name == pose.name {
            assert(after[variables.len() as int].name == name);
        } else if name == vb.name {
            assert(after[variables.len() as int + 1].name == name);
        } else {
            assert(added(name, k as nat, seen));
            let i = choose|i: int|
                0 <= i < variables.len() && (#[trigger] variables[i]).name == name;
            assert(after[i].name == name);
        }
    }
    assert forall|i: int| 0 <= i < after.len() implies added(
        (#[trigger] after[i]).name,
        (k + 1) as nat,
        seen,
    ) by {
        if i < variables.len() {
            assert(added(variables[i].name, k as nat, seen));
        }
    }
    assert forall|i: int, j: int| 0 <= i < j < after.len() implies (#[trigger] after[i]).name != (
    #[trigger] after[j]).name by {
        if i < variables.len() {
            assert(added(variables[i].name, k as nat, seen));
        }
    }
}

/// A landmark that has no variable yet gets one.
proof fn lemma_add_landmark(
    variables: Seq<Variable>,
    frames: Seq<Frame>,
    points: Map<usize, MapPoint>,
    n: nat,
    seen: Set<usize>,
    id: usize,
    v: Variable,
)
    requires
        partial(variables, frames, points, n, seen),
        !seen.contains(id),
        v.name == VarName::Landmark(id),
        declared(frames, v.name),
        starts_right(frames, points, v),
    ensures
        partial(variables.push(v), frames, points, n, seen.insert(id)),
{
    let after = variables.push(v);
    let more = seen.insert(id);
    assert forall|name: VarName| #[trigger] added(name, n, more) implies exists|i: int|
        0 <= i < after.len() && (#[trigger] after[i]).name == name by {
        if name == v.name {
            assert(after[variables.len() as int].name == name);
        } else {
            assert(added(name, n, seen));
            let i = choose|i: int|
                0 <= i < variables.len() && (#[trigger] variables[i]).name == name;
            assert(after[i].name == name);
        }
    }
    assert forall|i: int| 0 <= i < after.len() implies added((#[trigger] after[i]).name, n, more) by {
        if i < variables.len() {
            assert(added(variables[i].name, n, seen));
        }
    }
    assert forall|i: int, j: int| 0 <= i < j < after.len() implies (#[trigger] after[i]).name != (
    #[trigger] after[j]).name by {
        if i < variables.len() {
            assert(added(variables[i].name, n, seen));
        }
    }
}

/// The value that the landmark of a sighting starts from, if this is its first
/// sighting.
fn landmark_initial(
    frames: &Vec<Frame>,
    points: &HashMap<usize, MapPoint>,
    x: &Sighting,
) -> (r: InitialValue)
    requires
        x.frame < frames@.len(),
    ensures
        r == (if points@.contains_key(x.feature.feature_id) {
            InitialValue::Known { point: points@[x.feature.feature_id] }
        } else {
            seen_at(frames@, *x)
        }),
{
    broadcast use vstd::std_specs::hash::group_hash_axioms;

    match points.get(&x.feature.feature_id) {
        Some(point) => InitialValue::Known { point: *point },
        None => InitialValue::Seen {
            T_W_B: frames[x.frame].state.T_W_B,
            camera: x.camera,
            coord: x.feature.undistorted_coord,
            depth: Scalar::from_bits(0x4000_0000_0000_0000),
        },
    }
}

impl Problem {
    /// The graph of these keyframes and map points.
    pub fn build(
        frames: &Vec<Frame>,
        points: &HashMap<usize, MapPoint>,
        initialized: bool,
    ) -> (r: Problem)
        requires
            frames@.len() > 0,
        ensures
            r.is_problem_of(frames@, points@, initialized),
    {
        broadcast use vstd::std_specs::hash::group_hash_axioms;

        let all = collect_sightings(frames);
        let left = ids_seen_by(&all, Camera::Left);
        let right = ids_seen_by(&all, Camera::Right);
        let mut variables: Vec<Variable> = Vec::new();
        let mut list: Vec<Block> = Vec::new();
        let mut seen: HashSet<usize> = HashSet::new();
        let ghost mut marks: Set<usize> = Set::empty();
        let mut k: usize = 0;
        assert(partial(variables@, frames@, points@, 0, marks));
        while k < frames.len()
            invariant
                k <= frames@.len(),
                all@ == sightings(frames@, frames@.len()),
                forall|id: usize| #[trigger] left@.contains(id) <==> seen_by(all@, Camera::Left, id),
                forall|id: usize| #[trigger]
                    right@.contains(id) <==> seen_by(all@, Camera::Right, id),
                list@ == blocks(frames@, initialized, k as nat),
                partial(variables@, frames@, points@, k as nat, marks),
                seen@ == marks,
                forall|id: usize| #[trigger]
                    marks.contains(id) <==> stereo(all@, id) && exists|a: int|
                        0 <= a < sightings(frames@, k as nat).len() && (
                        #[trigger] all@[a]).feature.feature_id == id,
            decreases frames@.len() - k,
        {
            let frame = &frames[k];
            let pose = Variable {
                name: VarName::Pose(k),
                initial: InitialValue::Pose { T_W_B: frame.state.T_W_B },
            };
            let vb = Variable {
                name: VarName::VelocityBias(k),
                initial: InitialValue::VelocityBias {
                    velocity: frame.state.velocity,
                    accel_bias: frame.state.accel_bias,
                    gyro_bias: frame.state.gyro_bias,
                },
            };
            proof {
                lemma_add_keyframe(variables@, frames@, points@, k, marks, pose, vb);
            }
            variables.push(pose);
            variables.push(vb);
            if k > 0 && frame.imu_preintegration.is_some() && initialized {
                list.push(
                    Block::Imu {
                        frame: k,
                        bias_a: frame.state.accel_bias,
                        bias_g: frame.state.gyro_bias,
                    },
                );
            }
            let ghost head = blocks(frames@, initialized, k as nat) + imu_blocks(
                frames@,
                initialized,
                k as int,
            );
            assert(list@ =~= head);
            let ghost base = sightings(frames@, k as nat).len();
            let mut shown: Vec<Sighting> = Vec::new();
            append_sightings(&mut shown, frame, k);
            assert(shown@ =~= frame_sightings(frames@[k as int], k as int));
            proof {
                lemma_sightings_prefix(frames@, (k + 1) as nat, frames@.len());
            }
            let mut i: usize = 0;
            while i < shown.len()
                invariant
                    k < frames@.len(),
                    *frame == frames@[k as int],
                    i <= shown@.len(),
                    shown@ == frame_sightings(frames@[k as int], k as int),
                    base == sightings(frames@, k as nat).len(),
                    base + shown@.len() <= all@.len(),
                    forall|a: int| 0 <= a < shown@.len() ==> all@[base + a] == #[trigger] shown@[a],
                    all@ == sightings(frames@, frames@.len()),
                    forall|id: usize| #[trigger]
                        left@.contains(id) <==> seen_by(all@, Camera::Left, id),
                    forall|id: usize| #[trigger]
                        right@.contains(id) <==> seen_by(all@, Camera::Right, id),
                    list@ == head + reprojections(frames@, shown@, i as nat),
                    partial(variables@, frames@, points@, (k + 1) as nat, marks),
                    seen@ == marks,
                    forall|id: usize| #[trigger]
                        marks.contains(id) <==> stereo(all@, id) && exists|a: int|
                            0 <= a < base + i && (#[trigger] all@[a]).feature.feature_id == id,
                decreases shown@.len() - i,
            {
                let x = shown[i];
                let id = x.feature.feature_id;
                assert(all@[base + i] == x);
                if left.contains(&id) && right.contains(&id) {
                    if !seen.contains(&id) {
                        let v = Variable {
                            name: VarName::Landmark(id),
                            initial: landmark_initial(frames, points, &x),
                        };
                        proof {
                            assert(is_first(all@, base + i, id));
                            assert(seen_at(frames@, all@[base + i]) == seen_at(frames@, x));
                            lemma_add_landmark(
                                variables@,
                                frames@,
                                points@,
                                (k + 1) as nat,
                                marks,
                                id,
                                v,
                            );
                            marks = marks.insert(id);
                        }
                        variables.push(v);
                        seen.insert(id);
                    }
                    let fixed_pose = if k == 0 {
                        Some(frame.state.T_W_B)
                    } else {
                        None
                    };
                    list.push(
                        Block::Reprojection {
                            frame: k,
                            camera: x.camera,
                            landmark: id,
                            coord: x.feature.undistorted_coord,
                            fixed_pose,
                        },
                    );
                }
                i += 1;
                assert(list@ =~= head + reprojections(frames@, shown@, i as nat));
            }
            k += 1;
            assert(sightings(frames@, k as nat).len() == base + shown@.len());
        }
        proof {
            let ids = stereo_ids(all@);
            assert forall|id: usize| #[trigger] marks.contains(id) <==> ids.contains(id) by {
                if stereo(all@, id) {
                    let a = choose|a: int|
                        0 <= a < all@.len() && (#[trigger] all@[a]).camera == Camera::Left
                            && all@[a].feature.feature_id == id;
                    assert(all@[a].feature.feature_id == id);
                }
            }
            assert(marks =~= ids);
            assert forall|name: VarName| #[trigger] declared(frames@, name) implies exists|i: int|
                0 <= i < variables@.len() && (#[trigger] variables@[i]).name == name by {
                assert(added(name, frames@.len(), marks));
            }
        }
        let first = &frames[0];
        Problem {
            variables,
            blocks: list,
            T_B_Cl: first.state.T_B_Cl,
            T_B_Cr: first.state.T_B_Cr,
            focal_length: first.left_cam.fx(),
        }
    }
}

/// The features that a camera of the keyframe shows.
pub open spec fn image(frame: Frame, camera: Camera) -> Seq<Feature> {
    match camera {
        Camera::Left => frame.left_features@,
        Camera::Right => frame.right_features@,
    }
}

/// Whether a camera of the keyframe shows the feature.
pub open spec fn shows(frame: Frame, camera: Camera, id: usize) -> bool {
    exists|i: int|
        0 <= i < image(frame, camera).len() && (#[trigger] image(frame, camera)[i]).feature_id == id
}

/// Whether a camera of the keyframe shows the feature at these coordinates.
pub open spec fn shows_at(frame: Frame, camera: Camera, id: usize, coord: Coord) -> bool {
    exists|i: int|
        {
            &&& 0 <= i < image(frame, camera).len()
            &&& (#[trigger] image(frame, camera)[i]).feature_id == id
            &&& image(frame, camera)[i].undistorted_coord == coord
        }
}

/// Where the feature at index `i` of an image stands among what its keyframe shows.
spec fn place_in_frame(frame: Frame, camera: Camera, i: int) -> int {
    match camera {
        Camera::Left => i,
        Camera::Right => frame.left_features@.len() + i,
    }
}

/// The keyframe and the place in it that a sighting comes from.
proof fn lemma_sighting_origin(frames: Seq<Frame>, n: nat, a: int) -> (r: (int, int))
    requires
        n <= frames.len() <= usize::MAX,
        0 <= a < sightings(frames, n).len(),
    ensures
        0 <= r.0 < n,
        0 <= r.1 < frame_sightings(frames[r.0], r.0).len(),
        a == sightings(frames, r.0 as nat).len() + r.1,
        sightings(frames, n)[a] == frame_sightings(frames[r.0], r.0)[r.1],
        sightings(frames, n)[a].frame == r.0,
    decreases n,
{
    let earlier = sightings(frames, (n - 1) as nat);
    if a < earlier.len() {
        lemma_sighting_origin(frames, (n - 1) as nat, a)
    } else {
        (n - 1, a - earlier.len())
    }
}

/// What a keyframe shows is among the sightings, behind those of the keyframes
/// before it.
proof fn lemma_sighting_at(frames: Seq<Frame>, n: nat, k: int, camera: Camera, i: int) -> (a: int)
    requires
        0 <= k < n <= frames.len(),
        0 <= i < image(frames[k], camera).len(),
    ensures
        a == sightings(frames, k as nat).len() + place_in_frame(frames[k], camera, i),
        0 <= a < sightings(frames, n).len(),
        a < sightings(frames, (k + 1) as nat).len(),
        sightings(frames, n)[a] == (Sighting {
            frame: k as usize,
            camera,
            feature: image(frames[k], camera)[i],
        }),
{
    let before = sightings(frames, k as nat);
    let shown = frame_sightings(frames[k], k);
    let a = before.len() + place_in_frame(frames[k], camera, i);
    lemma_sightings_prefix(frames, (k + 1) as nat, n);
    assert(sightings(frames, (k + 1) as nat) == before + shown);
    assert(sightings(frames, (k + 1) as nat)[a] == shown[a - before.len()]);
    a
}

/// A camera saw a feature if one of the keyframes shows it.
proof fn lemma_seen_by_is_shown(frames: Seq<Frame>, camera: Camera, id: usize)
    requires
        frames.len() <= usize::MAX,
    ensures
        seen_by(sightings(frames, frames.len()), camera, id) <==> exists|k: int|
            0 <= k < frames.len() && shows(#[trigger] frames[k], camera, id),
{
    let s = sightings(frames, frames.len());
    if seen_by(s, camera, id) {
        let a = choose|a: int|
            0 <= a < s.len() && (#[trigger] s[a]).camera == camera && s[a].feature.feature_id == id;
        let (k, c) = lemma_sighting_origin(frames, frames.len(), a);
        let i = match camera {
            Camera::Left => c,
            Camera::Right => c - frames[k].left_features@.len(),
        };
        assert(image(frames[k], camera)[i].feature_id == id);
        assert(shows(frames[k], camera, id));
    }
    if exists|k: int| 0 <= k < frames.len() && shows(#[trigger] frames[k], camera, id) {
        let k = choose|k: int| 0 <= k < frames.len() && shows(#[trigger] frames[k], camera, id);
        let i = choose|i: int|
            0 <= i < image(frames[k], camera).len() && (
            #[trigger] image(frames[k], camera)[i]).feature_id == id;
        let a = lemma_sighting_at(frames, frames.len(), k, camera, i);
        assert(s[a].camera == camera && s[a].feature.feature_id == id);
    }
}

/// The landmarks of the graph are the features that both cameras saw: some keyframe
/// shows it in its left image and some keyframe, the same or another, in its right
/// image. Besides, every keyframe has a pose, and velocity and biases, and there are
/// no other variables.
pub proof fn graph_has_the_landmarks_of_both_cameras(frames: Seq<Frame>, id: usize, k: usize)
    requires
        frames.len() <= usize::MAX,
    ensures
        declared(frames, VarName::Landmark(id)) <==> (exists|i: int|
            0 <= i < frames.len() && shows(#[trigger] frames[i], Camera::Left, id)) && (exists|i: int|
            0 <= i < frames.len() && shows(#[trigger] frames[i], Camera::Right, id)),
        declared(frames, VarName::Pose(k)) <==> k < frames.len(),
        declared(frames, VarName::VelocityBias(k)) <==> k < frames.len(),
        !declared(frames, VarName::NewFrame),
{
    lemma_seen_by_is_shown(frames, Camera::Left, id);
    lemma_seen_by_is_shown(frames, Camera::Right, id);
}

/// The variables of a keyframe start from its own state: the pose from its pose,
/// velocity and biases from its velocity and its biases, each from its own.
pub proof fn keyframes_start_from_their_state(
    variables: Seq<Variable>,
    frames: Seq<Frame>,
    points: Map<usize, MapPoint>,
    i: int,
    k: usize,
)
    requires
        Problem::variables_of(variables, frames, points),
        0 <= i < variables.len(),
    ensures
        variables[i].name == VarName::Pose(k) ==> {
            &&& k < frames.len()
            &&& variables[i].initial is Pose
            &&& variables[i].initial->Pose_T_W_B == frames[k as int].state.T_W_B
        },
        variables[i].name == VarName::VelocityBias(k) ==> {
            &&& k < frames.len()
            &&& variables[i].initial is VelocityBias
            &&& variables[i].initial->velocity == frames[k as int].state.velocity
            &&& variables[i].initial->accel_bias == frames[k as int].state.accel_bias
            &&& variables[i].initial->gyro_bias == frames[k as int].state.gyro_bias
        },
{
    assert(declared(frames, variables[i].name));
    assert(starts_right(frames, points, variables[i]));
}

/// A landmark that the map has starts from its point there.
pub proof fn known_landmarks_start_from_the_map(
    variables: Seq<Variable>,
    frames: Seq<Frame>,
    points: Map<usize, MapPoint>,
    i: int,
    id: usize,
)
    requires
        Problem::variables_of(variables, frames, points),
        0 <= i < variables.len(),
        variables[i].name == VarName::Landmark(id),
    ensures
        variables[i].initial is Known <==> points.contains_key(id),
        points.contains_key(id) ==> variables[i].initial->point == points[id],
{
    assert(starts_right(frames, points, variables[i]));
}

/// Whether the feature at index `i` of an image of the keyframe at position `k` is
/// the first that shows this landmark: no keyframe before it does, in the keyframe
/// the left image comes first, and in the image nothing before it does.
pub open spec fn first_shown(
    frames: Seq<Frame>,
    k: int,
    camera: Camera,
    i: int,
    id: usize,
) -> bool {
    &&& 0 <= k < frames.len()
    &&& 0 <= i < image(frames[k], camera).len()
    &&& image(frames[k], camera)[i].feature_id == id
    &&& forall|j: int, c: Camera| 0 <= j < k ==> !#[trigger] shows(frames[j], c, id)
    &&& camera == Camera::Right ==> !shows(frames[k], Camera::Left, id)
    &&& forall|j: int|
        0 <= j < i ==> (#[trigger] image(frames[k], camera)[j]).feature_id != id
}

/// A landmark that the map does not have starts on the ray of its first sighting:
/// two metres before the camera that saw it, at the pose of the keyframe that shows
/// it.
pub proof fn new_landmarks_start_where_they_were_first_seen(
    variables: Seq<Variable>,
    frames: Seq<Frame>,
    points: Map<usize, MapPoint>,
    v: int,
    id: usize,
)
    requires
        frames.len() <= usize::MAX,
        Problem::variables_of(variables, frames, points),
        0 <= v < variables.len(),
        variables[v].name == VarName::Landmark(id),
        !points.contains_key(id),
    ensures
        variables[v].initial is Seen,
        exists|k: int, i: int|
            #[trigger] first_shown(frames, k, variables[v].initial->camera, i, id)
                && variables[v].initial->Seen_T_W_B == frames[k].state.T_W_B
                && variables[v].initial->coord == image(
                frames[k],
                variables[v].initial->camera,
            )[i].undistorted_coord,
        variables[v].initial->depth.bits == 0x4000_0000_0000_0000,
{
    assert(starts_right(frames, points, variables[v]));
    let s = sightings(frames, frames.len());
    let a = choose|a: int| #[trigger]
        is_first(s, a, id) && variables[v].initial == seen_at(frames, s[a]);
    let (k, c) = lemma_sighting_origin(frames, frames.len(), a);
    let camera = s[a].camera;
    let i = match camera {
        Camera::Left => c,
        Camera::Right => c - frames[k].left_features@.len(),
    };
    assert(image(frames[k], camera)[i] == s[a].feature);
    assert forall|j: int, d: Camera| 0 <= j < k implies !#[trigger] shows(frames[j], d, id) by {
        if shows(frames[j], d, id) {
            let x = choose|x: int|
                0 <= x < image(frames[j], d).len() && (
                #[trigger] image(frames[j], d)[x]).feature_id == id;
            let e = lemma_sighting_at(frames, frames.len(), j, d, x);
            lemma_sightings_prefix(frames, (j + 1) as nat, k as nat);
            assert(s[e].feature.feature_id == id);
        }
    }
    if camera == Camera::Right && shows(frames[k], Camera::Left, id) {
        let x = choose|x: int|
            0 <= x < image(frames[k], Camera::Left).len() && (
            #[trigger] image(frames[k], Camera::Left)[x]).feature_id == id;
        let e = lemma_sighting_at(frames, frames.len(), k, Camera::Left, x);
        assert(s[e].feature.feature_id == id);
    }
    assert forall|j: int| 0 <= j < i implies (
    #[trigger] image(frames[k], camera)[j]).feature_id != id by {
        let e = lemma_sighting_at(frames, frames.len(), k, camera, j);
        assert(s[e].feature == image(frames[k], camera)[j]);
    }
    assert(first_shown(frames, k, variables[v].initial->camera, i, id));
}

/// Whether the block may stand in the graph of the first `n` keyframes.
spec fn well_placed(frames: Seq<Frame>, initialized: bool, n: nat, b: Block) -> bool {
    match b {
        Block::Imu { frame, bias_a, bias_g } => {
            &&& 0 < frame < n
            &&& initialized
            &&& frames[frame as int].imu_preintegration is Some
            &&& bias_a == frames[frame as int].state.accel_bias
            &&& bias_g == frames[frame as int].state.gyro_bias
        },
        Block::Reprojection { frame, camera, landmark, coord, fixed_pose } => {
            &&& frame < n
            &&& stereo(sightings(frames, frames.len()), landmark)
            &&& fixed_pose is Some <==> frame == 0
            &&& fixed_pose is Some ==> fixed_pose->0 == frames[0].state.T_W_B
            &&& shows_at(frames[frame as int], camera, landmark, coord)
        },
    }
}

proof fn lemma_reprojections_well_placed(
    frames: Seq<Frame>,
    initialized: bool,
    k: int,
    n: nat,
    i: int,
)
    requires
        0 <= k < frames.len() <= usize::MAX,
        n <= frame_sightings(frames[k], k).len(),
        0 <= i < reprojections(frames, frame_sightings(frames[k], k), n).len(),
    ensures
        well_placed(
            frames,
            initialized,
            (k + 1) as nat,
            reprojections(frames, frame_sightings(frames[k], k), n)[i],
        ),
    decreases n,
{
    let shown = frame_sightings(frames[k], k);
    if n > 0 && i < reprojections(frames, shown, (n - 1) as nat).len() {
        lemma_reprojections_well_placed(frames, initialized, k, (n - 1) as nat, i);
    } else if n > 0 {
        let x = shown[n - 1];
        let j = match x.camera {
            Camera::Left => n - 1,
            Camera::Right => n - 1 - frames[k].left_features@.len(),
        };
        assert(image(frames[k], x.camera)[j] == x.feature);
    }
}

proof fn lemma_blocks_well_placed(frames: Seq<Frame>, initialized: bool, n: nat, i: int)
    requires
        n <= frames.len() <= usize::MAX,
        0 <= i < blocks(frames, initialized, n).len(),
    ensures
        well_placed(frames, initialized, n, blocks(frames, initialized, n)[i]),
    decreases n,
{
    if n > 0 {
        let k = n - 1;
        let before = blocks(frames, initialized, k as nat);
        let imu = imu_blocks(frames, initialized, k);
        let shown = frame_sightings(frames[k], k);
        if i < before.len() {
            lemma_blocks_well_placed(frames, initialized, k as nat, i);
        } else if i >= before.len() + imu.len() {
            lemma_reprojections_well_placed(
                frames,
                initialized,
                k,
                shown.len(),
                i - before.len() - imu.len(),
            );
        }
    }
}

/// Every variable that a block refers to is a variable of the graph.
pub proof fn blocks_refer_to_declared_variables(
    frames: Seq<Frame>,
    initialized: bool,
    i: int,
    j: int,
)
    requires
        frames.len() <= usize::MAX,
        0 <= i < blocks(frames, initialized, frames.len()).len(),
        0 <= j < blocks(frames, initialized, frames.len())[i].spec_variables().len(),
    ensures
        declared(frames, blocks(frames, initialized, frames.len())[i].spec_variables()[j]),
{
    lemma_blocks_well_placed(frames, initialized, frames.len(), i);
}

/// No reprojection moves the first keyframe: its pose is fixed in each of them,
/// and the pose of every other keyframe is a variable.
pub proof fn only_the_first_pose_is_fixed(frames: Seq<Frame>, initialized: bool, i: int)
    requires
        frames.len() <= usize::MAX,
        0 <= i < blocks(frames, initialized, frames.len()).len(),
        blocks(frames, initialized, frames.len())[i] is Reprojection,
    ensures
        ({
            let b = blocks(frames, initialized, frames.len())[i];
            &&& b->fixed_pose is Some <==> b->Reprojection_frame == 0
            &&& !b.spec_variables().contains(VarName::Pose(0))
            &&& b->Reprojection_frame > 0 ==> b.spec_variables().contains(
                VarName::Pose(b->Reprojection_frame),
            )
        }),
{
    lemma_blocks_well_placed(frames, initialized, frames.len(), i);
    let b = blocks(frames, initialized, frames.len())[i];
    let v = b.spec_variables();
    if b->Reprojection_frame > 0 {
        assert(v[1] == VarName::Pose(b->Reprojection_frame));
    }
}

/// Until the window is initialized, the graph has no IMU measurement; afterwards
/// each that it has ties a keyframe to the one before it.
pub proof fn imu_blocks_need_initialization(frames: Seq<Frame>, initialized: bool, i: int)
    requires
        frames.len() <= usize::MAX,
        0 <= i < blocks(frames, initialized, frames.len()).len(),
        blocks(frames, initialized, frames.len())[i] is Imu,
    ensures
        initialized,
        0 < blocks(frames, initialized, frames.len())[i]->Imu_frame < frames.len(),
        frames[blocks(
            frames,
            initialized,
            frames.len(),
        )[i]->Imu_frame as int].imu_preintegration is Some,
{
    lemma_blocks_well_placed(frames, initialized, frames.len(), i);
}

proof fn lemma_reprojection_stays(frames: Seq<Frame>, shown: Seq<Sighting>, n: nat, a: int)
    requires
        0 <= a < n <= shown.len(),
        stereo(sightings(frames, frames.len()), shown[a].feature.feature_id),
    ensures
        reprojections(frames, shown, n).contains(reprojection(frames, shown[a])),
    decreases n,
{
    let all = reprojections(frames, shown, n);
    let before = reprojections(frames, shown, (n - 1) as nat);
    let b = reprojection(frames, shown[a]);
    if a == n - 1 {
        assert(all[before.len() as int] == b);
    } else {
        lemma_reprojection_stays(frames, shown, (n - 1) as nat, a);
        let i = choose|i: int| 0 <= i < before.len() && before[i] == b;
        assert(all[i] == b);
    }
}

proof fn lemma_sighting_has_block(frames: Seq<Frame>, initialized: bool, n: nat, a: int)
    requires
        n <= frames.len(),
        0 <= a < sightings(frames, n).len(),
        stereo(sightings(frames, frames.len()), sightings(frames, n)[a].feature.feature_id),
    ensures
        blocks(frames, initialized, n).contains(reprojection(frames, sightings(frames, n)[a])),
    decreases n,
{
    let k = n - 1;
    let all = blocks(frames, initialized, n);
    let before = blocks(frames, initialized, k as nat);
    let imu = imu_blocks(frames, initialized, k);
    let shown = frame_sightings(frames[k], k);
    let earlier = sightings(frames, k as nat);
    let b = reprojection(frames, sightings(frames, n)[a]);
    if a < earlier.len() {
        lemma_sighting_has_block(frames, initialized, k as nat, a);
        let i = choose|i: int| 0 <= i < before.len() && before[i] == b;
        assert(all[i] == b);
    } else {
        let c = a - earlier.len();
        lemma_reprojection_stays(frames, shown, shown.len(), c);
        let last = reprojections(frames, shown, shown.len());
        let i = choose|i: int| 0 <= i < last.len() && last[i] == b;
        assert(all[before.len() + imu.len() + i] == b);
    }
}

/// Every landmark of the graph is held by a reprojection in each of the cameras.
pub proof fn landmarks_are_seen_by_both_cameras(
    frames: Seq<Frame>,
    initialized: bool,
    id: usize,
    camera: Camera,
)
    requires
        declared(frames, VarName::Landmark(id)),
    ensures
        exists|i: int|
            0 <= i < blocks(frames, initialized, frames.len()).len() && (#[trigger] blocks(
                frames,
                initialized,
                frames.len(),
            )[i] matches Block::Reprojection { landmark, camera: c, .. } && landmark == id && c
                == camera),
{
    let s = sightings(frames, frames.len());
    let all = blocks(frames, initialized, frames.len());
    assert(seen_by(s, camera, id));
    let a = choose|a: int|
        0 <= a < s.len() && (#[trigger] s[a]).camera == camera && s[a].feature.feature_id == id;
    lemma_sighting_has_block(frames, initialized, frames.len(), a);
    let i = choose|i: int| 0 <= i < all.len() && all[i] == reprojection(frames, s[a]);
    assert(all[i] is Reprojection);
}

/// The keyframe that a block belongs to.
pub open spec fn block_frame(b: Block) -> int {
    match b {
        Block::Imu { frame, .. } => frame as int,
        Block::Reprojection { frame, .. } => frame as int,
    }
}

/// A block holds what was measured: a reprojection the coordinates at which its
/// camera shows its landmark in its keyframe, with the pose of the first keyframe if
/// it is that one; an IMU measurement the biases of the keyframe up to which it was
/// made.
pub proof fn blocks_hold_what_was_measured(frames: Seq<Frame>, initialized: bool, i: int)
    requires
        frames.len() <= usize::MAX,
        0 <= i < blocks(frames, initialized, frames.len()).len(),
    ensures
        match blocks(frames, initialized, frames.len())[i] {
            Block::Imu { frame, bias_a, bias_g } => {
                &&& 0 < frame < frames.len()
                &&& bias_a == frames[frame as int].state.accel_bias
                &&& bias_g == frames[frame as int].state.gyro_bias
            },
            Block::Reprojection { frame, camera, landmark, coord, fixed_pose } => {
                &&& frame < frames.len()
                &&& shows_at(frames[frame as int], camera, landmark, coord)
                &&& frame == 0 ==> fixed_pose == Some(frames[0].state.T_W_B)
                &&& frame > 0 ==> fixed_pose is None
            },
        },
{
    lemma_blocks_well_placed(frames, initialized, frames.len(), i);
}

proof fn lemma_imu_block_stays(frames: Seq<Frame>, initialized: bool, n: nat, k: int)
    requires
        0 < k < n <= frames.len(),
        initialized,
        frames[k].imu_preintegration is Some,
    ensures
        blocks(frames, initialized, n).contains(
            Block::Imu {
                frame: k as usize,
                bias_a: frames[k].state.accel_bias,
                bias_g: frames[k].state.gyro_bias,
            },
        ),
    decreases n,
{
    let b = Block::Imu {
        frame: k as usize,
        bias_a: frames[k].state.accel_bias,
        bias_g: frames[k].state.gyro_bias,
    };
    let before = blocks(frames, initialized, (n - 1) as nat);
    let all = blocks(frames, initialized, n);
    if k < n - 1 {
        lemma_imu_block_stays(frames, initialized, (n - 1) as nat, k);
        let i = choose|i: int| 0 <= i < before.len() && before[i] == b;
        assert(all[i] == b);
    } else {
        assert(all[before.len() as int] == b);
    }
}

/// Nothing that was measured is left out: once the window is initialized, every
/// keyframe but the first has a block of its IMU measurement if it has one; and
/// every feature of every keyframe whose landmark both cameras saw has a block.
pub proof fn all_measurements_have_blocks(
    frames: Seq<Frame>,
    initialized: bool,
    k: int,
    camera: Camera,
    f: int,
)
    requires
        0 <= k < frames.len() <= usize::MAX,
    ensures
        initialized && k > 0 && frames[k].imu_preintegration is Some ==> blocks(
            frames,
            initialized,
            frames.len(),
        ).contains(
            Block::Imu {
                frame: k as usize,
                bias_a: frames[k].state.accel_bias,
                bias_g: frames[k].state.gyro_bias,
            },
        ),
        0 <= f < image(frames[k], camera).len() && declared(
            frames,
            VarName::Landmark(image(frames[k], camera)[f].feature_id),
        ) ==> blocks(frames, initialized, frames.len()).contains(
            Block::Reprojection {
                frame: k as usize,
                camera,
                landmark: image(frames[k], camera)[f].feature_id,
                coord: image(frames[k], camera)[f].undistorted_coord,
                fixed_pose: if k == 0 {
                    Some(frames[0].state.T_W_B)
                } else {
                    None
                },
            },
        ),
{
    if initialized && k > 0 && frames[k].imu_preintegration is Some {
        lemma_imu_block_stays(frames, initialized, frames.len(), k);
    }
    if 0 <= f < image(frames[k], camera).len() && declared(
        frames,
        VarName::Landmark(image(frames[k], camera)[f].feature_id),
    ) {
        let a = lemma_sighting_at(frames, frames.len(), k, camera, f);
        lemma_sighting_has_block(frames, initialized, frames.len(), a);
    }
}

proof fn lemma_reprojections_of_one_frame(frames: Seq<Frame>, k: int, n: nat, i: int)
    requires
        0 <= k < frames.len() <= usize::MAX,
        n <= frame_sightings(frames[k], k).len(),
        0 <= i < reprojections(frames, frame_sightings(frames[k], k), n).len(),
    ensures
        reprojections(frames, frame_sightings(frames[k], k), n)[i] is Reprojection,
        block_frame(reprojections(frames, frame_sightings(frames[k], k), n)[i]) == k,
    decreases n,
{
    let shown = frame_sightings(frames[k], k);
    if n > 0 && i < reprojections(frames, shown, (n - 1) as nat).len() {
        lemma_reprojections_of_one_frame(frames, k, (n - 1) as nat, i);
    }
}

proof fn lemma_blocks_in_order(frames: Seq<Frame>, initialized: bool, n: nat, i: int, j: int)
    requires
        n <= frames.len() <= usize::MAX,
        0 <= i < j < blocks(frames, initialized, n).len(),
    ensures
        block_frame(blocks(frames, initialized, n)[i]) <= block_frame(
            blocks(frames, initialized, n)[j],
        ),
        blocks(frames, initialized, n)[j] is Imu ==> block_frame(blocks(frames, initialized, n)[i])
            < block_frame(blocks(frames, initialized, n)[j]),
    decreases n,
{
    if n > 0 {
        let k = n - 1;
        let before = blocks(frames, initialized, k as nat);
        let imu = imu_blocks(frames, initialized, k);
        let shown = frame_sightings(frames[k], k);
        let last = reprojections(frames, shown, shown.len());
        let all = blocks(frames, initialized, n);
        if j < before.len() {
            lemma_blocks_in_order(frames, initialized, k as nat, i, j);
        } else {
            if j >= before.len() + imu.len() {
                lemma_reprojections_of_one_frame(
                    frames,
                    k,
                    shown.len(),
                    j - before.len() - imu.len(),
                );
            }
            if i < before.len() {
                lemma_blocks_well_placed(frames, initialized, k as nat, i);
                assert(all[i] == before[i]);
            } else if i >= before.len() + imu.len() {
                lemma_reprojections_of_one_frame(
                    frames,
                    k,
                    shown.len(),
                    i - before.len() - imu.len(),
                );
            }
        }
    }
}

/// The blocks come keyframe by keyframe, and in each keyframe the IMU measurement
/// comes first. So no keyframe has two of these.
pub proof fn blocks_come_keyframe_by_keyframe(
    frames: Seq<Frame>,
    initialized: bool,
    i: int,
    j: int,
)
    requires
        frames.len() <= usize::MAX,
        0 <= i < j < blocks(frames, initialized, frames.len()).len(),
    ensures
        block_frame(blocks(frames, initialized, frames.len())[i]) <= block_frame(
            blocks(frames, initialized, frames.len())[j],
        ),
        blocks(frames, initialized, frames.len())[j] is Imu ==> block_frame(
            blocks(frames, initialized, frames.len())[i],
        ) < block_frame(blocks(frames, initialized, frames.len())[j]),
{
    lemma_blocks_in_order(frames, initialized, frames.len(), i, j);
}

/// An IMU measurement ties a keyframe to the one right before it, with all that is
/// estimated of the two, the earlier one first: what ends one measurement begins the
/// measurement up to the next keyframe.
pub proof fn imu_measurements_chain_the_keyframes(a: Block, b: Block)
    requires
        a is Imu,
        b is Imu,
        a->Imu_frame > 0,
        b->Imu_frame == a->Imu_frame + 1,
    ensures
        a.spec_variables().len() == 4,
        a.spec_variables()[0] == VarName::Pose((a->Imu_frame - 1) as usize),
        a.spec_variables()[1] == VarName::VelocityBias((a->Imu_frame - 1) as usize),
        a.spec_variables()[2] == VarName::Pose(a->Imu_frame),
        a.spec_variables()[3] == VarName::VelocityBias(a->Imu_frame),
        b.spec_variables().take(2) == a.spec_variables().skip(2),
{
    assert(b.spec_variables().take(2) =~= a.spec_variables().skip(2));
}

/// A reprojection ties its landmark to the pose of its own keyframe, or moves the
/// landmark alone where the pose is fixed.
pub proof fn reprojections_tie_landmark_and_pose(b: Block)
    requires
        b is Reprojection,
    ensures
        b.spec_variables().first() == VarName::Landmark(b->landmark),
        b->fixed_pose is None ==> b.spec_variables().len() == 2 && b.spec_variables()[1]
            == VarName::Pose(b->Reprojection_frame),
        b->fixed_pose is Some ==> b.spec_variables().len() == 1,
{
}

/// The number of columns that the solver gives a variable: six for a pose, first
/// its translation and then its rotation; nine for velocity, accelerometer bias and
/// gyroscope bias; three for a landmark.
pub open spec fn tangent_dimension(name: VarName) -> int {
    match name {
        VarName::Pose(_) => 6,
        VarName::NewFrame => 6,
        VarName::VelocityBias(_) => 9,
        VarName::Landmark(_) => 3,
    }
}

/// The column at which the variable at index `i` begins, where the variables stand
/// side by side.
pub open spec fn first_column(variables: Seq<VarName>, i: int) -> int
    decreases i,
{
    if i <= 0 {
        0
    } else {
        first_column(variables, i - 1) + tangent_dimension(variables[i - 1])
    }
}

/// The column of a Jacobian in which the solver expects a part of the state of one
/// of the keyframes of an IMU measurement.
pub open spec fn solver_column(block: Block, part: Part, side: Side) -> int {
    let v = block.spec_variables();
    let pose = match side {
        Side::From => 0int,
        Side::To => 2,
    };
    match part {
        Part::Position => first_column(v, pose),
        Part::Rotation => first_column(v, pose) + 3,
        Part::Velocity => first_column(v, pose + 1),
        Part::AccelBias => first_column(v, pose + 1) + 3,
        Part::GyroBias => first_column(v, pose + 1) + 6,
    }
}

/// Whether the columns of a measurement in this layout are those in which the
/// solver expects them.
pub open spec fn suits_solver(layout: Layout, block: Block) -> bool {
    forall|part: Part, side: Side| #[trigger]
        solver_column(block, part, side) == layout.at(part) + side.offset()
}

/// The solver reads an IMU measurement rightly if it is in the tangent layout, and
/// in no other: there position and rotation stand in the six columns of a pose,
/// velocity and biases in the nine columns behind it.
pub proof fn only_the_tangent_layout_suits_the_solver(layout: Layout, block: Block)
    requires
        block is Imu,
    ensures
        suits_solver(layout, block) <==> layout == Layout::spec_tangent(),
        first_column(block.spec_variables(), 4) == IMU_COLUMNS,
{
    reveal_with_fuel(first_column, 5);
    let v = block.spec_variables();
    assert(v.len() == 4);
    assert(first_column(v, 1) == 6 && first_column(v, 2) == 15 && first_column(v, 3) == 21
        && first_column(v, 4) == 30);
    if suits_solver(layout, block) {
        assert(solver_column(block, Part::Position, Side::From) == layout.idx_p);
        assert(solver_column(block, Part::Rotation, Side::From) == layout.idx_r);
        assert(solver_column(block, Part::Velocity, Side::From) == layout.idx_v);
        assert(solver_column(block, Part::AccelBias, Side::From) == layout.idx_ba);
        assert(solver_column(block, Part::GyroBias, Side::From) == layout.idx_bg);
    }
}

/// The Jacobian of a reprojection has the columns of its variables: three for the
/// landmark, and six behind them unless the pose is fixed.
pub proof fn reprojections_have_the_columns_of_their_variables(
    block: Block,
    f: BundleAdjustmentFactor,
    depth: Scalar,
    residual: Vector2,
    by_point: Matrix2x3,
    by_rotation: Matrix2x3,
)
    requires
        block is Reprojection,
        f.fixed_pose is Some <==> block->fixed_pose is Some,
    ensures
        ({
            let v = block.spec_variables();
            let j = f.spec_linearize(depth, residual, by_point, by_rotation, true).jacobian;
            j is Some && Matrix::has_shape(j->0, 2, first_column(v, v.len() as int) as nat)
        }),
{
    reveal_with_fuel(first_column, 3);
}

} // verus!
