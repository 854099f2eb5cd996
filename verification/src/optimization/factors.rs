//! The factors of the factor graphs.
//!
//! A factor holds its measurement. From the parameters that the solver hands it,
//! it takes the variables it constrains; from the numbers that were computed
//! with them it assembles its residual and its Jacobian.
use crate::estimator::frame::Frame;
use crate::estimator::solution;
use crate::imu;
use crate::imu::factors::hat;
use crate::imu::piecewise_integration::{Layout, Part, PreInt, TransitionBlocks};
use crate::linalg::{Entries, Matrix, Matrix3x3, Matrix4x4, Quaternion, Vector2, Vector3};
use crate::scalar::Scalar;
use vstd::prelude::*;

verus! {

/// A 2x2 matrix, by rows.
#[derive(Clone, Copy, Debug, PartialEq, Eq, Structural)]
pub struct Matrix2x2 {
    pub r0: Vector2,
    pub r1: Vector2,
}

/// A 2x3 matrix, by rows: the derivative of a point of the image plane with
/// respect to three variables.
#[derive(Clone, Copy, Debug, PartialEq, Eq, Structural)]
pub struct Matrix2x3 {
    pub r0: Vector3,
    pub r1: Vector3,
}

impl Matrix2x3 {
    /// The entry at row `i` and column `j`.
    pub open spec fn at(self, i: int, j: int) -> Scalar {
        if i == 0 {
            self.r0.at(j)
        } else {
            self.r1.at(j)
        }
    }

    /// The blocks side by side.
    pub open spec fn beside(blocks: Seq<Matrix2x3>) -> Entries {
        Seq::new(
            2,
            |i: int| Seq::new(3 * blocks.len(), |j: int| blocks[j / 3].at(i, j % 3)),
        )
    }
}

/// The solver's parameters of a pose: translation, then the unit quaternion with
/// its real part first.
#[derive(Clone, Copy, Debug, PartialEq, Eq, Structural)]
pub struct Pose {
    pub translation: Vector3,
    pub rotation: Quaternion,
}

/// Where the pose of the body comes from.
#[derive(Clone, Copy, Debug, PartialEq, Eq, Structural)]
pub enum BodyPose {
    /// It is part of the measurement.
    Fixed(Matrix4x4),
    /// It is a variable.
    Variable(Pose),
}

/// Three entries of `p` from index `i` on.
pub open spec fn spec_vector3_at(p: Seq<Scalar>, i: int) -> Vector3 {
    Vector3 { x: p[i], y: p[i + 1], z: p[i + 2] }
}

/// The pose whose parameters are `p`.
pub open spec fn spec_pose(p: Seq<Scalar>) -> Pose {
    Pose {
        translation: spec_vector3_at(p, 0),
        rotation: Quaternion { w: p[3], i: p[4], j: p[5], k: p[6] },
    }
}

/// Three entries of `p` from index `i` on.
fn vector3_at(p: &Vec<Scalar>, i: usize) -> (r: Vector3)
    requires
        i + 3 <= p@.len(),
    ensures
        r == spec_vector3_at(p@, i as int),
{
    let n = p.len();
    assert(i + 2 < n);
    Vector3 { x: p[i], y: p[i + 1], z: p[i + 2] }
}

/// The pose whose parameters are `p`.
fn pose_of(p: &Vec<Scalar>) -> (r: Pose)
    requires
        p@.len() == 7,
    ensures
        r == spec_pose(p@),
{
    Pose {
        translation: vector3_at(p, 0),
        rotation: Quaternion { w: p[3], i: p[4], j: p[5], k: p[6] },
    }
}

/// Whether the parameters are as many vectors as `lens` has entries, of these
/// lengths.
pub open spec fn have_lengths(params: Seq<Vec<Scalar>>, lens: Seq<int>) -> bool {
    &&& params.len() == lens.len()
    &&& forall|i: int| 0 <= i < lens.len() ==> (#[trigger] params[i])@.len() == lens[i]
}

/// The two entries of a residual.
fn two(v: &Vector2) -> (r: Vec<Scalar>)
    ensures
        r@ == seq![v.x, v.y],
{
    let mut r: Vec<Scalar> = Vec::new();
    r.push(v.x);
    r.push(v.y);
    assert(r@ =~= seq![v.x, v.y]);
    r
}

/// The blocks side by side.
fn beside(blocks: &Vec<Matrix2x3>) -> (r: Matrix)
    requires
        blocks@.len() <= 3,
    ensures
        r.wf(),
        r@ == Matrix2x3::beside(blocks@),
{
    let n = blocks.len();
    let mut m = Matrix::zeros(2, 3 * n);
    let mut k: usize = 0;
    while k < n
        invariant
            k <= n,
            n == blocks@.len(),
            n <= 3,
            m.wf(),
            m@.len() == 2,
            m.cols() == 3 * n,
            forall|i: int, j: int|
                0 <= i < 2 && 0 <= j < 3 * k ==> #[trigger] m@[i][j] == blocks@[j / 3].at(i, j % 3),
        decreases n - k,
    {
        let b = blocks[k];
        m.set(0, 3 * k, b.r0.x);
        m.set(0, 3 * k + 1, b.r0.y);
        m.set(0, 3 * k + 2, b.r0.z);
        m.set(1, 3 * k, b.r1.x);
        m.set(1, 3 * k + 1, b.r1.y);
        m.set(1, 3 * k + 2, b.r1.z);
        k += 1;
    }
    assert(m@ =~~= Matrix2x3::beside(blocks@));
    m
}

/// The derivative of the pinhole projection `[x/z, y/z]` with respect to the
/// point, from `1/z`, `-x/z^2` and `-y/z^2`.
pub fn projection_jacobian(inv_z: Scalar, dx_dz: Scalar, dy_dz: Scalar) -> (r: Matrix2x3)
    ensures
        r.at(0, 0) == inv_z,
        r.at(0, 1) == Scalar::spec_zero(),
        r.at(0, 2) == dx_dz,
        r.at(1, 0) == Scalar::spec_zero(),
        r.at(1, 1) == inv_z,
        r.at(1, 2) == dy_dz,
{
    let o = Scalar::zero();
    Matrix2x3 {
        r0: Vector3 { x: inv_z, y: o, z: dx_dz },
        r1: Vector3 { x: o, y: inv_z, z: dy_dz },
    }
}

/// The matrix whose product with a vector is the cross product of `v` with it.
pub fn skew_symmetric(v: &Vector3) -> (r: Matrix3x3)
    ensures
        r == imu::factors::spec_hat(*v),
{
    hat(v)
}

/// What a factor gives the solver.
pub struct Linearization {
    pub residual: Seq<Scalar>,
    pub jacobian: Option<Entries>,
}

impl Linearization {
    /// This residual, and a Jacobian made of these blocks if it is wanted.
    pub open spec fn of(residual: Vector2, blocks: Seq<Matrix2x3>, wanted: bool) -> Linearization {
        Linearization {
            residual: seq![residual.x, residual.y],
            jacobian: if wanted {
                Some(Matrix2x3::beside(blocks))
            } else {
                None
            },
        }
    }

    /// Whether these vectors and matrices are the ones meant.
    pub open spec fn is_given_by(self, r: (Vec<Scalar>, Option<Matrix>)) -> bool {
        &&& r.0@ == self.residual
        &&& match (r.1, self.jacobian) {
            (Some(m), Some(entries)) => m.wf() && m@ == entries,
            (None, None) => true,
            _ => false,
        }
    }
}

/// The columns of `m` from `from` on and before `to`.
pub open spec fn columns(m: Entries, from: int, to: int) -> Entries {
    Seq::new(m.len(), |i: int| m[i].subrange(from, to))
}

/// The Jacobian made of these blocks, if it is wanted.
fn jacobian_if(wanted: bool, blocks: &Vec<Matrix2x3>) -> (r: Option<Matrix>)
    requires
        blocks@.len() <= 3,
    ensures
        r is Some <==> wanted,
        r matches Some(m) ==> m.wf() && m@ == Matrix2x3::beside(blocks@),
{
    if wanted {
        Some(beside(blocks))
    } else {
        None
    }
}

/// Constrains a point of the world by where a camera at a known pose saw it.
///
/// The residual is the projection of the point less the observation.
#[derive(Clone, Copy, Debug, PartialEq, Eq, Structural)]
pub struct PinholeProjectionFactor {
    /// Where the point was seen, in normalized coordinates.
    pub observation: Vector2,
    /// Camera-from-world transform.
    pub T_C_W: Matrix4x4,
}

impl PinholeProjectionFactor {
    pub fn new(observation: Vector2, T_C_W: Matrix4x4) -> (r: PinholeProjectionFactor)
        ensures
            r.observation == observation,
            r.T_C_W == T_C_W,
    {
        PinholeProjectionFactor { observation, T_C_W }
    }

    /// The point of the world, if the parameters are one vector of three.
    pub fn unpack(&self, params: &Vec<Vec<Scalar>>) -> (r: Option<Vector3>)
        ensures
            r == (if have_lengths(params@, seq![3]) {
                Some(spec_vector3_at(params@[0]@, 0))
            } else {
                None
            }),
    {
        if params.len() == 1 && params[0].len() == 3 {
            assert(have_lengths(params@, seq![3]));
            Some(vector3_at(&params[0], 0))
        } else {
            assert(params@.len() == 1 ==> params@[0]@.len() != 3);
            None
        }
    }

    /// Residual and, if it is wanted, Jacobian with respect to the point.
    pub fn linearize(
        &self,
        residual: &Vector2,
        by_point: &Matrix2x3,
        compute_jacobian: bool,
    ) -> (r: (Vec<Scalar>, Option<Matrix>))
        ensures
            Linearization::of(*residual, seq![*by_point], compute_jacobian).is_given_by(r),
    {
        let mut blocks: Vec<Matrix2x3> = Vec::new();
        blocks.push(*by_point);
        assert(blocks@ =~= seq![*by_point]);
        (two(residual), jacobian_if(compute_jacobian, &blocks))
    }

    /// The residual has two entries.
    pub fn get_dimension(&self) -> (r: usize)
        ensures
            r == 2,
    {
        2
    }
}

/// Constrains a point of the world and the translation of the body by where a
/// camera on the body saw the point. The body does not turn.
///
/// The residual is the observation less the projection of the point.
#[derive(Clone, Copy, Debug, PartialEq, Eq, Structural)]
pub struct BundleAdjustmentFactorTranslationOnly {
    /// Where the point was seen, in normalized coordinates.
    pub observation: Vector2,
    /// Camera-from-body transform.
    pub T_C_B: Matrix4x4,
    /// The translation of the body, if it is not a variable.
    pub fixed_position: Option<Vector3>,
}

impl BundleAdjustmentFactorTranslationOnly {
    pub fn new(observation: Vector2, T_C_B: Matrix4x4) -> (r:
        BundleAdjustmentFactorTranslationOnly)
        ensures
            r.observation == observation,
            r.T_C_B == T_C_B,
            r.fixed_position is None,
    {
        BundleAdjustmentFactorTranslationOnly { observation, T_C_B, fixed_position: None }
    }

    /// The factor with this translation of the body, which is then no variable.
    pub fn with_fixed_position(self, position: Vector3) -> (r:
        BundleAdjustmentFactorTranslationOnly)
        ensures
            r == (BundleAdjustmentFactorTranslationOnly { fixed_position: Some(position), ..self }),
    {
        BundleAdjustmentFactorTranslationOnly {
            observation: self.observation,
            T_C_B: self.T_C_B,
            fixed_position: Some(position),
        }
    }

    /// The point of the world and the translation of the body. The parameters
    /// are one vector of three if the translation is fixed, else two.
    pub fn unpack(&self, params: &Vec<Vec<Scalar>>) -> (r: Option<(Vector3, Vector3)>)
        ensures
            r == (match self.fixed_position {
                Some(t) => if have_lengths(params@, seq![3]) {
                    Some((spec_vector3_at(params@[0]@, 0), t))
                } else {
                    None
                },
                None => if have_lengths(params@, seq![3, 3]) {
                    Some((spec_vector3_at(params@[0]@, 0), spec_vector3_at(params@[1]@, 0)))
                } else {
                    None
                },
            }),
    {
        match self.fixed_position {
            Some(t) => {
                if params.len() == 1 && params[0].len() == 3 {
                    assert(have_lengths(params@, seq![3]));
                    Some((vector3_at(&params[0], 0), t))
                } else {
                    assert(params@.len() == 1 ==> params@[0]@.len() != 3);
                    None
                }
            },
            None => {
                if params.len() == 2 && params[0].len() == 3 && params[1].len() == 3 {
                    assert(have_lengths(params@, seq![3, 3]));
                    Some((vector3_at(&params[0], 0), vector3_at(&params[1], 0)))
                } else {
                    assert(params@.len() == 2 ==> params@[0]@.len() != 3 || params@[1]@.len() != 3);
                    None
                }
            },
        }
    }

    /// Residual and, if it is wanted, Jacobian with respect to the point and, if it
    /// is a variable, to the translation of the body: both move the projection in
    /// the same way.
    pub open spec fn spec_linearize(
        self,
        residual: Vector2,
        by_point: Matrix2x3,
        compute_jacobian: bool,
    ) -> Linearization {
        Linearization::of(
            residual,
            if self.fixed_position is Some {
                seq![by_point]
            } else {
                seq![by_point, by_point]
            },
            compute_jacobian,
        )
    }

    /// Residual and, if it is wanted, Jacobian. The point and the translation of
    /// the body move the projection in the same way.
    pub fn linearize(
        &self,
        residual: &Vector2,
        by_point: &Matrix2x3,
        compute_jacobian: bool,
    ) -> (r: (Vec<Scalar>, Option<Matrix>))
        ensures
            self.spec_linearize(*residual, *by_point, compute_jacobian).is_given_by(r),
    {
        let mut blocks: Vec<Matrix2x3> = Vec::new();
        blocks.push(*by_point);
        if self.fixed_position.is_none() {
            blocks.push(*by_point);
            assert(blocks@ =~= seq![*by_point, *by_point]);
        } else {
            assert(blocks@ =~= seq![*by_point]);
        }
        (two(residual), jacobian_if(compute_jacobian, &blocks))
    }

    /// The residual has two entries.
    pub fn get_dimension(&self) -> (r: usize)
        ensures
            r == 2,
    {
        2
    }
}

/// Constrains a point of the world and the pose of the body by where a camera on
/// the body saw the point.
///
/// The residual is the observation less the projection of the point.
#[derive(Clone, Copy, Debug, PartialEq, Eq, Structural)]
pub struct BundleAdjustmentFactor {
    /// Where the point was seen, in normalized coordinates.
    pub observation: Vector2,
    /// Camera-from-body transform.
    pub T_C_B: Matrix4x4,
    /// The body-from-world transform, if it is not a variable.
    pub fixed_pose: Option<Matrix4x4>,
    /// Square root of the information of the observation, if it is weighted.
    pub sqrt_info: Option<Matrix2x2>,
}

/// The residual of a point behind the camera, in each of its entries: 1e6.
pub open spec fn behind_camera_residual() -> Scalar {
    Scalar { bits: 0x412e_8480_0000_0000 }
}

impl BundleAdjustmentFactor {
    pub fn new(
        observation: Vector2,
        T_C_B: Matrix4x4,
        sqrt_info: Option<Matrix2x2>,
    ) -> (r: BundleAdjustmentFactor)
        ensures
            r.observation == observation,
            r.T_C_B == T_C_B,
            r.fixed_pose is None,
            r.sqrt_info == sqrt_info,
    {
        BundleAdjustmentFactor { observation, T_C_B, fixed_pose: None, sqrt_info }
    }

    /// The factor with this body-from-world transform, which is then no
    /// variable: only the point is optimized.
    pub fn with_fixed_pose(self, T_B_W: Matrix4x4) -> (r: BundleAdjustmentFactor)
        ensures
            r == (BundleAdjustmentFactor { fixed_pose: Some(T_B_W), ..self }),
    {
        BundleAdjustmentFactor {
            observation: self.observation,
            T_C_B: self.T_C_B,
            fixed_pose: Some(T_B_W),
            sqrt_info: self.sqrt_info,
        }
    }

    /// The point of the world and the pose of the body. The parameters are one
    /// vector of three if the pose is fixed, else one of three and one of seven.
    pub fn unpack(&self, params: &Vec<Vec<Scalar>>) -> (r: Option<(Vector3, BodyPose)>)
        ensures
            r == (match self.fixed_pose {
                Some(t) => if have_lengths(params@, seq![3]) {
                    Some((spec_vector3_at(params@[0]@, 0), BodyPose::Fixed(t)))
                } else {
                    None
                },
                None => if have_lengths(params@, seq![3, 7]) {
                    Some(
                        (
                            spec_vector3_at(params@[0]@, 0),
                            BodyPose::Variable(spec_pose(params@[1]@)),
                        ),
                    )
                } else {
                    None
                },
            }),
    {
        match self.fixed_pose {
            Some(t) => {
                if params.len() == 1 && params[0].len() == 3 {
                    assert(have_lengths(params@, seq![3]));
                    Some((vector3_at(&params[0], 0), BodyPose::Fixed(t)))
                } else {
                    assert(params@.len() == 1 ==> params@[0]@.len() != 3);
                    None
                }
            },
            None => {
                if params.len() == 2 && params[0].len() == 3 && params[1].len() == 7 {
                    assert(have_lengths(params@, seq![3, 7]));
                    Some((vector3_at(&params[0], 0), BodyPose::Variable(pose_of(&params[1]))))
                } else {
                    assert(params@.len() == 2 ==> params@[0]@.len() != 3 || params@[1]@.len() != 7);
                    None
                }
            },
        }
    }

    /// Whether the camera cannot have seen a point at this depth.
    pub fn is_behind_camera(depth: &Scalar) -> (r: bool)
        ensures
            r == depth.at_most(Scalar::spec_zero()),
    {
        depth.le(&Scalar::zero())
    }

    /// The weight of residual and Jacobian: the square root of the information,
    /// if there is one. The constant residual of a point behind the camera is not
    /// weighted.
    pub fn weight(&self, depth: &Scalar) -> (r: Option<Matrix2x2>)
        ensures
            r == (if depth.at_most(Scalar::spec_zero()) {
                None
            } else {
                self.sqrt_info
            }),
    {
        if BundleAdjustmentFactor::is_behind_camera(depth) {
            None
        } else {
            self.sqrt_info
        }
    }

    /// Residual and Jacobian with respect to the point, then to the translation
    /// and to the rotation of the body if the pose is a variable. The
    /// translation moves the projection as the point does.
    ///
    /// A point behind the camera has a large constant residual, and a Jacobian
    /// of zeros whether it is wanted or not.
    pub open spec fn spec_linearize(
        self,
        depth: Scalar,
        residual: Vector2,
        by_point: Matrix2x3,
        by_rotation: Matrix2x3,
        compute_jacobian: bool,
    ) -> Linearization {
        if depth.at_most(Scalar::spec_zero()) {
            Linearization {
                residual: seq![behind_camera_residual(), behind_camera_residual()],
                jacobian: Some(
                    Matrix::spec_zeros(
                        2,
                        if self.fixed_pose is Some {
                            3
                        } else {
                            9
                        },
                    ),
                ),
            }
        } else {
            Linearization::of(
                residual,
                if self.fixed_pose is Some {
                    seq![by_point]
                } else {
                    seq![by_point, by_point, by_rotation]
                },
                compute_jacobian,
            )
        }
    }

    /// Residual and Jacobian with respect to the point, then to the translation
    /// and to the rotation of the body if the pose is a variable.
    ///
    /// A point behind the camera has a large constant residual, and a Jacobian
    /// of zeros whether it is wanted or not.
    pub fn linearize(
        &self,
        depth: &Scalar,
        residual: &Vector2,
        by_point: &Matrix2x3,
        by_rotation: &Matrix2x3,
        compute_jacobian: bool,
    ) -> (r: (Vec<Scalar>, Option<Matrix>))
        ensures
            self.spec_linearize(
                *depth,
                *residual,
                *by_point,
                *by_rotation,
                compute_jacobian,
            ).is_given_by(r),
    {
        if BundleAdjustmentFactor::is_behind_camera(depth) {
            let far = Scalar::from_bits(0x412e_8480_0000_0000);
            let cols: usize = if self.fixed_pose.is_some() {
                3
            } else {
                9
            };
            return (two(&Vector2 { x: far, y: far }), Some(Matrix::zeros(2, cols)));
        }
        let mut blocks: Vec<Matrix2x3> = Vec::new();
        blocks.push(*by_point);
        if self.fixed_pose.is_none() {
            blocks.push(*by_point);
            blocks.push(*by_rotation);
            assert(blocks@ =~= seq![*by_point, *by_point, *by_rotation]);
        } else {
            assert(blocks@ =~= seq![*by_point]);
        }
        (two(residual), jacobian_if(compute_jacobian, &blocks))
    }

    /// The residual has two entries.
    pub fn get_dimension(&self) -> (r: usize)
        ensures
            r == 2,
    {
        2
    }
}

/// Constrains the pose of the body by where a camera on it saw a known point of
/// the world.
///
/// The residual is the observation less the projection of the point.
#[derive(Clone, Copy, Debug, PartialEq, Eq, Structural)]
pub struct PnPFactor {
    /// Where the point was seen, in normalized coordinates.
    pub observation: Vector2,
    /// Camera-from-body transform.
    pub T_C_B: Matrix4x4,
    /// The point, in world coordinates.
    pub p_W: Vector3,
}

impl PnPFactor {
    pub fn new(observation: Vector2, T_C_B: Matrix4x4, p_W: Vector3) -> (r: PnPFactor)
        ensures
            r.observation == observation,
            r.T_C_B == T_C_B,
            r.p_W == p_W,
    {
        PnPFactor { observation, T_C_B, p_W }
    }

    /// The pose of the body, if the parameters are one vector of seven.
    pub fn unpack(&self, params: &Vec<Vec<Scalar>>) -> (r: Option<Pose>)
        ensures
            r == (if have_lengths(params@, seq![7]) {
                Some(spec_pose(params@[0]@))
            } else {
                None
            }),
    {
        if params.len() == 1 && params[0].len() == 7 {
            assert(have_lengths(params@, seq![7]));
            Some(pose_of(&params[0]))
        } else {
            assert(params@.len() == 1 ==> params@[0]@.len() != 7);
            None
        }
    }

    /// Residual and, if it is wanted, Jacobian with respect to the translation
    /// and then to the rotation of the body.
    pub open spec fn spec_linearize(
        self,
        residual: Vector2,
        by_translation: Matrix2x3,
        by_rotation: Matrix2x3,
        compute_jacobian: bool,
    ) -> Linearization {
        Linearization::of(residual, seq![by_translation, by_rotation], compute_jacobian)
    }

    /// Residual and, if it is wanted, Jacobian with respect to the translation
    /// and then to the rotation of the body.
    pub fn linearize(
        &self,
        residual: &Vector2,
        by_translation: &Matrix2x3,
        by_rotation: &Matrix2x3,
        compute_jacobian: bool,
    ) -> (r: (Vec<Scalar>, Option<Matrix>))
        ensures
            self.spec_linearize(
                *residual,
                *by_translation,
                *by_rotation,
                compute_jacobian,
            ).is_given_by(r),
    {
        let mut blocks: Vec<Matrix2x3> = Vec::new();
        blocks.push(*by_translation);
        blocks.push(*by_rotation);
        assert(blocks@ =~= seq![*by_translation, *by_rotation]);
        (two(residual), jacobian_if(compute_jacobian, &blocks))
    }

    /// The residual has two entries.
    pub fn get_dimension(&self) -> (r: usize)
        ensures
            r == 2,
    {
        2
    }
}

/// Blocks that stand side by side have three columns each, in their order.
pub proof fn blocks_stand_side_by_side(blocks: Seq<Matrix2x3>, k: int, i: int, c: int)
    requires
        0 <= k < blocks.len(),
        0 <= i < 2,
        0 <= c < 3,
    ensures
        Matrix2x3::beside(blocks)[i][3 * k + c] == blocks[k].at(i, c),
        Matrix::has_shape(Matrix2x3::beside(blocks), 2, 3 * blocks.len()),
{
    assert((3 * k + c) / 3 == k && (3 * k + c) % 3 == c);
}

/// What a camera saw constrains point and pose: the residual is handed on as it is,
/// and the Jacobian, which is there exactly if it is wanted, has the derivative by
/// the point in the first three columns, the same by the translation in the next
/// three and the derivative by the rotation in the last. Behind the camera there is
/// a residual of a million and a Jacobian of zeros, wanted or not.
pub proof fn bundle_adjustment_by_columns(
    f: BundleAdjustmentFactor,
    depth: Scalar,
    residual: Vector2,
    by_point: Matrix2x3,
    by_rotation: Matrix2x3,
    compute_jacobian: bool,
    i: int,
    c: int,
)
    requires
        f.fixed_pose is None,
        0 <= i < 2,
        0 <= c < 3,
    ensures
        ({
            let l = f.spec_linearize(depth, residual, by_point, by_rotation, compute_jacobian);
            &&& l.residual.len() == 2
            &&& depth.at_most(Scalar::spec_zero()) ==> {
                &&& l.residual[i].bits == 0x412e_8480_0000_0000
                &&& l.jacobian is Some
                &&& l.jacobian->0[i][c] == Scalar::spec_zero()
                &&& l.jacobian->0[i][3 + c] == Scalar::spec_zero()
                &&& l.jacobian->0[i][6 + c] == Scalar::spec_zero()
            }
            &&& !depth.at_most(Scalar::spec_zero()) ==> {
                &&& l.residual[0] == residual.x && l.residual[1] == residual.y
                &&& l.jacobian is Some <==> compute_jacobian
                &&& compute_jacobian ==> {
                    &&& l.jacobian->0[i][c] == by_point.at(i, c)
                    &&& l.jacobian->0[i][3 + c] == by_point.at(i, c)
                    &&& l.jacobian->0[i][6 + c] == by_rotation.at(i, c)
                }
            }
        }),
{
    let b = seq![by_point, by_point, by_rotation];
    blocks_stand_side_by_side(b, 0, i, c);
    blocks_stand_side_by_side(b, 1, i, c);
    blocks_stand_side_by_side(b, 2, i, c);
}

/// Fixing the pose leaves the residual as it is, and of the Jacobian the first
/// three columns: those of the point. This holds behind the camera too.
pub proof fn fixing_the_pose_keeps_the_point_columns(
    f: BundleAdjustmentFactor,
    T_B_W: Matrix4x4,
    depth: Scalar,
    residual: Vector2,
    by_point: Matrix2x3,
    by_rotation: Matrix2x3,
    compute_jacobian: bool,
)
    requires
        f.fixed_pose is None,
    ensures
        ({
            let fixed = BundleAdjustmentFactor { fixed_pose: Some(T_B_W), ..f };
            let a = fixed.spec_linearize(depth, residual, by_point, by_rotation, compute_jacobian);
            let b = f.spec_linearize(depth, residual, by_point, by_rotation, compute_jacobian);
            &&& a.residual == b.residual
            &&& a.jacobian is Some <==> b.jacobian is Some
            &&& b.jacobian is Some ==> {
                &&& Matrix::has_shape(a.jacobian->0, 2, 3)
                &&& Matrix::has_shape(b.jacobian->0, 2, 9)
                &&& a.jacobian->0 == columns(b.jacobian->0, 0, 3)
            }
        }),
{
    let fixed = BundleAdjustmentFactor { fixed_pose: Some(T_B_W), ..f };
    let a = fixed.spec_linearize(depth, residual, by_point, by_rotation, compute_jacobian);
    let b = f.spec_linearize(depth, residual, by_point, by_rotation, compute_jacobian);
    if b.jacobian is Some {
        assert(a.jacobian->0 =~~= columns(b.jacobian->0, 0, 3));
    }
}

/// Fixing the translation leaves the residual as it is. The Jacobian of the free
/// factor has two halves, each of them the Jacobian of the fixed factor.
pub proof fn fixing_the_translation_keeps_either_half(
    f: BundleAdjustmentFactorTranslationOnly,
    position: Vector3,
    residual: Vector2,
    by_point: Matrix2x3,
    compute_jacobian: bool,
)
    requires
        f.fixed_position is None,
    ensures
        ({
            let fixed = BundleAdjustmentFactorTranslationOnly {
                fixed_position: Some(position),
                ..f
            };
            let a = fixed.spec_linearize(residual, by_point, compute_jacobian);
            let b = f.spec_linearize(residual, by_point, compute_jacobian);
            &&& a.residual == b.residual
            &&& a.jacobian is Some <==> compute_jacobian
            &&& b.jacobian is Some <==> compute_jacobian
            &&& compute_jacobian ==> {
                &&& Matrix::has_shape(a.jacobian->0, 2, 3)
                &&& Matrix::has_shape(b.jacobian->0, 2, 6)
                &&& a.jacobian->0 == columns(b.jacobian->0, 0, 3)
                &&& a.jacobian->0 == columns(b.jacobian->0, 3, 6)
            }
        }),
{
    let fixed = BundleAdjustmentFactorTranslationOnly { fixed_position: Some(position), ..f };
    let a = fixed.spec_linearize(residual, by_point, compute_jacobian);
    let b = f.spec_linearize(residual, by_point, compute_jacobian);
    if compute_jacobian {
        assert(a.jacobian->0 =~~= columns(b.jacobian->0, 0, 3));
        assert(a.jacobian->0 =~~= columns(b.jacobian->0, 3, 6));
    }
}

/// A known point constrains the pose as bundle adjustment does with the point held:
/// in front of the camera the residuals are the same, and the Jacobian is what
/// that of bundle adjustment has behind the columns of the point.
pub proof fn known_point_keeps_the_pose_columns(
    pnp: PnPFactor,
    f: BundleAdjustmentFactor,
    depth: Scalar,
    residual: Vector2,
    by_point: Matrix2x3,
    by_rotation: Matrix2x3,
    compute_jacobian: bool,
)
    requires
        f.fixed_pose is None,
        !depth.at_most(Scalar::spec_zero()),
    ensures
        ({
            let a = pnp.spec_linearize(residual, by_point, by_rotation, compute_jacobian);
            let b = f.spec_linearize(depth, residual, by_point, by_rotation, compute_jacobian);
            &&& a.residual == b.residual
            &&& a.jacobian is Some <==> compute_jacobian
            &&& b.jacobian is Some <==> compute_jacobian
            &&& compute_jacobian ==> {
                &&& Matrix::has_shape(a.jacobian->0, 2, 6)
                &&& Matrix::has_shape(b.jacobian->0, 2, 9)
                &&& a.jacobian->0 == columns(b.jacobian->0, 3, 9)
            }
        }),
{
    let a = pnp.spec_linearize(residual, by_point, by_rotation, compute_jacobian);
    let b = f.spec_linearize(depth, residual, by_point, by_rotation, compute_jacobian);
    if compute_jacobian {
        assert(a.jacobian->0 =~~= columns(b.jacobian->0, 3, 9));
    }
}

/// Which of the two keyframes that an IMU measurement ties together.
#[derive(Clone, Copy, Debug, PartialEq, Eq, Structural)]
pub enum Side {
    From,
    To,
}

impl Side {
    /// The column at which the error state of the keyframe begins.
    pub open spec fn offset(self) -> int {
        match self {
            Side::From => 0,
            Side::To => 15,
        }
    }
}

/// The variables of the two keyframes.
#[derive(Clone, Copy, Debug, PartialEq, Eq, Structural)]
pub struct ImuVariables {
    pub pose_i: Pose,
    pub v_i: Vector3,
    pub ba_i: Vector3,
    pub bg_i: Vector3,
    pub pose_j: Pose,
    pub v_j: Vector3,
    pub ba_j: Vector3,
    pub bg_j: Vector3,
}

impl ImuVariables {
    /// The variables that four vectors of parameters hold: for each keyframe the
    /// pose, then velocity, accelerometer bias and gyroscope bias.
    pub open spec fn of(params: Seq<Vec<Scalar>>) -> ImuVariables {
        ImuVariables {
            pose_i: spec_pose(params[0]@),
            v_i: spec_vector3_at(params[1]@, 0),
            ba_i: spec_vector3_at(params[1]@, 3),
            bg_i: spec_vector3_at(params[1]@, 6),
            pose_j: spec_pose(params[2]@),
            v_j: spec_vector3_at(params[3]@, 0),
            ba_j: spec_vector3_at(params[3]@, 3),
            bg_j: spec_vector3_at(params[3]@, 6),
        }
    }
}

/// The parameters of a pose are its translation and then its rotation, the real
/// part first: each is one entry, and together they are all seven.
pub proof fn pose_parameters_are_read_in_order(p: Seq<Scalar>)
    requires
        p.len() == 7,
    ensures
        ({
            let pose = spec_pose(p);
            seq![
                pose.translation.x,
                pose.translation.y,
                pose.translation.z,
                pose.rotation.w,
                pose.rotation.i,
                pose.rotation.j,
                pose.rotation.k,
            ] == p
        }),
{
    let pose = spec_pose(p);
    assert(seq![
        pose.translation.x,
        pose.translation.y,
        pose.translation.z,
        pose.rotation.w,
        pose.rotation.i,
        pose.rotation.j,
        pose.rotation.k,
    ] =~= p);
}

/// A vector is read entry by entry.
pub proof fn vectors_are_read_in_order(p: Seq<Scalar>, i: int, k: int)
    requires
        0 <= k < 3,
    ensures
        spec_vector3_at(p, i).at(k) == p[i + k],
{
}

/// An IMU factor reads the motion of a keyframe out of its parameters as the window
/// does once they are solved: velocity, accelerometer bias and gyroscope bias are
/// the same three vectors to both, for the first keyframe and for the second.
pub proof fn factor_and_window_read_motion_alike(params: Seq<Vec<Scalar>>, f: Frame)
    requires
        have_lengths(params, seq![7, 9, 7, 9]),
    ensures
        ({
            let v = ImuVariables::of(params);
            let i = solution::with_motion(f, params[1]@).state;
            let j = solution::with_motion(f, params[3]@).state;
            &&& v.v_i == i.velocity && v.ba_i == i.accel_bias && v.bg_i == i.gyro_bias
            &&& v.v_j == j.velocity && v.ba_j == j.accel_bias && v.bg_j == j.gyro_bias
            &&& v.pose_i == spec_pose(params[0]@)
            &&& v.pose_j == spec_pose(params[2]@)
        }),
{
}

/// How the accumulated rotation, velocity and position react to the biases.
#[derive(Clone, Copy, Debug, PartialEq, Eq, Structural)]
pub struct BiasJacobians {
    pub dR_dbg: Matrix3x3,
    pub dv_dba: Matrix3x3,
    pub dv_dbg: Matrix3x3,
    pub dp_dba: Matrix3x3,
    pub dp_dbg: Matrix3x3,
}

/// The parts of the residual.
#[derive(Clone, Copy, Debug, PartialEq, Eq, Structural)]
pub struct ImuResiduals {
    pub dR: Vector3,
    pub dv: Vector3,
    pub dp: Vector3,
    pub ba: Vector3,
    pub bg: Vector3,
}

impl ImuResiduals {
    /// The part of the residual that belongs to this part of the error state.
    pub open spec fn part(self, s: Part) -> Vector3 {
        match s {
            Part::Rotation => self.dR,
            Part::Velocity => self.dv,
            Part::Position => self.dp,
            Part::AccelBias => self.ba,
            Part::GyroBias => self.bg,
        }
    }
}

/// Each part of the residual stands in the rows of the part of the state that it
/// compares: rotation by rotation, velocity by velocity, position by position and
/// bias by bias.
pub proof fn residuals_stand_by_their_part(
    residuals: ImuResiduals,
    l: Layout,
    r: Seq<Scalar>,
    k: int,
)
    requires
        0 <= k < 3,
        forall|s: Part, c: int|
            #![trigger residuals.part(s).at(c)]
            0 <= c < 3 ==> r[l.at(s) + c] == residuals.part(s).at(c),
    ensures
        r[l.idx_r + k] == residuals.dR.at(k),
        r[l.idx_v + k] == residuals.dv.at(k),
        r[l.idx_p + k] == residuals.dp.at(k),
        r[l.idx_ba + k] == residuals.ba.at(k),
        r[l.idx_bg + k] == residuals.bg.at(k),
{
    assert(residuals.part(Part::Rotation).at(k) == residuals.dR.at(k));
    assert(residuals.part(Part::Velocity).at(k) == residuals.dv.at(k));
    assert(residuals.part(Part::Position).at(k) == residuals.dp.at(k));
    assert(residuals.part(Part::AccelBias).at(k) == residuals.ba.at(k));
    assert(residuals.part(Part::GyroBias).at(k) == residuals.bg.at(k));
}

/// What the Jacobian is made of, besides the bias Jacobians.
#[derive(Clone, Copy, Debug, PartialEq, Eq, Structural)]
pub struct ImuTerms {
    /// Rotation residual by the first rotation.
    pub dR_dphi_i: Matrix3x3,
    /// Rotation residual by the second rotation.
    pub dR_dphi_j: Matrix3x3,
    /// Rotation residual by the first gyroscope bias.
    pub dR_dbg_i: Matrix3x3,
    /// Change of velocity, in the first body's coordinates.
    pub body_velocity: Vector3,
    /// Change of position, in the first body's coordinates.
    pub body_position: Vector3,
    /// The first rotation, transposed.
    pub RiT: Matrix3x3,
    /// The same, times the negated time between the keyframes.
    pub neg_RiT_dt: Matrix3x3,
    /// The rotation from the second body to the first.
    pub RiT_Rj: Matrix3x3,
}

impl ImuTerms {
    /// The block of `m` in the rows of `s` and in the columns of `t` of one of the
    /// keyframes.
    pub open spec fn block_of(m: Entries, l: Layout, s: Part, t: Part, side: Side) -> Matrix3x3 {
        Matrix::spec_block3(m, l.at(s), l.at(t) + side.offset())
    }

    /// The block of the Jacobian in the rows of `s` and in the columns of `t` of
    /// one of the keyframes.
    pub open spec fn block(self, b: BiasJacobians, s: Part, t: Part, side: Side) -> Matrix3x3 {
        match (s, t, side) {
            (Part::Rotation, Part::Rotation, Side::From) => self.dR_dphi_i,
            (Part::Rotation, Part::Rotation, Side::To) => self.dR_dphi_j,
            (Part::Rotation, Part::GyroBias, Side::From) => self.dR_dbg_i,
            (Part::Velocity, Part::Rotation, Side::From) => imu::factors::spec_hat(
                self.body_velocity,
            ),
            (Part::Velocity, Part::Velocity, Side::From) => self.RiT.spec_neg(),
            (Part::Velocity, Part::Velocity, Side::To) => self.RiT,
            (Part::Velocity, Part::AccelBias, Side::From) => b.dv_dba.spec_neg(),
            (Part::Velocity, Part::GyroBias, Side::From) => b.dv_dbg.spec_neg(),
            (Part::Position, Part::Rotation, Side::From) => imu::factors::spec_hat(
                self.body_position,
            ),
            (Part::Position, Part::Velocity, Side::From) => self.neg_RiT_dt,
            (Part::Position, Part::Position, Side::From) => Matrix3x3::spec_identity().spec_neg(),
            (Part::Position, Part::Position, Side::To) => self.RiT_Rj,
            (Part::Position, Part::AccelBias, Side::From) => b.dp_dba.spec_neg(),
            (Part::Position, Part::GyroBias, Side::From) => b.dp_dbg.spec_neg(),
            (Part::AccelBias, Part::AccelBias, Side::From) => Matrix3x3::spec_identity().spec_neg(),
            (Part::AccelBias, Part::AccelBias, Side::To) => Matrix3x3::spec_identity(),
            (Part::GyroBias, Part::GyroBias, Side::From) => Matrix3x3::spec_identity().spec_neg(),
            (Part::GyroBias, Part::GyroBias, Side::To) => Matrix3x3::spec_identity(),
            _ => Matrix3x3::spec_zero(),
        }
    }
}

/// Constrains two consecutive keyframes by what the IMU measured between them.
#[derive(Clone, Debug)]
pub struct ImuFactor {
    /// What was measured.
    pub preint: PreInt,
    /// The accelerometer bias about which the measurement was linearized.
    pub linearized_bias_a: Vector3,
    /// The gyroscope bias about which the measurement was linearized.
    pub linearized_bias_g: Vector3,
}

/// The number of rows of the residual of an IMU measurement.
pub const IMU_ROWS: usize = 15;

/// The number of columns of its Jacobian.
pub const IMU_COLUMNS: usize = 30;

impl ImuFactor {
    pub fn new(
        preint: PreInt,
        linearized_bias_a: Vector3,
        linearized_bias_g: Vector3,
    ) -> (r: ImuFactor)
        ensures
            r.preint == preint,
            r.linearized_bias_a == linearized_bias_a,
            r.linearized_bias_g == linearized_bias_g,
    {
        ImuFactor { preint, linearized_bias_a, linearized_bias_g }
    }

    /// The variables of the two keyframes: for each the pose, then velocity,
    /// accelerometer bias and gyroscope bias in one vector.
    pub fn unpack(&self, params: &Vec<Vec<Scalar>>) -> (r: Option<ImuVariables>)
        ensures
            r == (if have_lengths(params@, seq![7, 9, 7, 9]) {
                Some(
                    ImuVariables {
                        pose_i: spec_pose(params@[0]@),
                        v_i: spec_vector3_at(params@[1]@, 0),
                        ba_i: spec_vector3_at(params@[1]@, 3),
                        bg_i: spec_vector3_at(params@[1]@, 6),
                        pose_j: spec_pose(params@[2]@),
                        v_j: spec_vector3_at(params@[3]@, 0),
                        ba_j: spec_vector3_at(params@[3]@, 3),
                        bg_j: spec_vector3_at(params@[3]@, 6),
                    },
                )
            } else {
                None
            }),
            r matches Some(v) ==> v == ImuVariables::of(params@),
    {
        if params.len() == 4 && params[0].len() == 7 && params[1].len() == 9 && params[2].len() == 7
            && params[3].len() == 9 {
            assert(have_lengths(params@, seq![7, 9, 7, 9]));
            Some(
                ImuVariables {
                    pose_i: pose_of(&params[0]),
                    v_i: vector3_at(&params[1], 0),
                    ba_i: vector3_at(&params[1], 3),
                    bg_i: vector3_at(&params[1], 6),
                    pose_j: pose_of(&params[2]),
                    v_j: vector3_at(&params[3], 0),
                    ba_j: vector3_at(&params[3], 3),
                    bg_j: vector3_at(&params[3], 6),
                },
            )
        } else {
            assert(params@.len() == 4 ==> params@[0]@.len() != 7 || params@[1]@.len() != 9
                || params@[2]@.len() != 7 || params@[3]@.len() != 9);
            None
        }
    }

    /// The blocks of the Jacobian of the measurement that belong to the biases.
    pub open spec fn spec_bias_jacobians(self) -> BiasJacobians {
        let l = self.preint.spec_layout();
        let j = self.preint.jacobian@;
        BiasJacobians {
            dR_dbg: Matrix::spec_block3(j, l.at(Part::Rotation), l.at(Part::GyroBias)),
            dv_dba: Matrix::spec_block3(j, l.at(Part::Velocity), l.at(Part::AccelBias)),
            dv_dbg: Matrix::spec_block3(j, l.at(Part::Velocity), l.at(Part::GyroBias)),
            dp_dba: Matrix::spec_block3(j, l.at(Part::Position), l.at(Part::AccelBias)),
            dp_dbg: Matrix::spec_block3(j, l.at(Part::Position), l.at(Part::GyroBias)),
        }
    }

    /// The blocks of the Jacobian of the measurement that belong to the biases.
    pub fn bias_jacobians(&self) -> (r: BiasJacobians)
        requires
            self.preint.wf(),
        ensures
            r == self.spec_bias_jacobians(),
            forall|a: int, b: int|
                0 <= a < 3 && 0 <= b < 3 ==> #[trigger] r.dR_dbg.at(a, b)
                    == self.preint.jacobian@[self.preint.idx_r + a][self.preint.idx_bg + b],
            forall|a: int, b: int|
                0 <= a < 3 && 0 <= b < 3 ==> #[trigger] r.dv_dba.at(a, b)
                    == self.preint.jacobian@[self.preint.idx_v + a][self.preint.idx_ba + b],
            forall|a: int, b: int|
                0 <= a < 3 && 0 <= b < 3 ==> #[trigger] r.dv_dbg.at(a, b)
                    == self.preint.jacobian@[self.preint.idx_v + a][self.preint.idx_bg + b],
            forall|a: int, b: int|
                0 <= a < 3 && 0 <= b < 3 ==> #[trigger] r.dp_dba.at(a, b)
                    == self.preint.jacobian@[self.preint.idx_p + a][self.preint.idx_ba + b],
            forall|a: int, b: int|
                0 <= a < 3 && 0 <= b < 3 ==> #[trigger] r.dp_dbg.at(a, b)
                    == self.preint.jacobian@[self.preint.idx_p + a][self.preint.idx_bg + b],
    {
        let l = self.preint.layout();
        assert(l.idx_r == l.at(Part::Rotation) && l.idx_v == l.at(Part::Velocity) && l.idx_p == l.at(
            Part::Position,
        ) && l.idx_ba == l.at(Part::AccelBias) && l.idx_bg == l.at(Part::GyroBias));
        let j = &self.preint.jacobian;
        BiasJacobians {
            dR_dbg: j.block3(l.idx_r, l.idx_bg),
            dv_dba: j.block3(l.idx_v, l.idx_ba),
            dv_dbg: j.block3(l.idx_v, l.idx_bg),
            dp_dba: j.block3(l.idx_p, l.idx_ba),
            dp_dbg: j.block3(l.idx_p, l.idx_bg),
        }
    }

    /// The residual: each part in the rows that the layout of the measurement
    /// gives it.
    pub fn residual(&self, residuals: &ImuResiduals) -> (r: Vec<Scalar>)
        requires
            self.preint.wf(),
        ensures
            r@.len() == IMU_ROWS,
            forall|s: Part, k: int|
                #![trigger residuals.part(s).at(k)]
                0 <= k < 3 ==> r@[self.preint.spec_layout().at(s) + k] == residuals.part(s).at(k),
    {
        let l = self.preint.layout();
        assert(l.idx_r == l.at(Part::Rotation) && l.idx_v == l.at(Part::Velocity) && l.idx_p == l.at(
            Part::Position,
        ) && l.idx_ba == l.at(Part::AccelBias) && l.idx_bg == l.at(Part::GyroBias));
        let mut r: Vec<Scalar> = Vec::new();
        let mut i: usize = 0;
        while i < IMU_ROWS
            invariant
                i <= IMU_ROWS,
                r@.len() == i,
            decreases IMU_ROWS - i,
        {
            r.push(Scalar::zero());
            i += 1;
        }
        place(&mut r, l.idx_r, &residuals.dR);
        place(&mut r, l.idx_v, &residuals.dv);
        place(&mut r, l.idx_p, &residuals.dp);
        place(&mut r, l.idx_ba, &residuals.ba);
        place(&mut r, l.idx_bg, &residuals.bg);
        r
    }

    /// The Jacobian: each block in the rows and columns that the layout of the
    /// measurement gives it, those of the second keyframe behind those of the
    /// first.
    #[verifier::spinoff_prover]
    pub fn jacobian(&self, terms: &ImuTerms) -> (r: Matrix)
        requires
            self.preint.wf(),
        ensures
            r.wf(),
            r@.len() == IMU_ROWS,
            r.cols() == IMU_COLUMNS,
            forall|s: Part, t: Part, side: Side|
                #[trigger] ImuTerms::block_of(r@, self.preint.spec_layout(), s, t, side)
                    == terms.block(self.spec_bias_jacobians(), s, t, side),
    {
        let l = self.preint.layout();
        let b = self.bias_jacobians();
        let i3 = Matrix3x3::identity();
        let neg_i3 = i3.neg();
        let mut j = Matrix::zeros(IMU_ROWS, IMU_COLUMNS);
        assert forall|s: Part, t: Part, side: Side|
            ImuTerms::block_of(j@, l, s, t, side) == Matrix3x3::spec_zero() by {
            assert(l.at(s) + 3 <= 15 && l.at(t) + 3 <= 15);
        }
        write_block(&mut j, &l, Part::Rotation, Part::Rotation, Side::From, &terms.dR_dphi_i);
        write_block(&mut j, &l, Part::Rotation, Part::Rotation, Side::To, &terms.dR_dphi_j);
        write_block(&mut j, &l, Part::Rotation, Part::GyroBias, Side::From, &terms.dR_dbg_i);
        let turned = skew_symmetric(&terms.body_velocity);
        write_block(&mut j, &l, Part::Velocity, Part::Rotation, Side::From, &turned);
        write_block(&mut j, &l, Part::Velocity, Part::Velocity, Side::From, &terms.RiT.neg());
        write_block(&mut j, &l, Part::Velocity, Part::Velocity, Side::To, &terms.RiT);
        write_block(&mut j, &l, Part::Velocity, Part::AccelBias, Side::From, &b.dv_dba.neg());
        write_block(&mut j, &l, Part::Velocity, Part::GyroBias, Side::From, &b.dv_dbg.neg());
        let moved = skew_symmetric(&terms.body_position);
        write_block(&mut j, &l, Part::Position, Part::Rotation, Side::From, &moved);
        write_block(&mut j, &l, Part::Position, Part::Velocity, Side::From, &terms.neg_RiT_dt);
        write_block(&mut j, &l, Part::Position, Part::Position, Side::From, &neg_i3);
        write_block(&mut j, &l, Part::Position, Part::Position, Side::To, &terms.RiT_Rj);
        write_block(&mut j, &l, Part::Position, Part::AccelBias, Side::From, &b.dp_dba.neg());
        write_block(&mut j, &l, Part::Position, Part::GyroBias, Side::From, &b.dp_dbg.neg());
        write_block(&mut j, &l, Part::AccelBias, Part::AccelBias, Side::From, &neg_i3);
        write_block(&mut j, &l, Part::AccelBias, Part::AccelBias, Side::To, &i3);
        write_block(&mut j, &l, Part::GyroBias, Part::GyroBias, Side::From, &neg_i3);
        write_block(&mut j, &l, Part::GyroBias, Part::GyroBias, Side::To, &i3);
        j
    }

    /// Residual and, if it is wanted, Jacobian, both as [`ImuFactor::residual`] and
    /// [`ImuFactor::jacobian`] give them.
    pub fn linearize(
        &self,
        residuals: &ImuResiduals,
        terms: &ImuTerms,
        compute_jacobian: bool,
    ) -> (r: (Vec<Scalar>, Option<Matrix>))
        requires
            self.preint.wf(),
        ensures
            r.0@.len() == IMU_ROWS,
            forall|s: Part, k: int|
                #![trigger residuals.part(s).at(k)]
                0 <= k < 3 ==> r.0@[self.preint.spec_layout().at(s) + k] == residuals.part(s).at(k),
            r.1 is Some <==> compute_jacobian,
            r.1 matches Some(j) ==> {
                &&& j.wf()
                &&& j@.len() == IMU_ROWS
                &&& j.cols() == IMU_COLUMNS
                &&& forall|s: Part, t: Part, side: Side|
                    #[trigger] ImuTerms::block_of(j@, self.preint.spec_layout(), s, t, side)
                        == terms.block(self.spec_bias_jacobians(), s, t, side)
            },
    {
        let r = self.residual(residuals);
        if compute_jacobian {
            (r, Some(self.jacobian(terms)))
        } else {
            (r, None)
        }
    }

    /// The residual has fifteen entries.
    pub fn get_dimension(&self) -> (r: usize)
        ensures
            r == IMU_ROWS,
    {
        15
    }
}

/// The bias Jacobians that are read from a measurement are those that a step of the
/// integration writes: after one step from rest, velocity and position react to the
/// accelerometer bias as the step says and to the gyroscope bias not at all, and the
/// rotation reacts to the gyroscope bias as the step says.
pub proof fn one_step_makes_the_bias_jacobians(f: ImuFactor, b: TransitionBlocks)
    requires
        f.preint.wf(),
        forall|s: Part, t: Part|
            #![trigger f.preint.spec_layout().at(s), f.preint.spec_layout().at(t)]
            Matrix::spec_block3(
                f.preint.jacobian@,
                f.preint.spec_layout().at(s),
                f.preint.spec_layout().at(t),
            ) == b.block(s, t),
    ensures
        f.spec_bias_jacobians().dR_dbg == b.phibg,
        f.spec_bias_jacobians().dv_dba == b.vba,
        f.spec_bias_jacobians().dp_dba == b.pba,
        f.spec_bias_jacobians().dv_dbg == Matrix3x3::spec_zero(),
        f.spec_bias_jacobians().dp_dbg == Matrix3x3::spec_zero(),
{
    let l = f.preint.spec_layout();
    let j = f.preint.jacobian@;
    assert(Matrix::spec_block3(j, l.at(Part::Rotation), l.at(Part::GyroBias)) == b.phibg);
    assert(Matrix::spec_block3(j, l.at(Part::Velocity), l.at(Part::AccelBias)) == b.vba);
    assert(Matrix::spec_block3(j, l.at(Part::Position), l.at(Part::AccelBias)) == b.pba);
    assert(Matrix::spec_block3(j, l.at(Part::Velocity), l.at(Part::GyroBias))
        == Matrix3x3::spec_zero());
    assert(Matrix::spec_block3(j, l.at(Part::Position), l.at(Part::GyroBias))
        == Matrix3x3::spec_zero());
}

/// A bias Jacobian is the derivative of the part it is named after by the bias it is
/// named after: its entries are those of the measurement in these rows and columns.
pub proof fn bias_jacobians_are_entries_of_the_measurement(f: ImuFactor, a: int, c: int)
    requires
        0 <= a < 3,
        0 <= c < 3,
    ensures
        ({
            let m = f.preint;
            let b = f.spec_bias_jacobians();
            &&& b.dR_dbg.at(a, c) == m.jacobian@[m.idx_r + a][m.idx_bg + c]
            &&& b.dv_dba.at(a, c) == m.jacobian@[m.idx_v + a][m.idx_ba + c]
            &&& b.dv_dbg.at(a, c) == m.jacobian@[m.idx_v + a][m.idx_bg + c]
            &&& b.dp_dba.at(a, c) == m.jacobian@[m.idx_p + a][m.idx_ba + c]
            &&& b.dp_dbg.at(a, c) == m.jacobian@[m.idx_p + a][m.idx_bg + c]
        }),
{
}

/// What the measurement gains by a bias the residual loses: in the rows of velocity
/// and position and under the biases of the first keyframe, the Jacobian of the
/// factor has the entries of the Jacobian of the measurement, negated. The biases of
/// the second keyframe do not enter there.
pub proof fn residuals_lose_what_the_biases_add(
    f: ImuFactor,
    terms: ImuTerms,
    m: Entries,
    s: Part,
    t: Part,
    a: int,
    c: int,
)
    requires
        f.preint.wf(),
        Matrix::has_shape(m, IMU_ROWS as nat, IMU_COLUMNS as nat),
        forall|s1: Part, t1: Part, side: Side|
            #[trigger] ImuTerms::block_of(m, f.preint.spec_layout(), s1, t1, side) == terms.block(
                f.spec_bias_jacobians(),
                s1,
                t1,
                side,
            ),
        s == Part::Velocity || s == Part::Position,
        t == Part::AccelBias || t == Part::GyroBias,
        0 <= a < 3,
        0 <= c < 3,
    ensures
        ({
            let l = f.preint.spec_layout();
            let entry = m[l.at(s) + a][l.at(t) + c];
            let measured = f.preint.jacobian@[l.at(s) + a][l.at(t) + c];
            &&& entry == measured.opposite()
            &&& entry.value() == -measured.value()
            &&& m[l.at(s) + a][15 + l.at(t) + c] == Scalar::spec_zero()
        }),
{
    let l = f.preint.spec_layout();
    let from = ImuTerms::block_of(m, l, s, t, Side::From);
    let to = ImuTerms::block_of(m, l, s, t, Side::To);
    let before = Matrix::spec_block3(f.preint.jacobian@, l.at(s), l.at(t));
    assert(from == before.spec_neg());
    assert(to == Matrix3x3::spec_zero());
    assert(from.at(a, c) == m[l.at(s) + a][l.at(t) + c]);
    assert(to.at(a, c) == m[l.at(s) + a][15 + l.at(t) + c]);
    assert(before.at(a, c) == f.preint.jacobian@[l.at(s) + a][l.at(t) + c]);
    crate::scalar::signs_are_mirrored(before.at(a, c));
}

/// The factor compares the second keyframe with the first. Velocities and biases
/// that change alike in both leave the residual as it is: their blocks of the two
/// keyframes are opposite numbers, entry by entry. The biases are compared with
/// nothing else, and only with themselves.
pub proof fn factor_compares_the_keyframes(
    terms: ImuTerms,
    b: BiasJacobians,
    s: Part,
    a: int,
    c: int,
)
    requires
        s == Part::Velocity || s == Part::AccelBias || s == Part::GyroBias,
        0 <= a < 3,
        0 <= c < 3,
    ensures
        terms.block(b, s, s, Side::From).at(a, c).value() == -terms.block(b, s, s, Side::To).at(
            a,
            c,
        ).value(),
        s != Part::Velocity ==> terms.block(b, s, s, Side::To).at(a, c) == (if a == c {
            Scalar::spec_one()
        } else {
            Scalar::spec_zero()
        }),
        s != Part::Velocity ==> forall|t: Part, side: Side|
            t != s ==> #[trigger] terms.block(b, s, t, side) == Matrix3x3::spec_zero(),
        forall|t: Part|
            t != s ==> #[trigger] terms.block(b, s, t, Side::To) == Matrix3x3::spec_zero(),
{
    crate::scalar::signs_are_mirrored(terms.RiT.at(a, c));
}

/// Every other block is what its name says. The derivatives of velocity and position
/// by the first rotation are cross-product matrices, from which the change of
/// velocity and of position in the first body can be read off; the position is
/// moved back by the first position and on by the second; and neither rotation nor
/// velocity depends on a position.
pub proof fn blocks_are_what_they_are_named(terms: ImuTerms, b: BiasJacobians)
    ensures
        terms.block(b, Part::Rotation, Part::Rotation, Side::From) == terms.dR_dphi_i,
        terms.block(b, Part::Rotation, Part::Rotation, Side::To) == terms.dR_dphi_j,
        terms.block(b, Part::Rotation, Part::GyroBias, Side::From) == terms.dR_dbg_i,
        terms.block(b, Part::Velocity, Part::Velocity, Side::To) == terms.RiT,
        terms.block(b, Part::Position, Part::Velocity, Side::From) == terms.neg_RiT_dt,
        terms.block(b, Part::Position, Part::Position, Side::To) == terms.RiT_Rj,
        ({
            let v = terms.block(b, Part::Velocity, Part::Rotation, Side::From);
            let p = terms.block(b, Part::Position, Part::Rotation, Side::From);
            let q = terms.block(b, Part::Position, Part::Position, Side::From);
            &&& (Vector3 { x: v.at(2, 1), y: v.at(0, 2), z: v.at(1, 0) }) == terms.body_velocity
            &&& (Vector3 { x: p.at(2, 1), y: p.at(0, 2), z: p.at(1, 0) }) == terms.body_position
            &&& forall|i: int, j: int|
                0 <= i < 3 && 0 <= j < 3 ==> {
                    &&& (#[trigger] v.at(i, j)).value() == -v.at(j, i).value()
                    &&& p.at(i, j).value() == -p.at(j, i).value()
                    &&& q.at(i, j).value() == (if i == j {
                        -Scalar::spec_one().value()
                    } else {
                        0
                    })
                }
        }),
        forall|side: Side|
            #[trigger] terms.block(b, Part::Rotation, Part::Position, side)
                == Matrix3x3::spec_zero(),
        forall|side: Side|
            #[trigger] terms.block(b, Part::Rotation, Part::Velocity, side)
                == Matrix3x3::spec_zero(),
        forall|side: Side|
            #[trigger] terms.block(b, Part::Rotation, Part::AccelBias, side)
                == Matrix3x3::spec_zero(),
        forall|side: Side|
            #[trigger] terms.block(b, Part::Velocity, Part::Position, side)
                == Matrix3x3::spec_zero(),
        forall|s: Part, t: Part|
            s != t ==> #[trigger] terms.block(b, s, t, Side::To) == Matrix3x3::spec_zero(),
        Side::From.offset() == 0,
        Side::To.offset() == 15,
{
    let v = terms.block(b, Part::Velocity, Part::Rotation, Side::From);
    let p = terms.block(b, Part::Position, Part::Rotation, Side::From);
    let q = terms.block(b, Part::Position, Part::Position, Side::From);
    assert forall|i: int, j: int| 0 <= i < 3 && 0 <= j < 3 implies {
        &&& (#[trigger] v.at(i, j)).value() == -v.at(j, i).value()
        &&& p.at(i, j).value() == -p.at(j, i).value()
        &&& q.at(i, j).value() == (if i == j {
            -Scalar::spec_one().value()
        } else {
            0
        })
    } by {
        imu::factors::hat_is_antisymmetric(terms.body_velocity, i, j);
        imu::factors::hat_is_antisymmetric(terms.body_position, i, j);
        crate::scalar::signs_are_mirrored(Matrix3x3::spec_identity().at(i, j));
    }
}

/// Writes the block in the rows of `s` and in the columns of `t` of one of the
/// keyframes, and keeps all other blocks.
fn write_block(m: &mut Matrix, l: &Layout, s: Part, t: Part, side: Side, b: &Matrix3x3)
    requires
        l.valid(),
        old(m).wf(),
        old(m)@.len() == IMU_ROWS,
        old(m).cols() == IMU_COLUMNS,
    ensures
        final(m).wf(),
        final(m)@.len() == IMU_ROWS,
        final(m).cols() == IMU_COLUMNS,
        forall|s1: Part, t1: Part, side1: Side|
            #[trigger] ImuTerms::block_of(final(m)@, *l, s1, t1, side1) == (if s1 == s && t1 == t
                && side1 == side {
                *b
            } else {
                ImuTerms::block_of(old(m)@, *l, s1, t1, side1)
            }),
{
    let row = l.index(s);
    let first = l.index(t);
    assert(l.at(s) + 3 <= 15 && l.at(t) + 3 <= 15);
    let col: usize = match side {
        Side::From => first,
        Side::To => first + 15,
    };
    m.set_block3(row, col, b);
    assert forall|s1: Part, t1: Part, side1: Side|
        #[trigger] ImuTerms::block_of(m@, *l, s1, t1, side1) == (if s1 == s && t1 == t && side1
            == side {
            *b
        } else {
            ImuTerms::block_of(old(m)@, *l, s1, t1, side1)
        }) by {
        assert(l.at(s1) + 3 <= 15 && l.at(t1) + 3 <= 15);
        assert(l.at(s1) >= 0 && l.at(t1) >= 0);
    }
}

/// Writes the three entries of `x` from index `at` on.
fn place(v: &mut Vec<Scalar>, at: usize, x: &Vector3)
    requires
        at + 3 <= old(v)@.len(),
        old(v)@.len() == IMU_ROWS,
    ensures
        final(v)@ == old(v)@.update(at as int, x.x).update(at + 1, x.y).update(at + 2, x.z),
{
    v.set(at, x.x);
    v.set(at + 1, x.y);
    v.set(at + 2, x.z);
}

/// A residual is determined by its parts: two that agree on each part are equal.
pub proof fn parts_determine_the_residual(a: Seq<Scalar>, b: Seq<Scalar>, l: Layout)
    requires
        l.valid(),
        a.len() == IMU_ROWS,
        b.len() == IMU_ROWS,
        forall|s: Part, k: int|
            #![trigger a[l.at(s) + k]]
            0 <= k < 3 ==> a[l.at(s) + k] == b[l.at(s) + k],
    ensures
        a == b,
{
    assert forall|i: int| 0 <= i < IMU_ROWS implies a[i] == b[i] by {
        l.parts_cover_the_state(i);
        let s = choose|s: Part| #[trigger] l.at(s) <= i < l.at(s) + 3;
        assert(a[l.at(s) + (i - l.at(s))] == b[l.at(s) + (i - l.at(s))]);
    }
    assert(a =~= b);
}

/// A Jacobian of an IMU measurement is determined by its blocks: two that agree
/// on each block are equal.
pub proof fn blocks_determine_the_jacobian(a: Entries, b: Entries, l: Layout)
    requires
        l.valid(),
        Matrix::has_shape(a, IMU_ROWS as nat, IMU_COLUMNS as nat),
        Matrix::has_shape(b, IMU_ROWS as nat, IMU_COLUMNS as nat),
        forall|s: Part, t: Part, side: Side|
            #[trigger] ImuTerms::block_of(a, l, s, t, side) == ImuTerms::block_of(
                b,
                l,
                s,
                t,
                side,
            ),
    ensures
        a == b,
{
    assert forall|i: int, j: int| 0 <= i < IMU_ROWS && 0 <= j < IMU_COLUMNS implies a[i][j]
        == b[i][j] by {
        let side = if j < 15 {
            Side::From
        } else {
            Side::To
        };
        let c = j - side.offset();
        l.parts_cover_the_state(i);
        l.parts_cover_the_state(c);
        let s = choose|s: Part| #[trigger] l.at(s) <= i < l.at(s) + 3;
        let t = choose|t: Part| #[trigger] l.at(t) <= c < l.at(t) + 3;
        let ba = ImuTerms::block_of(a, l, s, t, side);
        let bb = ImuTerms::block_of(b, l, s, t, side);
        assert(ba == bb);
        assert(ba.at(i - l.at(s), c - l.at(t)) == a[i][j]);
        assert(bb.at(i - l.at(s), c - l.at(t)) == b[i][j]);
    }
    assert(a =~~= b);
}

} // verus!
