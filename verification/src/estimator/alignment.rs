//! The alignment of a window with its IMU measurements.
//!
//! Each pair of consecutive keyframes gives six equations in the velocities of the
//! two, the gravity and the scale of the poses. The unknowns of all pairs are
//! solved for together: three for the velocity of each keyframe, then the gravity,
//! then the scale.
use crate::linalg::{Matrix, Matrix3x3, Matrix4x4, Quaternion, Vector3};
use crate::scalar::Scalar;
use vstd::prelude::*;

verus! {

/// What a pair of keyframes tells about the gyroscope bias.
#[derive(Clone, Copy, Debug, PartialEq, Eq, Structural)]
pub struct GyroTerm {
    /// Pose of the first keyframe.
    pub T_W_B_i: Matrix4x4,
    /// Pose of the second keyframe.
    pub T_W_B_j: Matrix4x4,
    /// How the measured rotation reacts to the gyroscope bias.
    pub jacobian: Matrix3x3,
    /// The measured rotation.
    pub delta_R: Quaternion,
}

/// What a pair of keyframes tells about velocities, gravity and scale.
#[derive(Clone, Copy, Debug, PartialEq, Eq, Structural)]
pub struct AlignmentTerm {
    /// Pose of the first keyframe.
    pub T_W_B_i: Matrix4x4,
    /// Pose of the second keyframe.
    pub T_W_B_j: Matrix4x4,
    /// The time between them.
    pub dt: Scalar,
    /// The measured change of position.
    pub dp: Vector3,
    /// The measured change of velocity.
    pub dv: Vector3,
}

/// The shape of the system of equations.
#[derive(Clone, Copy, Debug, PartialEq, Eq, Structural)]
pub struct Unknowns {
    /// The number of keyframes.
    pub frames: usize,
    /// The number of unknowns that stand for the gravity: three, or two while its
    /// length is held.
    pub gravity: usize,
}

impl Unknowns {
    /// The number of unknowns.
    pub open spec fn spec_total(self) -> int {
        3 * self.frames + self.gravity + 1
    }

    /// The number of unknowns of one pair.
    pub open spec fn spec_local(self) -> int {
        6 + self.gravity + 1
    }

    /// The position among all unknowns of the unknown at position `local` of the
    /// pair of keyframes `pair` and `pair + 1`: two velocities, then gravity and
    /// scale.
    pub open spec fn spec_index(self, pair: int, local: int) -> int {
        if local < 6 {
            3 * pair + local
        } else {
            3 * self.frames + (local - 6)
        }
    }

    /// Whether the unknowns can be counted.
    pub open spec fn countable(self) -> bool {
        self.spec_total() <= usize::MAX && self.spec_local() <= usize::MAX
    }

    /// The number of unknowns.
    pub fn total(&self) -> (r: usize)
        requires
            self.countable(),
        ensures
            r == self.spec_total(),
    {
        3 * self.frames + self.gravity + 1
    }

    /// The number of unknowns of one pair.
    pub fn local(&self) -> (r: usize)
        requires
            self.countable(),
        ensures
            r == self.spec_local(),
    {
        6 + self.gravity + 1
    }

    /// The position among all unknowns of an unknown of a pair.
    pub fn index(&self, pair: usize, local: usize) -> (r: usize)
        requires
            self.countable(),
            pair + 1 < self.frames,
            local < self.spec_local(),
        ensures
            r == self.spec_index(pair as int, local as int),
            r < self.spec_total(),
    {
        if local < 6 {
            3 * pair + local
        } else {
            3 * self.frames + (local - 6)
        }
    }

    /// Where the gravity begins.
    pub fn gravity_index(&self) -> (r: usize)
        requires
            self.countable(),
        ensures
            r == self.spec_total() - 1 - self.gravity,
            r == self.spec_index(0, 6),
    {
        3 * self.frames
    }

    /// Where the scale stands.
    pub fn scale_index(&self) -> (r: usize)
        requires
            self.countable(),
        ensures
            r == self.spec_total() - 1,
            r == self.spec_index(0, self.spec_local() - 1),
    {
        3 * self.frames + self.gravity
    }

    /// The unknowns of one pair are different unknowns.
    pub proof fn unknowns_of_a_pair_differ(self, pair: int, a: int, b: int)
        requires
            0 <= pair && pair + 1 < self.frames,
            0 <= a < b < self.spec_local(),
        ensures
            self.spec_index(pair, a) < self.spec_index(pair, b),
    {
    }

    /// The second velocity of a pair is the first velocity of the next, and all
    /// pairs share gravity and scale.
    pub proof fn pairs_share_unknowns(self, pair: int, c: int)
        requires
            0 <= pair && pair + 2 < self.frames,
        ensures
            0 <= c < 3 ==> self.spec_index(pair, 3 + c) == self.spec_index(pair + 1, c),
            6 <= c < self.spec_local() ==> self.spec_index(pair, c) == self.spec_index(
                pair + 1,
                c,
            ),
    {
    }

    /// Every unknown is an unknown of some pair.
    pub proof fn every_unknown_belongs_to_a_pair(self, i: int)
        requires
            self.frames >= 2,
            0 <= i < self.spec_total(),
        ensures
            exists|pair: int, local: int|
                0 <= pair && pair + 1 < self.frames && 0 <= local < self.spec_local()
                    && #[trigger] self.spec_index(pair, local) == i,
    {
        if i >= 3 * self.frames {
            assert(self.spec_index(0, 6 + i - 3 * self.frames) == i);
        } else if i / 3 + 1 < self.frames {
            assert(self.spec_index(i / 3, i % 3) == i);
        } else {
            assert(self.spec_index(i / 3 - 1, 3 + i % 3) == i);
        }
    }
}

/// The coefficients of the six equations of a pair, from the blocks that were
/// computed for it. In the rows of the position: the first velocity, nothing for
/// the second, gravity and scale. In the rows of the velocity: the first velocity
/// negated, the second turned, gravity, and nothing for the scale. The blocks of
/// the gravity are given by columns.
pub fn alignment_rows(
    velocity: &Matrix3x3,
    rotation: &Matrix3x3,
    position_by_gravity: &Vec<Vector3>,
    velocity_by_gravity: &Vec<Vector3>,
    scale: &Vector3,
) -> (r: Matrix)
    requires
        position_by_gravity@.len() == velocity_by_gravity@.len(),
        position_by_gravity@.len() <= 3,
    ensures
        r.wf(),
        r@.len() == 6,
        r.cols() == 7 + position_by_gravity@.len(),
        Matrix::spec_block3(r@, 0, 0) == *velocity,
        Matrix::spec_block3(r@, 0, 3) == Matrix3x3::spec_zero(),
        Matrix::spec_block3(r@, 3, 0) == Matrix3x3::spec_identity().spec_neg(),
        Matrix::spec_block3(r@, 3, 3) == *rotation,
        forall|c: int, k: int|
            #![trigger position_by_gravity@[c].at(k)]
            0 <= c < position_by_gravity@.len() && 0 <= k < 3 ==> r@[k][6 + c]
                == position_by_gravity@[c].at(k),
        forall|c: int, k: int|
            #![trigger velocity_by_gravity@[c].at(k)]
            0 <= c < velocity_by_gravity@.len() && 0 <= k < 3 ==> r@[3 + k][6 + c]
                == velocity_by_gravity@[c].at(k),
        forall|k: int|
            #![trigger scale.at(k)]
            0 <= k < 3 ==> r@[k][6int + position_by_gravity@.len()] == scale.at(k),
        forall|k: int|
            3 <= k < 6 ==> (#[trigger] r@[k])[6int + position_by_gravity@.len()]
                == Scalar::spec_zero(),
{
    let w = position_by_gravity.len();
    let mut m = Matrix::zeros(6, 7 + w);
    let minus = Matrix3x3::identity().neg();
    m.set_block3(0, 0, velocity);
    m.set_block3(3, 0, &minus);
    m.set_block3(3, 3, rotation);
    let ghost start = m@;
    proof {
        reveal(Matrix::with_block);
        assert(Matrix::spec_block3(start, 0, 3) == Matrix3x3::spec_zero());
        assert forall|k: int, c: int| 0 <= k < 6 && 6 <= c < 7 + w implies #[trigger] start[k][c]
            == Scalar::spec_zero() by {}
    }
    let mut c: usize = 0;
    while c < w
        invariant
            c <= w,
            w <= 3,
            w == position_by_gravity@.len(),
            w == velocity_by_gravity@.len(),
            m.wf(),
            m@.len() == 6,
            m.cols() == 7 + w,
            Matrix::has_shape(start, 6, (7 + w) as nat),
            forall|k: int, j: int| 0 <= k < 6 && 0 <= j < 6 ==> #[trigger] m@[k][j] == start[k][j],
            forall|k: int, j: int|
                0 <= k < 6 && 6 + c <= j < 7 + w ==> #[trigger] m@[k][j] == Scalar::spec_zero(),
            forall|b: int, k: int|
                #![trigger position_by_gravity@[b].at(k)]
                0 <= b < c && 0 <= k < 3 ==> m@[k][6 + b] == position_by_gravity@[b].at(k),
            forall|b: int, k: int|
                #![trigger velocity_by_gravity@[b].at(k)]
                0 <= b < c && 0 <= k < 3 ==> m@[3 + k][6 + b] == velocity_by_gravity@[b].at(k),
        decreases w - c,
    {
        write_column(&mut m, 6 + c, 0, &position_by_gravity[c]);
        write_column(&mut m, 6 + c, 3, &velocity_by_gravity[c]);
        c += 1;
    }
    write_column(&mut m, 6 + w, 0, scale);
    proof {
        assert(Matrix::spec_block3(m@, 0, 0) == Matrix::spec_block3(start, 0, 0));
        assert(Matrix::spec_block3(m@, 0, 3) == Matrix::spec_block3(start, 0, 3));
        assert(Matrix::spec_block3(m@, 3, 0) == Matrix::spec_block3(start, 3, 0));
        assert(Matrix::spec_block3(m@, 3, 3) == Matrix::spec_block3(start, 3, 3));
    }
    m
}

/// Writes three entries of a column, from row `row` on.
fn write_column(m: &mut Matrix, col: usize, row: usize, v: &Vector3)
    requires
        old(m).wf(),
        row + 3 <= old(m)@.len(),
        old(m)@.len() == 6,
        col < old(m).cols(),
    ensures
        final(m).wf(),
        final(m)@.len() == old(m)@.len(),
        final(m).cols() == old(m).cols(),
        forall|i: int, j: int|
            0 <= i < 6 && 0 <= j < old(m).cols() ==> #[trigger] final(m)@[i][j] == (if j == col && row
                <= i < row + 3 {
                v.at(i - row)
            } else {
                old(m)@[i][j]
            }),
{
    m.set(row, col, v.x);
    m.set(row + 1, col, v.y);
    m.set(row + 2, col, v.z);
}

/// Why an alignment was rejected.
#[derive(Clone, Copy, Debug, PartialEq, Eq, Structural)]
pub enum AlignmentError {
    /// The gravity has the wrong length, or the scale is negative.
    NeedMoreMotion,
}

impl AlignmentError {
    /// The error in words.
    pub fn message(&self) -> (r: String)
        ensures
            r@ == "Linear alignment result is invalid. Need more motion"@,
    {
        String::from_str("Linear alignment result is invalid. Need more motion")
    }
}

/// How far the length of the gravity may be from what it should be: 0.1.
pub open spec fn gravity_tolerance() -> Scalar {
    Scalar { bits: 0x3fb9_9999_9999_999a }
}

/// Whether an alignment is rejected: the gap between the length of its gravity and
/// the length that gravity has is beyond the tolerance, or its scale is negative.
pub open spec fn rejected(gravity_gap: Scalar, scale: Scalar) -> bool {
    gravity_tolerance().less(gravity_gap) || scale.less(Scalar::spec_zero())
}

/// An alignment with a negative scale is rejected whatever its gravity, one with a
/// scale of zero or more only for its gravity; and if one gap is accepted, so is
/// every smaller one.
pub proof fn closer_alignments_are_accepted(gap: Scalar, closer: Scalar, scale: Scalar)
    requires
        !gap.nan(),
        !closer.nan(),
        !scale.nan(),
        closer.value() <= gap.value(),
    ensures
        scale.value() < 0 ==> rejected(gap, scale),
        !rejected(gap, scale) ==> !rejected(closer, scale),
        scale.value() >= 0 ==> (rejected(gap, scale) <==> gap.value()
            > gravity_tolerance().value()),
{
}

/// Rejects an alignment whose gravity has the wrong length or whose scale is
/// negative.
pub fn check_alignment(gravity_gap: &Scalar, scale: &Scalar) -> (r: Result<(), AlignmentError>)
    ensures
        r == (if rejected(*gravity_gap, *scale) {
            Err(AlignmentError::NeedMoreMotion)
        } else {
            Ok::<(), AlignmentError>(())
        }),
{
    if Scalar::from_bits(0x3fb9_9999_9999_999a).lt(gravity_gap) || scale.lt(&Scalar::zero()) {
        Err(AlignmentError::NeedMoreMotion)
    } else {
        Ok(())
    }
}

/// The number of rounds in which the gravity is refined.
pub const REFINEMENT_ROUNDS: usize = 4;

/// Gravity as it is assumed before the alignment: 9.81 against the third axis.
pub fn prior_gravity() -> (r: Vector3)
    ensures
        r.x == Scalar::spec_zero(),
        r.y == Scalar::spec_zero(),
        r.z.bits == 0xc023_9eb8_51eb_851f,
{
    Vector3 {
        x: Scalar::zero(),
        y: Scalar::zero(),
        z: Scalar::from_bits(0xc023_9eb8_51eb_851f),
    }
}

/// Whether the entries are the numbers 0, 0 and 1.
pub open spec fn is_third_axis(a: Vector3) -> bool {
    &&& a.x.same_number(Scalar::spec_zero())
    &&& a.y.same_number(Scalar::spec_zero())
    &&& a.z.same_number(Scalar::spec_one())
}

/// The axis from which a basis of the plane across the unit vector `a` is built:
/// the third axis, or the first where `a` is the third.
pub fn tangent_seed(a: &Vector3) -> (r: Vector3)
    ensures
        is_third_axis(*a) ==> r == (Vector3 {
            x: Scalar::spec_one(),
            y: Scalar::spec_zero(),
            z: Scalar::spec_zero(),
        }),
        !is_third_axis(*a) ==> r == (Vector3 {
            x: Scalar::spec_zero(),
            y: Scalar::spec_zero(),
            z: Scalar::spec_one(),
        }),
{
    let third = Vector3 { x: Scalar::zero(), y: Scalar::zero(), z: Scalar::one() };
    let first = Vector3 { x: Scalar::one(), y: Scalar::zero(), z: Scalar::zero() };
    if a.eq_value(&third) {
        first
    } else {
        third
    }
}

} // verus!
