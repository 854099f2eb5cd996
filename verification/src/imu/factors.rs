//! The six-dimensional IMU factor, and the cross-product matrix.
use crate::linalg::{Matrix3x3, Vector3};
use crate::scalar::Scalar;
use vstd::prelude::*;

verus! {

/// An IMU factor that constrains nothing yet: its residual and its Jacobian are
/// zero.
pub struct IMUFactor {}

/// The number of rows of the residual: three for the position, three for the
/// orientation.
pub const IMU_FACTOR_DIMENSION: usize = 6;

impl IMUFactor {
    pub fn new() -> (r: IMUFactor)
        ensures
            r == (IMUFactor {  }),
    {
        IMUFactor {  }
    }

    /// The factor does not depend on measurements yet.
    pub fn from_measurements() -> (r: IMUFactor)
        ensures
            r == (IMUFactor {  }),
    {
        IMUFactor {  }
    }

    /// Six zeros.
    pub fn compute_residual(&self) -> (r: Vec<Scalar>)
        ensures
            r@ == Seq::new(IMU_FACTOR_DIMENSION as nat, |i: int| Scalar::spec_zero()),
    {
        let mut r: Vec<Scalar> = Vec::new();
        let mut i: usize = 0;
        while i < IMU_FACTOR_DIMENSION
            invariant
                i <= IMU_FACTOR_DIMENSION,
                r@ == Seq::new(i as nat, |i: int| Scalar::spec_zero()),
            decreases IMU_FACTOR_DIMENSION - i,
        {
            r.push(Scalar::zero());
            i += 1;
        }
        r
    }

    /// Six rows of six zeros.
    pub fn compute_jacobian(&self) -> (r: Vec<Vec<Scalar>>)
        ensures
            r@.len() == IMU_FACTOR_DIMENSION,
            forall|k: int|
                0 <= k < IMU_FACTOR_DIMENSION ==> (#[trigger] r@[k])@ == Seq::new(
                    IMU_FACTOR_DIMENSION as nat,
                    |i: int| Scalar::spec_zero(),
                ),
    {
        let mut r: Vec<Vec<Scalar>> = Vec::new();
        let mut k: usize = 0;
        while k < IMU_FACTOR_DIMENSION
            invariant
                k <= IMU_FACTOR_DIMENSION,
                r@.len() == k,
                forall|a: int|
                    0 <= a < k ==> (#[trigger] r@[a])@ == Seq::new(
                        IMU_FACTOR_DIMENSION as nat,
                        |i: int| Scalar::spec_zero(),
                    ),
            decreases IMU_FACTOR_DIMENSION - k,
        {
            r.push(self.compute_residual());
            k += 1;
        }
        r
    }
}

/// The matrix whose product with a vector is the cross product of `w` with it.
pub open spec fn spec_hat(w: Vector3) -> Matrix3x3 {
    Matrix3x3 {
        r0: Vector3 { x: Scalar::spec_zero(), y: w.z.opposite(), z: w.y },
        r1: Vector3 { x: w.z, y: Scalar::spec_zero(), z: w.x.opposite() },
        r2: Vector3 { x: w.y.opposite(), y: w.x, z: Scalar::spec_zero() },
    }
}

/// The matrix whose product with a vector is the cross product of `w` with it.
pub fn hat(w: &Vector3) -> (r: Matrix3x3)
    ensures
        r == spec_hat(*w),
{
    let o = Scalar::zero();
    Matrix3x3::new(o, w.z.neg(), w.y, w.z, o, w.x.neg(), w.y.neg(), w.x, o)
}

/// The vector behind a matrix of the shape that `hat` makes.
pub fn vee(m: &Matrix3x3) -> (r: Vector3)
    ensures
        r == (Vector3 { x: m.at(2, 1), y: m.at(0, 2), z: m.at(1, 0) }),
{
    Vector3 { x: m.r2.y, y: m.r0.z, z: m.r1.x }
}

/// The entries of a cross-product matrix are antisymmetric as numbers.
pub proof fn hat_is_antisymmetric(w: Vector3, i: int, j: int)
    requires
        0 <= i < 3,
        0 <= j < 3,
    ensures
        spec_hat(w).at(i, j).value() == -spec_hat(w).at(j, i).value(),
{
}

/// The product of a cross-product matrix with a vector is their cross product, in
/// numbers: row by row, for every vector of integers.
pub proof fn hat_makes_the_cross_product(w: Vector3, x: int, y: int, z: int)
    ensures
        ({
            let m = spec_hat(w);
            let (a, b, c) = (w.x.value(), w.y.value(), w.z.value());
            &&& m.at(0, 0).value() * x + m.at(0, 1).value() * y + m.at(0, 2).value() * z == b * z
                - c * y
            &&& m.at(1, 0).value() * x + m.at(1, 1).value() * y + m.at(1, 2).value() * z == c * x
                - a * z
            &&& m.at(2, 0).value() * x + m.at(2, 1).value() * y + m.at(2, 2).value() * z == a * y
                - b * x
        }),
{
    let m = spec_hat(w);
    let (a, b, c) = (w.x.value(), w.y.value(), w.z.value());
    crate::scalar::signs_are_mirrored(w.x);
    crate::scalar::signs_are_mirrored(w.y);
    crate::scalar::signs_are_mirrored(w.z);
    assert(m.at(0, 0).value() == 0 && m.at(0, 1).value() == -c && m.at(0, 2).value() == b);
    assert(m.at(1, 0).value() == c && m.at(1, 1).value() == 0 && m.at(1, 2).value() == -a);
    assert(m.at(2, 0).value() == -b && m.at(2, 1).value() == a && m.at(2, 2).value() == 0);
    assert(0 * x + (-c) * y + b * z == b * z - c * y) by (nonlinear_arith);
    assert(c * x + 0 * y + (-a) * z == c * x - a * z) by (nonlinear_arith);
    assert((-b) * x + a * y + 0 * z == a * y - b * x) by (nonlinear_arith);
}

/// The vector can be read off its cross-product matrix.
pub proof fn vee_undoes_hat(w: Vector3)
    ensures
        (Vector3 { x: spec_hat(w).at(2, 1), y: spec_hat(w).at(0, 2), z: spec_hat(w).at(1, 0) })
            == w,
{
}

/// The angle under which the closed forms on rotations are replaced by series:
/// 1e-8.
pub open spec fn small_angle() -> Scalar {
    Scalar { bits: 0x3e45_798e_e230_8c3a }
}

/// Whether an angle is so small that the closed forms on rotations are replaced
/// by series.
pub fn is_small_angle(a: &Scalar) -> (r: bool)
    ensures
        r == a.less(small_angle()),
{
    a.lt(&Scalar::from_bits(0x3e45_798e_e230_8c3a))
}

/// The cosine of a rotation angle, moved into the interval from -1 to 1 where
/// rounding has left it outside.
pub fn clamp_cosine(c: &Scalar) -> (r: Scalar)
    ensures
        r == Scalar::spec_clamp(*c, Scalar::spec_one().opposite(), Scalar::spec_one()),
        !c.nan() ==> r.value() <= Scalar::spec_one().value() && r.value() >= -Scalar::spec_one().value(),
{
    let one = Scalar::one();
    proof {
        one_is_positive();
    }
    c.clamp(&one.neg(), &one)
}

/// One is a positive number.
proof fn one_is_positive()
    ensures
        Scalar::spec_one().value() > 0,
        !Scalar::spec_one().nan(),
{
    let e: nat = 1022;
    vstd::arithmetic::power2::lemma_pow2_pos(e);
    assert(Scalar::spec_one().value() == 0x10_0000_0000_0000 * vstd::arithmetic::power2::pow2(e));
    assert(0x10_0000_0000_0000 * vstd::arithmetic::power2::pow2(e) > 0) by (nonlinear_arith)
        requires
            vstd::arithmetic::power2::pow2(e) > 0,
    ;
}

} // verus!
