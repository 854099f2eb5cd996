//! Piecewise pre-integration of IMU samples between two keyframes.
//!
//! The numbers are integrated by the caller. Decided here are which samples take
//! part and in which order, where each block of the propagation matrices
//! belongs, and what is kept.
use crate::datasets::{ImuConfig, ImuData};
use crate::estimator::frame::Frame;
use crate::estimator::state::State;
use crate::linalg::{Entries, Matrix, Matrix3x3, Matrix4x4, Quaternion, Vector3};
use crate::scalar::Scalar;
use vstd::prelude::*;

verus! {

/// The number of rows of the error state.
pub const STATE_DIMENSION: usize = 15;

/// The number of rows of the noise vector.
pub const NOISE_DIMENSION: usize = 12;

/// A three-dimensional part of the error state.
#[derive(Clone, Copy, Debug, PartialEq, Eq, Structural)]
pub enum Part {
    Rotation,
    Velocity,
    Position,
    AccelBias,
    GyroBias,
}

/// A three-dimensional part of the noise vector.
#[derive(Clone, Copy, Debug, PartialEq, Eq, Structural)]
pub enum Noise {
    Accel,
    Gyro,
    AccelWalk,
    GyroWalk,
}

/// Where each part of the error state begins.
#[derive(Clone, Copy, Debug, PartialEq, Eq, Structural)]
pub struct Layout {
    pub idx_r: usize,
    pub idx_v: usize,
    pub idx_p: usize,
    pub idx_ba: usize,
    pub idx_bg: usize,
}

impl Noise {
    /// Where the part begins.
    pub open spec fn offset(self) -> int {
        match self {
            Noise::Accel => 0,
            Noise::Gyro => 3,
            Noise::AccelWalk => 6,
            Noise::GyroWalk => 9,
        }
    }
}

impl Layout {
    /// Where the part begins.
    pub open spec fn at(self, part: Part) -> int {
        match part {
            Part::Rotation => self.idx_r as int,
            Part::Velocity => self.idx_v as int,
            Part::Position => self.idx_p as int,
            Part::AccelBias => self.idx_ba as int,
            Part::GyroBias => self.idx_bg as int,
        }
    }

    /// Where the part begins.
    pub fn index(&self, part: Part) -> (r: usize)
        ensures
            r == self.at(part),
    {
        match part {
            Part::Rotation => self.idx_r,
            Part::Velocity => self.idx_v,
            Part::Position => self.idx_p,
            Part::AccelBias => self.idx_ba,
            Part::GyroBias => self.idx_bg,
        }
    }

    /// The five parts lie in the state and share no row.
    pub open spec fn valid(self) -> bool {
        &&& forall|s: Part| (#[trigger] self.at(s)) + 3 <= STATE_DIMENSION
        &&& forall|s: Part, t: Part|
            s != t ==> (#[trigger] self.at(s)) + 3 <= (#[trigger] self.at(t)) || self.at(t) + 3
                <= self.at(s)
    }

    /// Whether the five parts lie in the state and share no row.
    pub fn is_valid(&self) -> (r: bool)
        ensures
            r == self.valid(),
    {
        let (r, v, p, a, g) = (self.idx_r, self.idx_v, self.idx_p, self.idx_ba, self.idx_bg);
        assert(r == self.at(Part::Rotation) && v == self.at(Part::Velocity) && p == self.at(
            Part::Position,
        ) && a == self.at(Part::AccelBias) && g == self.at(Part::GyroBias));
        if r > 12 || v > 12 || p > 12 || a > 12 || g > 12 {
            return false;
        }
        apart(r, v) && apart(r, p) && apart(r, a) && apart(r, g) && apart(v, p) && apart(v, a)
            && apart(v, g) && apart(p, a) && apart(p, g) && apart(a, g)
    }

    /// Rotation, velocity, position and the two biases, in this order.
    pub open spec fn spec_standard() -> Layout {
        Layout { idx_r: 0, idx_v: 3, idx_p: 6, idx_ba: 9, idx_bg: 12 }
    }

    /// Position and rotation, then velocity and the two biases.
    pub open spec fn spec_tangent() -> Layout {
        Layout { idx_r: 3, idx_v: 6, idx_p: 0, idx_ba: 9, idx_bg: 12 }
    }

    /// Rotation, velocity, position and the two biases, in this order.
    pub fn standard() -> (r: Layout)
        ensures
            r == Layout::spec_standard(),
            r.valid(),
    {
        Layout { idx_r: 0, idx_v: 3, idx_p: 6, idx_ba: 9, idx_bg: 12 }
    }

    /// The order in which a solver counts the tangent space of a pose and of the
    /// velocity and biases behind it: position, rotation, velocity, biases.
    pub fn tangent() -> (r: Layout)
        ensures
            r == Layout::spec_tangent(),
            r.valid(),
    {
        Layout { idx_r: 3, idx_v: 6, idx_p: 0, idx_ba: 9, idx_bg: 12 }
    }

    /// Each part begins where its field says. The two layouts begin with the biases
    /// at the same rows and differ in the order of the other parts.
    pub proof fn fields_place_the_parts(self)
        ensures
            self.at(Part::Rotation) == self.idx_r,
            self.at(Part::Velocity) == self.idx_v,
            self.at(Part::Position) == self.idx_p,
            self.at(Part::AccelBias) == self.idx_ba,
            self.at(Part::GyroBias) == self.idx_bg,
            Layout::spec_standard().at(Part::Rotation) < Layout::spec_standard().at(Part::Velocity)
                < Layout::spec_standard().at(Part::Position) < Layout::spec_standard().at(
                Part::AccelBias,
            ) < Layout::spec_standard().at(Part::GyroBias),
            Layout::spec_tangent().at(Part::Position) < Layout::spec_tangent().at(Part::Rotation)
                < Layout::spec_tangent().at(Part::Velocity) < Layout::spec_tangent().at(
                Part::AccelBias,
            ) < Layout::spec_tangent().at(Part::GyroBias),
            Layout::spec_standard().valid(),
            Layout::spec_tangent().valid(),
    {
    }

    /// Every row of the state belongs to a part, and to one only.
    pub proof fn parts_cover_the_state(self, row: int)
        requires
            self.valid(),
            0 <= row < STATE_DIMENSION,
        ensures
            exists|s: Part| #[trigger] self.at(s) <= row < self.at(s) + 3,
            forall|s: Part, t: Part|
                #[trigger] self.at(s) <= row < self.at(s) + 3 && #[trigger] self.at(t) <= row
                    < self.at(t) + 3 ==> s == t,
    {
        let r = self.at(Part::Rotation);
        let v = self.at(Part::Velocity);
        let p = self.at(Part::Position);
        let a = self.at(Part::AccelBias);
        let g = self.at(Part::GyroBias);
        assert(r >= 0 && v >= 0 && p >= 0 && a >= 0 && g >= 0);
        if !(r <= row < r + 3) && !(v <= row < v + 3) && !(p <= row < p + 3) && !(a <= row < a + 3)
            && !(g <= row < g + 3) {
            assert(false);
        }
    }
}

/// Whether two parts that begin at these rows share no row.
fn apart(a: usize, b: usize) -> (r: bool)
    requires
        a <= 12,
        b <= 12,
    ensures
        r == (a + 3 <= b || b + 3 <= a),
{
    a + 3 <= b || b + 3 <= a
}

/// The result of a pre-integration.
#[derive(Clone, Debug)]
pub struct PreInt {
    /// Accumulated rotation.
    pub delta_R: Quaternion,
    /// Accumulated velocity.
    pub delta_v: Vector3,
    /// Accumulated position.
    pub delta_p: Vector3,
    /// Covariance of the error state.
    pub cov: Matrix,
    /// Total time from the first to the last sample.
    pub dt: Scalar,
    /// The accelerometer bias that was assumed.
    pub linearized_ba: Vector3,
    /// The gyroscope bias that was assumed.
    pub linearized_bg: Vector3,
    /// Derivative of the error state with respect to its initial value.
    pub jacobian: Matrix,
    /// Square root of the information.
    pub sqrt_info: Matrix,
    /// The samples, for another run with other biases.
    pub imu_buffer: Vec<ImuData>,
    pub gravity: Vector3,
    pub idx_r: usize,
    pub idx_v: usize,
    pub idx_p: usize,
    pub idx_ba: usize,
    pub idx_bg: usize,
}

/// Whether `m` has a row and a column for each row of the error state.
pub open spec fn is_state_matrix(m: Matrix) -> bool {
    m.wf() && m@.len() == STATE_DIMENSION && m.cols() == STATE_DIMENSION
}

/// Whether `m` has a row and a column for each row of the error state.
fn has_state_shape(m: &Matrix) -> (r: bool)
    ensures
        r == is_state_matrix(*m),
{
    m.is_wf() && m.nrows() == STATE_DIMENSION && m.ncols() == STATE_DIMENSION
}

/// Gravity in world coordinates: 9.81007 along the third axis.
pub open spec fn standard_gravity() -> Vector3 {
    Vector3 {
        x: Scalar::spec_zero(),
        y: Scalar::spec_zero(),
        z: Scalar { bits: 0x4023_9ec1_7eba_f102 },
    }
}

/// Gravity in world coordinates: 9.81007 along the third axis.
fn gravity() -> (r: Vector3)
    ensures
        r == standard_gravity(),
{
    Vector3 {
        x: Scalar::zero(),
        y: Scalar::zero(),
        z: Scalar::from_bits(0x4023_9ec1_7eba_f102),
    }
}

/// A copy of the samples.
fn copy_samples(samples: &Vec<ImuData>) -> (r: Vec<ImuData>)
    ensures
        r@ == samples@,
{
    let mut r: Vec<ImuData> = Vec::new();
    let mut i: usize = 0;
    while i < samples.len()
        invariant
            i <= samples.len(),
            r@ == samples@.take(i as int),
        decreases samples.len() - i,
    {
        r.push(samples[i]);
        i += 1;
        assert(samples@.take(i as int) =~= samples@.take(i - 1).push(samples@[i - 1]));
    }
    assert(samples@.take(i as int) =~= samples@);
    r
}

impl PreInt {
    /// Where each part of the error state begins.
    pub open spec fn spec_layout(self) -> Layout {
        Layout {
            idx_r: self.idx_r,
            idx_v: self.idx_v,
            idx_p: self.idx_p,
            idx_ba: self.idx_ba,
            idx_bg: self.idx_bg,
        }
    }

    /// The matrices have the shape of the error state, and its parts share no
    /// row.
    pub open spec fn wf(self) -> bool {
        &&& is_state_matrix(self.cov)
        &&& is_state_matrix(self.jacobian)
        &&& is_state_matrix(self.sqrt_info)
        &&& self.spec_layout().valid()
    }

    /// The pre-integration with the given parts, in the standard layout.
    pub fn new(
        delta_R: Quaternion,
        delta_v: Vector3,
        delta_p: Vector3,
        cov: Matrix,
        dt_step: Scalar,
        bias_a: Vector3,
        bias_g: Vector3,
        jacobian: Matrix,
        sqrt_info: Matrix,
        imu_slice: &Vec<ImuData>,
        gravity: Vector3,
    ) -> (r: PreInt)
        ensures
            r.delta_R == delta_R,
            r.delta_v == delta_v,
            r.delta_p == delta_p,
            r.cov == cov,
            r.dt == dt_step,
            r.linearized_ba == bias_a,
            r.linearized_bg == bias_g,
            r.jacobian == jacobian,
            r.sqrt_info == sqrt_info,
            r.imu_buffer@ == imu_slice@,
            r.gravity == gravity,
            r.spec_layout() == Layout::spec_standard(),
            is_state_matrix(cov) && is_state_matrix(jacobian) && is_state_matrix(sqrt_info)
                ==> r.wf(),
    {
        let l = Layout::standard();
        PreInt {
            delta_R,
            delta_v,
            delta_p,
            cov,
            dt: dt_step,
            linearized_ba: bias_a,
            linearized_bg: bias_g,
            jacobian,
            sqrt_info,
            imu_buffer: copy_samples(imu_slice),
            gravity,
            idx_r: l.idx_r,
            idx_v: l.idx_v,
            idx_p: l.idx_p,
            idx_ba: l.idx_ba,
            idx_bg: l.idx_bg,
        }
    }

    /// Whether no interval has been accumulated yet, in this layout.
    pub open spec fn is_at_rest_in(self, layout: Layout) -> bool {
        &&& self.delta_R == Quaternion::spec_identity()
        &&& self.delta_v == Vector3::spec_zero()
        &&& self.delta_p == Vector3::spec_zero()
        &&& self.cov@ == Matrix::spec_zeros(STATE_DIMENSION as nat, STATE_DIMENSION as nat)
        &&& self.jacobian@ == Matrix::spec_identity(STATE_DIMENSION as nat)
        &&& self.sqrt_info@ == Matrix::spec_identity(STATE_DIMENSION as nat)
        &&& self.imu_buffer@.len() == 0
        &&& self.gravity == standard_gravity()
        &&& self.spec_layout() == layout
    }

    /// Whether neither intervals nor time have been accumulated yet, in this layout.
    pub open spec fn is_empty_in(self, layout: Layout) -> bool {
        self.is_at_rest_in(layout) && self.dt == Scalar::spec_zero()
    }

    /// The pre-integration that an integration from `state` on starts with: empty,
    /// in the solver's layout, with the biases of the state.
    pub fn starting_at(state: &State) -> (r: PreInt)
        ensures
            r.wf(),
            r.is_empty_in(Layout::spec_tangent()),
            r.linearized_ba == state.accel_bias,
            r.linearized_bg == state.gyro_bias,
    {
        let mut r = PreInt::identity_in(Layout::tangent());
        r.linearized_ba = state.accel_bias;
        r.linearized_bg = state.gyro_bias;
        r
    }

    /// The pre-integration of no samples, in the given layout.
    pub fn identity_in(layout: Layout) -> (r: PreInt)
        requires
            layout.valid(),
        ensures
            r.wf(),
            r.is_empty_in(layout),
            r.linearized_ba == Vector3::spec_zero(),
            r.linearized_bg == Vector3::spec_zero(),
    {
        PreInt {
            delta_R: Quaternion::identity(),
            delta_v: Vector3::zeros(),
            delta_p: Vector3::zeros(),
            cov: Matrix::zeros(STATE_DIMENSION, STATE_DIMENSION),
            dt: Scalar::zero(),
            linearized_ba: Vector3::zeros(),
            linearized_bg: Vector3::zeros(),
            jacobian: Matrix::identity(STATE_DIMENSION),
            sqrt_info: Matrix::identity(STATE_DIMENSION),
            imu_buffer: Vec::new(),
            gravity: gravity(),
            idx_r: layout.idx_r,
            idx_v: layout.idx_v,
            idx_p: layout.idx_p,
            idx_ba: layout.idx_ba,
            idx_bg: layout.idx_bg,
        }
    }

    /// The pre-integration of no samples, in the standard layout.
    pub fn identity() -> (r: PreInt)
        ensures
            r.wf(),
            r.is_empty_in(Layout::spec_standard()),
            r.linearized_ba == Vector3::spec_zero(),
            r.linearized_bg == Vector3::spec_zero(),
    {
        PreInt::identity_in(Layout::standard())
    }

    /// Whether the matrices have the shape of the error state, and its parts share
    /// no row.
    pub fn is_wf(&self) -> (r: bool)
        ensures
            r == self.wf(),
    {
        has_state_shape(&self.cov) && has_state_shape(&self.jacobian) && has_state_shape(
            &self.sqrt_info,
        ) && self.layout().is_valid()
    }

    /// Whether the solver reads the measurement rightly: whether it is in the
    /// tangent layout.
    pub fn is_for_solver(&self) -> (r: bool)
        ensures
            r == (self.spec_layout() == Layout::spec_tangent()),
    {
        self.idx_r == 3 && self.idx_v == 6 && self.idx_p == 0 && self.idx_ba == 9 && self.idx_bg
            == 12
    }

    /// Where each part of the error state begins.
    pub fn layout(&self) -> (r: Layout)
        ensures
            r == self.spec_layout(),
    {
        Layout {
            idx_r: self.idx_r,
            idx_v: self.idx_v,
            idx_p: self.idx_p,
            idx_ba: self.idx_ba,
            idx_bg: self.idx_bg,
        }
    }
}

/// The blocks of the propagation matrix of the error state that depend on the
/// sample.
#[derive(Clone, Copy, Debug, PartialEq, Eq, Structural)]
pub struct TransitionBlocks {
    /// Rotation by rotation.
    pub phiphi: Matrix3x3,
    /// Velocity by rotation.
    pub vphi: Matrix3x3,
    /// Position by rotation.
    pub pphi: Matrix3x3,
    /// Position by velocity.
    pub pv: Matrix3x3,
    /// Rotation by gyroscope bias.
    pub phibg: Matrix3x3,
    /// Velocity by accelerometer bias.
    pub vba: Matrix3x3,
    /// Position by accelerometer bias.
    pub pba: Matrix3x3,
}

impl TransitionBlocks {
    /// The block of the propagation matrix in the rows of `s` and the columns of
    /// `t`. The velocity, the position and the biases carry over.
    pub open spec fn block(self, s: Part, t: Part) -> Matrix3x3 {
        match (s, t) {
            (Part::Rotation, Part::Rotation) => self.phiphi,
            (Part::Velocity, Part::Rotation) => self.vphi,
            (Part::Position, Part::Rotation) => self.pphi,
            (Part::Position, Part::Velocity) => self.pv,
            (Part::Rotation, Part::GyroBias) => self.phibg,
            (Part::Velocity, Part::AccelBias) => self.vba,
            (Part::Position, Part::AccelBias) => self.pba,
            (Part::Velocity, Part::Velocity) => Matrix3x3::spec_identity(),
            (Part::Position, Part::Position) => Matrix3x3::spec_identity(),
            (Part::AccelBias, Part::AccelBias) => Matrix3x3::spec_identity(),
            (Part::GyroBias, Part::GyroBias) => Matrix3x3::spec_identity(),
            _ => Matrix3x3::spec_zero(),
        }
    }
}

/// The blocks of the matrix that carries the noise into the error state.
#[derive(Clone, Copy, Debug, PartialEq, Eq, Structural)]
pub struct InputBlocks {
    /// Rotation by gyroscope noise.
    pub phig: Matrix3x3,
    /// Velocity by accelerometer noise.
    pub va: Matrix3x3,
    /// Position by accelerometer noise.
    pub pa: Matrix3x3,
    /// Position by gyroscope noise.
    pub pg: Matrix3x3,
    /// Accelerometer bias by its random walk.
    pub ba: Matrix3x3,
    /// Gyroscope bias by its random walk.
    pub bg: Matrix3x3,
}

impl InputBlocks {
    /// The block in the rows of `s` and the columns of `n`.
    pub open spec fn block(self, s: Part, n: Noise) -> Matrix3x3 {
        match (s, n) {
            (Part::Rotation, Noise::Gyro) => self.phig,
            (Part::Velocity, Noise::Accel) => self.va,
            (Part::Position, Noise::Accel) => self.pa,
            (Part::Position, Noise::Gyro) => self.pg,
            (Part::AccelBias, Noise::AccelWalk) => self.ba,
            (Part::GyroBias, Noise::GyroWalk) => self.bg,
            _ => Matrix3x3::spec_zero(),
        }
    }
}

/// The covariances of the four parts of the noise.
#[derive(Clone, Copy, Debug, PartialEq, Eq, Structural)]
pub struct NoiseBlocks {
    pub accel: Matrix3x3,
    pub gyro: Matrix3x3,
    pub accel_walk: Matrix3x3,
    pub gyro_walk: Matrix3x3,
}

impl NoiseBlocks {
    /// The block in the rows of `m` and the columns of `n`: parts are not
    /// correlated with each other.
    pub open spec fn block(self, m: Noise, n: Noise) -> Matrix3x3 {
        if m != n {
            Matrix3x3::spec_zero()
        } else {
            match n {
                Noise::Accel => self.accel,
                Noise::Gyro => self.gyro,
                Noise::AccelWalk => self.accel_walk,
                Noise::GyroWalk => self.gyro_walk,
            }
        }
    }
}

/// Each block stands in the rows of what changes and in the columns of what it
/// changes with; velocity, position and biases carry over, and nothing else is
/// tied together. The biases change with nothing, the accelerometer bias moves
/// velocity and position only, the gyroscope bias the rotation only.
pub proof fn transition_blocks_have_their_places(b: TransitionBlocks)
    ensures
        b.block(Part::Rotation, Part::Rotation) == b.phiphi,
        b.block(Part::Velocity, Part::Rotation) == b.vphi,
        b.block(Part::Position, Part::Rotation) == b.pphi,
        b.block(Part::Position, Part::Velocity) == b.pv,
        b.block(Part::Velocity, Part::AccelBias) == b.vba,
        b.block(Part::Position, Part::AccelBias) == b.pba,
        b.block(Part::Rotation, Part::GyroBias) == b.phibg,
        forall|s: Part|
            s != Part::Rotation ==> #[trigger] b.block(s, s) == Matrix3x3::spec_identity(),
        forall|t: Part|
            t == Part::Velocity || t == Part::Position || t == Part::AccelBias
                ==> #[trigger] b.block(Part::Rotation, t) == Matrix3x3::spec_zero(),
        b.block(Part::Velocity, Part::Position) == Matrix3x3::spec_zero(),
        b.block(Part::Velocity, Part::GyroBias) == Matrix3x3::spec_zero(),
        b.block(Part::Position, Part::GyroBias) == Matrix3x3::spec_zero(),
        forall|t: Part|
            t != Part::AccelBias ==> #[trigger] b.block(Part::AccelBias, t)
                == Matrix3x3::spec_zero(),
        forall|t: Part|
            t != Part::GyroBias ==> #[trigger] b.block(Part::GyroBias, t)
                == Matrix3x3::spec_zero(),
{
}

/// Whether the blocks are those of a step that takes no time.
pub open spec fn takes_no_time(b: TransitionBlocks) -> bool {
    &&& b.phiphi == Matrix3x3::spec_identity()
    &&& b.vphi == Matrix3x3::spec_zero()
    &&& b.pphi == Matrix3x3::spec_zero()
    &&& b.pv == Matrix3x3::spec_zero()
    &&& b.phibg == Matrix3x3::spec_zero()
    &&& b.vba == Matrix3x3::spec_zero()
    &&& b.pba == Matrix3x3::spec_zero()
}

/// A step that takes no time leaves the error state as it is: a matrix that is made
/// of its blocks, in whatever layout, is the identity matrix.
pub proof fn no_time_changes_nothing(layout: Layout, b: TransitionBlocks, m: Entries)
    requires
        layout.valid(),
        takes_no_time(b),
        Matrix::has_shape(m, STATE_DIMENSION as nat, STATE_DIMENSION as nat),
        forall|s: Part, t: Part|
            #![trigger layout.at(s), layout.at(t)]
            Matrix::spec_block3(m, layout.at(s), layout.at(t)) == b.block(s, t),
    ensures
        m == Matrix::spec_identity(STATE_DIMENSION as nat),
{
    assert forall|i: int, j: int| 0 <= i < 15 && 0 <= j < 15 implies #[trigger] m[i][j]
        == Matrix::identity_entry(i, j) by {
        layout.parts_cover_the_state(i);
        layout.parts_cover_the_state(j);
        let s = choose|s: Part| #[trigger] layout.at(s) <= i < layout.at(s) + 3;
        let t = choose|t: Part| #[trigger] layout.at(t) <= j < layout.at(t) + 3;
        let x = Matrix::spec_block3(m, layout.at(s), layout.at(t));
        assert(x == b.block(s, t));
        assert(x.at(i - layout.at(s), j - layout.at(t)) == m[i][j]);
        if s == t {
            assert(x == Matrix3x3::spec_identity());
        } else {
            assert(x == Matrix3x3::spec_zero());
            assert(i != j);
        }
    }
    assert(m =~~= Matrix::spec_identity(STATE_DIMENSION as nat));
}

/// The noise of the gyroscope turns and moves the platform, that of the
/// accelerometer speeds it up and moves it; each bias has a random walk of its own
/// and no other noise.
pub proof fn input_blocks_have_their_places(b: InputBlocks)
    ensures
        b.block(Part::Rotation, Noise::Gyro) == b.phig,
        b.block(Part::Velocity, Noise::Accel) == b.va,
        b.block(Part::Position, Noise::Accel) == b.pa,
        b.block(Part::Position, Noise::Gyro) == b.pg,
        b.block(Part::AccelBias, Noise::AccelWalk) == b.ba,
        b.block(Part::GyroBias, Noise::GyroWalk) == b.bg,
        b.block(Part::Rotation, Noise::Accel) == Matrix3x3::spec_zero(),
        b.block(Part::Velocity, Noise::Gyro) == Matrix3x3::spec_zero(),
        forall|s: Part|
            s != Part::AccelBias ==> #[trigger] b.block(s, Noise::AccelWalk)
                == Matrix3x3::spec_zero(),
        forall|s: Part|
            s != Part::GyroBias ==> #[trigger] b.block(s, Noise::GyroWalk)
                == Matrix3x3::spec_zero(),
        forall|n: Noise|
            n != Noise::AccelWalk ==> #[trigger] b.block(Part::AccelBias, n)
                == Matrix3x3::spec_zero(),
        forall|n: Noise|
            n != Noise::GyroWalk ==> #[trigger] b.block(Part::GyroBias, n)
                == Matrix3x3::spec_zero(),
{
}

/// Each sensor and each random walk has its own covariance on the diagonal, in the
/// place where the noise of that name enters the state.
pub proof fn noise_blocks_have_their_places(b: NoiseBlocks)
    ensures
        b.block(Noise::Accel, Noise::Accel) == b.accel,
        b.block(Noise::Gyro, Noise::Gyro) == b.gyro,
        b.block(Noise::AccelWalk, Noise::AccelWalk) == b.accel_walk,
        b.block(Noise::GyroWalk, Noise::GyroWalk) == b.gyro_walk,
        forall|m: Noise, n: Noise|
            m != n ==> #[trigger] b.block(m, n) == Matrix3x3::spec_zero(),
        Noise::Accel.offset() == 0,
        Noise::Gyro.offset() == 3,
        Noise::AccelWalk.offset() == 6,
        Noise::GyroWalk.offset() == 9,
{
}

/// The propagation matrix of the error state.
pub fn construct_A(layout: &Layout, b: &TransitionBlocks) -> (r: Matrix)
    requires
        layout.valid(),
    ensures
        is_state_matrix(r),
        forall|s: Part, t: Part|
            #![trigger layout.at(s), layout.at(t)]
            Matrix::spec_block3(r@, layout.at(s), layout.at(t)) == b.block(s, t),
        Matrix::spec_block3(r@, layout.idx_r as int, layout.idx_r as int) == b.phiphi,
        Matrix::spec_block3(r@, layout.idx_v as int, layout.idx_r as int) == b.vphi,
        Matrix::spec_block3(r@, layout.idx_p as int, layout.idx_r as int) == b.pphi,
        Matrix::spec_block3(r@, layout.idx_p as int, layout.idx_v as int) == b.pv,
        Matrix::spec_block3(r@, layout.idx_r as int, layout.idx_bg as int) == b.phibg,
        Matrix::spec_block3(r@, layout.idx_v as int, layout.idx_ba as int) == b.vba,
        Matrix::spec_block3(r@, layout.idx_p as int, layout.idx_ba as int) == b.pba,
{
    let i3 = Matrix3x3::identity();
    let (r, v, p, ba, bg) = (
        layout.idx_r,
        layout.idx_v,
        layout.idx_p,
        layout.idx_ba,
        layout.idx_bg,
    );
    assert(r == layout.at(Part::Rotation) && v == layout.at(Part::Velocity) && p == layout.at(
        Part::Position,
    ) && ba == layout.at(Part::AccelBias) && bg == layout.at(Part::GyroBias));
    let mut a = Matrix::zeros(STATE_DIMENSION, STATE_DIMENSION);
    a.set_block3(r, r, &b.phiphi);
    a.set_block3(v, r, &b.vphi);
    a.set_block3(p, r, &b.pphi);
    a.set_block3(p, v, &b.pv);
    a.set_block3(v, v, &i3);
    a.set_block3(p, p, &i3);
    a.set_block3(ba, ba, &i3);
    a.set_block3(bg, bg, &i3);
    a.set_block3(r, bg, &b.phibg);
    a.set_block3(v, ba, &b.vba);
    a.set_block3(p, ba, &b.pba);
    a
}

/// The matrix that carries the noise into the error state.
pub fn construct_B(layout: &Layout, b: &InputBlocks) -> (r: Matrix)
    requires
        layout.valid(),
    ensures
        r.wf(),
        r@.len() == STATE_DIMENSION,
        r.cols() == NOISE_DIMENSION,
        forall|s: Part, n: Noise|
            #![trigger layout.at(s), n.offset()]
            Matrix::spec_block3(r@, layout.at(s), n.offset()) == b.block(s, n),
        Matrix::spec_block3(r@, layout.idx_r as int, 3) == b.phig,
        Matrix::spec_block3(r@, layout.idx_v as int, 0) == b.va,
        Matrix::spec_block3(r@, layout.idx_p as int, 0) == b.pa,
        Matrix::spec_block3(r@, layout.idx_p as int, 3) == b.pg,
        Matrix::spec_block3(r@, layout.idx_ba as int, 6) == b.ba,
        Matrix::spec_block3(r@, layout.idx_bg as int, 9) == b.bg,
{
    let (r, v, p, ba, bg) = (
        layout.idx_r,
        layout.idx_v,
        layout.idx_p,
        layout.idx_ba,
        layout.idx_bg,
    );
    assert(r == layout.at(Part::Rotation) && v == layout.at(Part::Velocity) && p == layout.at(
        Part::Position,
    ) && ba == layout.at(Part::AccelBias) && bg == layout.at(Part::GyroBias));
    let mut m = Matrix::zeros(STATE_DIMENSION, NOISE_DIMENSION);
    m.set_block3(r, 3, &b.phig);
    m.set_block3(v, 0, &b.va);
    m.set_block3(p, 0, &b.pa);
    m.set_block3(p, 3, &b.pg);
    m.set_block3(ba, 6, &b.ba);
    m.set_block3(bg, 9, &b.bg);
    m
}

/// The covariance of the noise: the four blocks along the diagonal.
pub fn compute_noise(b: &NoiseBlocks) -> (r: Matrix)
    ensures
        r.wf(),
        r@.len() == NOISE_DIMENSION,
        r.cols() == NOISE_DIMENSION,
        forall|m: Noise, n: Noise|
            #![trigger m.offset(), n.offset()]
            Matrix::spec_block3(r@, m.offset(), n.offset()) == b.block(m, n),
        Matrix::spec_block3(r@, 0, 0) == b.accel,
        Matrix::spec_block3(r@, 3, 3) == b.gyro,
        Matrix::spec_block3(r@, 6, 6) == b.accel_walk,
        Matrix::spec_block3(r@, 9, 9) == b.gyro_walk,
{
    let mut q = Matrix::zeros(NOISE_DIMENSION, NOISE_DIMENSION);
    q.set_block3(0, 0, &b.accel);
    q.set_block3(3, 3, &b.gyro);
    q.set_block3(6, 6, &b.accel_walk);
    q.set_block3(9, 9, &b.gyro_walk);
    q
}

/// One step of the walk over the samples: from the sample that the integration
/// has reached to the next one of the slice.
#[derive(Clone, Copy, Debug, PartialEq, Eq, Structural)]
pub enum ImuStep {
    /// The state is carried over the time between the two samples, with the
    /// measurement of the first; the second has then been reached.
    Propagate { from: usize, to: usize },
    /// The second sample is not later than the first, and is passed over.
    Skip { from: usize, to: usize },
}

/// The sample that the integration has reached once it has seen sample `k`.
pub open spec fn reached(seconds: Seq<Scalar>, k: int) -> int
    decreases k,
{
    if k <= 0 {
        0
    } else {
        let before = reached(seconds, k - 1);
        if seconds[before].less(seconds[k]) {
            k
        } else {
            before
        }
    }
}

/// The step to sample `k`.
pub open spec fn step_to(seconds: Seq<Scalar>, k: int) -> ImuStep {
    let before = reached(seconds, k - 1);
    if seconds[before].less(seconds[k]) {
        ImuStep::Propagate { from: before as usize, to: k as usize }
    } else {
        ImuStep::Skip { from: before as usize, to: k as usize }
    }
}

/// The walk over samples at these times: one step to each but the first.
pub open spec fn walk(seconds: Seq<Scalar>) -> Seq<ImuStep>
    recommends
        seconds.len() > 0,
{
    Seq::new((seconds.len() - 1) as nat, |i: int| step_to(seconds, i + 1))
}

/// Whether every time is a finite number.
pub open spec fn all_finite(seconds: Seq<Scalar>) -> bool {
    forall|i: int| 0 <= i < seconds.len() ==> (#[trigger] seconds[i]).finite()
}

/// The sample that was reached was seen, and none that was seen is later.
proof fn lemma_reached_is_latest(seconds: Seq<Scalar>, k: int)
    requires
        all_finite(seconds),
        0 <= k < seconds.len(),
    ensures
        0 <= reached(seconds, k) <= k,
        forall|j: int|
            0 <= j <= k ==> (#[trigger] seconds[j]).value() <= seconds[reached(seconds, k)].value(),
    decreases k,
{
    if k > 0 {
        lemma_reached_is_latest(seconds, k - 1);
        let before = reached(seconds, k - 1);
        assert(seconds[before].finite() && seconds[k].finite());
    }
}

/// From when to when the time of the step at index `i` counts: the time that the
/// state is carried over, and at the end the time back to the last sample, where
/// that is passed over.
pub open spec fn spec_counted(seconds: Seq<Scalar>, steps: Seq<ImuStep>, i: int) -> Option<
    (Scalar, Scalar),
> {
    match steps[i] {
        ImuStep::Propagate { from, to } => Some((seconds[from as int], seconds[to as int])),
        ImuStep::Skip { from, to } => if i == steps.len() - 1 {
            Some((seconds[from as int], seconds[to as int]))
        } else {
            None
        },
    }
}

/// From when to when the time of the step at index `i` counts, if it does. The
/// counted times add up to the time from the first to the last sample.
pub fn counted(seconds: &Vec<Scalar>, steps: &Vec<ImuStep>, i: usize) -> (r: Option<
    (Scalar, Scalar),
>)
    requires
        i < steps@.len(),
        match steps@[i as int] {
            ImuStep::Propagate { from, to } => from < seconds@.len() && to < seconds@.len(),
            ImuStep::Skip { from, to } => from < seconds@.len() && to < seconds@.len(),
        },
    ensures
        r == spec_counted(seconds@, steps@, i as int),
{
    match steps[i] {
        ImuStep::Propagate { from, to } => Some((seconds[from], seconds[to])),
        ImuStep::Skip { from, to } => if i == steps.len() - 1 {
            Some((seconds[from], seconds[to]))
        } else {
            None
        },
    }
}

/// The times of the first `n` steps that count, added up.
pub open spec fn counted_time(seconds: Seq<Scalar>, steps: Seq<ImuStep>, n: nat) -> int
    decreases n,
{
    if n == 0 {
        0
    } else {
        counted_time(seconds, steps, (n - 1) as nat) + (match spec_counted(seconds, steps, n - 1) {
            Some((start, end)) => end.value() - start.value(),
            None => 0,
        })
    }
}

/// Before the last step, the counted times are those that the state is carried
/// over.
proof fn lemma_counted_before_the_end(seconds: Seq<Scalar>, n: nat)
    requires
        all_finite(seconds),
        seconds.len() <= usize::MAX,
        n + 1 < seconds.len(),
    ensures
        counted_time(seconds, walk(seconds), n) == integrated_time(seconds, n as int),
    decreases n,
{
    if n > 0 {
        lemma_counted_before_the_end(seconds, (n - 1) as nat);
        assert(walk(seconds)[n - 1] == step_to(seconds, n as int));
    }
}

/// The counted times add up to the elapsed time: that from the first sample to the
/// last.
pub proof fn counted_time_is_the_elapsed_time(seconds: Seq<Scalar>)
    requires
        all_finite(seconds),
        0 < seconds.len() <= usize::MAX,
    ensures
        counted_time(seconds, walk(seconds), walk(seconds).len()) == seconds.last().value()
            - seconds.first().value(),
{
    let steps = walk(seconds);
    let n = steps.len();
    if n > 0 {
        lemma_counted_before_the_end(seconds, (n - 1) as nat);
        steps_cover_the_elapsed_time(seconds, n - 1);
        lemma_reached_is_latest(seconds, n - 1);
        assert(steps[n - 1] == step_to(seconds, n as int));
    }
}

/// The time that the steps up to sample `k` carry the state over.
pub open spec fn integrated_time(seconds: Seq<Scalar>, k: int) -> int
    decreases k,
{
    if k <= 0 {
        0
    } else {
        let before = integrated_time(seconds, k - 1);
        match step_to(seconds, k) {
            ImuStep::Propagate { from, to } => before + (seconds[to as int].value()
                - seconds[from as int].value()),
            ImuStep::Skip { .. } => before,
        }
    }
}

/// The steps leave no time out and count none twice: together they carry the state
/// from the first sample to the latest one.
pub proof fn steps_cover_the_elapsed_time(seconds: Seq<Scalar>, k: int)
    requires
        all_finite(seconds),
        seconds.len() <= usize::MAX,
        0 <= k < seconds.len(),
    ensures
        integrated_time(seconds, k) == seconds[reached(seconds, k)].value() - seconds[0].value(),
        forall|j: int|
            0 <= j <= k ==> (#[trigger] seconds[j]).value() <= seconds[0].value()
                + integrated_time(seconds, k),
    decreases k,
{
    lemma_reached_is_latest(seconds, k);
    if k > 0 {
        steps_cover_the_elapsed_time(seconds, k - 1);
        lemma_reached_is_latest(seconds, k - 1);
    }
}

/// A sample takes part in the integration if and only if it is later than every
/// sample before it.
pub proof fn sample_takes_part_when_later(seconds: Seq<Scalar>, k: int)
    requires
        all_finite(seconds),
        0 < k < seconds.len(),
    ensures
        step_to(seconds, k) is Propagate <==> (forall|j: int|
            0 <= j < k ==> (#[trigger] seconds[j]).value() < seconds[k].value()),
{
    lemma_reached_is_latest(seconds, k - 1);
    let before = reached(seconds, k - 1);
    assert(seconds[before].finite() && seconds[k].finite());
    if step_to(seconds, k) is Propagate {
        assert forall|j: int| 0 <= j < k implies (#[trigger] seconds[j]).value()
            < seconds[k].value() by {
            assert(seconds[j].value() <= seconds[before].value());
        }
    }
}

/// Where the times increase, no sample is passed over: the walk goes from each
/// sample to the next, from the first to the last.
pub proof fn increasing_samples_all_take_part(seconds: Seq<Scalar>)
    requires
        all_finite(seconds),
        seconds.len() > 0,
        forall|i: int, j: int|
            0 <= i < j < seconds.len() ==> (#[trigger] seconds[i]).value()
                < (#[trigger] seconds[j]).value(),
    ensures
        walk(seconds).len() == seconds.len() - 1,
        forall|i: int|
            0 <= i < seconds.len() - 1 ==> #[trigger] walk(seconds)[i] == (ImuStep::Propagate {
                from: i as usize,
                to: (i + 1) as usize,
            }),
{
    assert forall|i: int| 0 <= i < seconds.len() - 1 implies #[trigger] walk(seconds)[i] == (
    ImuStep::Propagate { from: i as usize, to: (i + 1) as usize }) by {
        lemma_reached_in_order(seconds, i);
        assert(seconds[i].finite() && seconds[i + 1].finite());
    }
}

/// Where the times increase, the sample that was reached is the one seen last.
proof fn lemma_reached_in_order(seconds: Seq<Scalar>, k: int)
    requires
        all_finite(seconds),
        0 <= k < seconds.len(),
        forall|i: int, j: int|
            0 <= i < j < seconds.len() ==> (#[trigger] seconds[i]).value()
                < (#[trigger] seconds[j]).value(),
    ensures
        reached(seconds, k) == k,
    decreases k,
{
    if k > 0 {
        lemma_reached_in_order(seconds, k - 1);
        assert(seconds[k - 1].finite() && seconds[k].finite());
    }
}

/// The walk over samples at these times.
pub fn walk_samples(seconds: &Vec<Scalar>) -> (r: Vec<ImuStep>)
    requires
        seconds@.len() > 0,
        all_finite(seconds@),
    ensures
        r@ == walk(seconds@),
{
    let mut r: Vec<ImuStep> = Vec::new();
    let mut from: usize = 0;
    let mut to: usize = 1;
    while to < seconds.len()
        invariant
            1 <= to <= seconds@.len(),
            all_finite(seconds@),
            from == reached(seconds@, to - 1),
            from < to,
            r@.len() == to - 1,
            forall|i: int| 0 <= i < to - 1 ==> #[trigger] r@[i] == step_to(seconds@, i + 1),
        decreases seconds@.len() - to,
    {
        if seconds[from].lt(&seconds[to]) {
            r.push(ImuStep::Propagate { from, to });
            from = to;
        } else {
            r.push(ImuStep::Skip { from, to });
        }
        to += 1;
    }
    assert(r@ =~= walk(seconds@));
    r
}

/// The gap between the first and the last sample from which on the samples are
/// not integrated: five seconds, in nanoseconds.
pub const MAX_GAP: i64 = 5_000_000_000;

/// Whether samples can be integrated: there are some, and they cover less than
/// five seconds.
pub open spec fn integrable(samples: Seq<ImuData>) -> bool {
    samples.len() > 0 && samples.last().timestamp - samples.first().timestamp < MAX_GAP
}

/// The integration of the samples between two keyframes.
pub struct ImuPiecewiseIntegration {
    pub T_BS: Matrix4x4,
    pub accel_noise_density: Scalar,
    pub gyro_noise_density: Scalar,
    pub accel_random_walk: Scalar,
    pub gyro_random_walk: Scalar,
    /// The samples that were integrated last.
    pub imu_buffer: Vec<ImuData>,
    pub gravity: Vector3,
    /// Covariance of the noise, before it is divided by the time step.
    pub continious_noise: Matrix,
}

/// An integration, or none where there is no IMU.
pub enum ImuPipeline {
    Enabled(ImuPiecewiseIntegration),
    Disabled,
}

impl ImuPiecewiseIntegration {
    /// The integration of an IMU in the origin of the body frame, with unit
    /// noise.
    pub fn new() -> (r: ImuPiecewiseIntegration)
        ensures
            r.T_BS == Matrix4x4::spec_identity(),
            r.accel_noise_density == Scalar::spec_one(),
            r.gyro_noise_density == Scalar::spec_one(),
            r.accel_random_walk == Scalar::spec_one(),
            r.gyro_random_walk == Scalar::spec_one(),
            r.imu_buffer@.len() == 0,
            r.gravity == standard_gravity(),
            r.continious_noise.wf(),
            r.continious_noise@ == Matrix::spec_zeros(
                NOISE_DIMENSION as nat,
                NOISE_DIMENSION as nat,
            ),
    {
        ImuPiecewiseIntegration {
            T_BS: Matrix4x4::identity(),
            accel_noise_density: Scalar::one(),
            gyro_noise_density: Scalar::one(),
            accel_random_walk: Scalar::one(),
            gyro_random_walk: Scalar::one(),
            imu_buffer: Vec::new(),
            gravity: gravity(),
            continious_noise: Matrix::zeros(NOISE_DIMENSION, NOISE_DIMENSION),
        }
    }

    /// The integration of the IMU that `config` describes.
    pub fn from_config(config: ImuConfig) -> (r: ImuPiecewiseIntegration)
        requires
            config.T_BS.data@.len() == 16,
        ensures
            r.configured_by(config),
            r.accel_noise_density == config.accel_noise_density,
            r.gyro_noise_density == config.gyro_noise_density,
            r.accel_random_walk == config.accel_random_walk,
            r.gyro_random_walk == config.gyro_random_walk,
    {
        ImuPiecewiseIntegration {
            T_BS: Matrix4x4::from_row_slice(&config.T_BS.data),
            accel_noise_density: config.accel_noise_density,
            gyro_noise_density: config.gyro_noise_density,
            accel_random_walk: config.accel_random_walk,
            gyro_random_walk: config.gyro_random_walk,
            imu_buffer: Vec::new(),
            gravity: gravity(),
            continious_noise: Matrix::zeros(NOISE_DIMENSION, NOISE_DIMENSION),
        }
    }

    /// Whether this is the integration that `config` describes, before any
    /// sample.
    pub open spec fn configured_by(self, config: ImuConfig) -> bool {
        &&& forall|i: int, j: int|
            0 <= i < 4 && 0 <= j < 4 ==> #[trigger] self.T_BS.at(i, j) == config.T_BS.data@[4 * i
                + j]
        &&& self.accel_noise_density == config.accel_noise_density
        &&& self.gyro_noise_density == config.gyro_noise_density
        &&& self.accel_random_walk == config.accel_random_walk
        &&& self.gyro_random_walk == config.gyro_random_walk
        &&& self.imu_buffer@.len() == 0
        &&& self.gravity == standard_gravity()
        &&& self.continious_noise.wf()
        &&& self.continious_noise@ == Matrix::spec_zeros(
            NOISE_DIMENSION as nat,
            NOISE_DIMENSION as nat,
        )
    }

    /// Whether `self` has the calibration and the gravity of `other`.
    pub open spec fn same_parameters(self, other: ImuPiecewiseIntegration) -> bool {
        &&& self.T_BS == other.T_BS
        &&& self.accel_noise_density == other.accel_noise_density
        &&& self.gyro_noise_density == other.gyro_noise_density
        &&& self.accel_random_walk == other.accel_random_walk
        &&& self.gyro_random_walk == other.gyro_random_walk
        &&& self.gravity == other.gravity
    }

    /// What follows when the samples are offered for integration: the walk to
    /// take, or none where they cannot be integrated.
    pub open spec fn processed(
        before: ImuPiecewiseIntegration,
        after: ImuPiecewiseIntegration,
        samples: Seq<ImuData>,
        seconds: Seq<Scalar>,
        noise: NoiseBlocks,
        result: Option<Seq<ImuStep>>,
    ) -> bool {
        if integrable(samples) {
            &&& result == Some(walk(seconds))
            &&& after.same_parameters(before)
            &&& after.imu_buffer@ == samples
            &&& after.continious_noise.wf()
            &&& after.continious_noise@.len() == NOISE_DIMENSION
            &&& after.continious_noise.cols() == NOISE_DIMENSION
            &&& forall|m: Noise, n: Noise|
                #![trigger m.offset(), n.offset()]
                Matrix::spec_block3(after.continious_noise@, m.offset(), n.offset())
                    == noise.block(m, n)
        } else {
            &&& result is None
            &&& after == before
        }
    }

    /// Starts the integration of `imu_slice`, whose timestamps in seconds are
    /// `seconds` and whose noise has the covariances `noise`. Gives the steps to
    /// take, or none if there are no samples or they cover five seconds or more.
    /// The samples are kept for another run.
    pub fn process_imu(
        &mut self,
        imu_slice: &Vec<ImuData>,
        seconds: &Vec<Scalar>,
        noise: &NoiseBlocks,
    ) -> (r: Option<Vec<ImuStep>>)
        requires
            seconds@.len() == imu_slice@.len(),
            all_finite(seconds@),
            imu_slice@.len() > 0 ==> i64::MIN <= imu_slice@.last().timestamp
                - imu_slice@.first().timestamp <= i64::MAX,
        ensures
            ImuPiecewiseIntegration::processed(
                *old(self),
                *final(self),
                imu_slice@,
                seconds@,
                *noise,
                view_steps(r),
            ),
    {
        let n = imu_slice.len();
        if n == 0 {
            return None;
        }
        let gap: i64 = imu_slice[n - 1].timestamp - imu_slice[0].timestamp;
        if gap >= MAX_GAP {
            return None;
        }
        self.imu_buffer = copy_samples(imu_slice);
        self.continious_noise = compute_noise(noise);
        Some(walk_samples(seconds))
    }

    /// The steps of another run over the samples that were integrated last,
    /// whose timestamps in seconds are `seconds`. The run starts with the empty
    /// pre-integration, as the first did.
    pub fn repropagate(&self, seconds: &Vec<Scalar>) -> (r: (PreInt, Vec<ImuStep>))
        requires
            self.imu_buffer@.len() > 0,
            seconds@.len() == self.imu_buffer@.len(),
            all_finite(seconds@),
        ensures
            r.0.wf(),
            r.0.is_empty_in(Layout::spec_tangent()),
            r.0.linearized_ba == Vector3::spec_zero(),
            r.0.linearized_bg == Vector3::spec_zero(),
            r.1@ == walk(seconds@),
    {
        (PreInt::identity_in(Layout::tangent()), walk_samples(seconds))
    }
}

/// An integration takes each figure of the calibration over under its own name: the
/// transform row by row, the noise densities and the random walks of either sensor.
/// It starts without samples.
pub proof fn calibration_is_taken_over(r: ImuPiecewiseIntegration, config: ImuConfig)
    requires
        r.configured_by(config),
    ensures
        r.accel_noise_density == config.accel_noise_density,
        r.gyro_noise_density == config.gyro_noise_density,
        r.accel_random_walk == config.accel_random_walk,
        r.gyro_random_walk == config.gyro_random_walk,
        forall|i: int, j: int|
            0 <= i < 4 && 0 <= j < 4 ==> #[trigger] r.T_BS.at(i, j) == config.T_BS.data@[4 * i + j],
        r.imu_buffer@.len() == 0,
        r.gravity == standard_gravity(),
{
}

/// Gravity points along the third axis and along no other. It is between nine and
/// ten times as large as one.
pub proof fn gravity_is_along_the_third_axis()
    ensures
        standard_gravity().x.value() == 0,
        standard_gravity().y.value() == 0,
        9 * Scalar::spec_one().value() < standard_gravity().z.value() < 10
            * Scalar::spec_one().value(),
{
    let nine = Scalar { bits: 0x4022_0000_0000_0000 };
    let p = vstd::arithmetic::power2::pow2(1022);
    lemma_pow2_step(1022);
    lemma_pow2_step(1023);
    lemma_pow2_step(1024);
    assert(vstd::arithmetic::power2::pow2(1025) == 8 * p);
    assert(Scalar::spec_one().value() == 0x10_0000_0000_0000 * p);
    assert(nine.value() == 0x12_0000_0000_0000 * vstd::arithmetic::power2::pow2(1025));
    max_translation_is_ten();
    crate::scalar::smaller_patterns_are_smaller_numbers(nine, standard_gravity().z);
    crate::scalar::smaller_patterns_are_smaller_numbers(standard_gravity().z, max_translation());
}

/// The steps, as a sequence.
pub open spec fn view_steps(steps: Option<Vec<ImuStep>>) -> Option<Seq<ImuStep>> {
    match steps {
        Some(v) => Some(v@),
        None => None,
    }
}

/// The distance beyond which an integration is not believed: ten metres.
pub open spec fn max_translation() -> Scalar {
    Scalar { bits: 0x4024_0000_0000_0000 }
}

/// Whether one of the steps carries the state on.
pub open spec fn some_propagate(steps: Seq<ImuStep>) -> bool {
    exists|i: int| 0 <= i < steps.len() && #[trigger] steps[i] is Propagate
}

/// Whether one of the steps carries the state on.
fn any_propagates(steps: &Vec<ImuStep>) -> (r: bool)
    ensures
        r == some_propagate(steps@),
{
    let mut i: usize = 0;
    while i < steps.len()
        invariant
            i <= steps@.len(),
            forall|k: int| 0 <= k < i ==> !(#[trigger] steps@[k] is Propagate),
        decreases steps@.len() - i,
    {
        if let ImuStep::Propagate { .. } = steps[i] {
            assert(steps@[i as int] is Propagate);
            return true;
        }
        i += 1;
    }
    false
}

/// Gives the finished pre-integration to the frame, unless the integration moved
/// the platform by more than ten metres. Tells whether it was given.
///
/// It is linearized about the biases of the frame. Where no step carried the state
/// on, the frame gets the pre-integration that the integration starts with, but for
/// the time that has been counted; without any step no time has. Nothing else of
/// the frame changes.
pub fn store_preintegration(
    frame: &mut Frame,
    steps: &Vec<ImuStep>,
    preint: PreInt,
    translation: Scalar,
) -> (r: bool)
    ensures
        r == !max_translation().less(translation),
        r ==> {
            &&& final(frame).imu_preintegration is Some
            &&& *final(frame) == (Frame {
                imu_preintegration: final(frame).imu_preintegration,
                ..*old(frame)
            })
            &&& final(frame).imu_preintegration->0.linearized_ba == old(frame).state.accel_bias
            &&& final(frame).imu_preintegration->0.linearized_bg == old(frame).state.gyro_bias
            &&& some_propagate(steps@) ==> final(frame).imu_preintegration->0 == (PreInt {
                linearized_ba: old(frame).state.accel_bias,
                linearized_bg: old(frame).state.gyro_bias,
                ..preint
            })
            &&& !some_propagate(steps@) ==> final(frame).imu_preintegration->0.wf()
                && final(frame).imu_preintegration->0.is_at_rest_in(Layout::spec_tangent())
            &&& final(frame).imu_preintegration->0.dt == (if steps@.len() == 0 {
                Scalar::spec_zero()
            } else {
                preint.dt
            })
        },
        !r ==> *final(frame) == *old(frame),
{
    if Scalar::from_bits(0x4024_0000_0000_0000).lt(&translation) {
        return false;
    }
    let dt = preint.dt;
    let mut stored = if any_propagates(steps) {
        preint
    } else {
        PreInt::starting_at(&frame.state)
    };
    if steps.len() > 0 {
        stored.dt = dt;
    }
    stored.linearized_ba = frame.state.accel_bias;
    stored.linearized_bg = frame.state.gyro_bias;
    frame.imu_preintegration = Some(stored);
    true
}

/// What carries the state over one interval: the time at its start and at its end,
/// and the reading at its start.
#[derive(Clone, Copy, Debug, PartialEq, Eq, Structural)]
pub struct Interval {
    pub start: Scalar,
    pub end: Scalar,
    pub accel: Vector3,
    pub gyro: Vector3,
}

/// What the step carries the state on with, if it does.
pub open spec fn spec_interval(
    samples: Seq<ImuData>,
    seconds: Seq<Scalar>,
    step: ImuStep,
) -> Option<Interval> {
    match step {
        ImuStep::Propagate { from, to } => Some(
            Interval {
                start: seconds[from as int],
                end: seconds[to as int],
                accel: samples[from as int].accel,
                gyro: samples[from as int].gyro,
            },
        ),
        ImuStep::Skip { .. } => None,
    }
}

/// What the steps carry the state on with, one after the other.
pub open spec fn intervals(
    samples: Seq<ImuData>,
    seconds: Seq<Scalar>,
    steps: Seq<ImuStep>,
) -> Seq<Option<Interval>> {
    steps.map_values(|step: ImuStep| spec_interval(samples, seconds, step))
}

/// What the step carries the state on with, if it does.
pub fn interval(samples: &Vec<ImuData>, seconds: &Vec<Scalar>, step: &ImuStep) -> (r: Option<
    Interval,
>)
    requires
        samples@.len() == seconds@.len(),
        *step matches ImuStep::Propagate { from, to } ==> from < samples@.len() && to
            < samples@.len(),
    ensures
        r == spec_interval(samples@, seconds@, *step),
        match *step {
            ImuStep::Propagate { from, to } => {
                &&& r is Some
                &&& r->0.start == seconds@[from as int]
                &&& r->0.end == seconds@[to as int]
                &&& r->0.accel == samples@[from as int].accel
                &&& r->0.gyro == samples@[from as int].gyro
            },
            ImuStep::Skip { .. } => r is None,
        },
{
    match step {
        ImuStep::Propagate { from, to } => Some(
            Interval {
                start: seconds[*from],
                end: seconds[*to],
                accel: samples[*from].accel,
                gyro: samples[*from].gyro,
            },
        ),
        ImuStep::Skip { .. } => None,
    }
}

/// A step leads from a sample to a later one of the slice; so none starts at the
/// last sample.
pub proof fn no_step_starts_at_the_last_sample(seconds: Seq<Scalar>, i: int)
    requires
        all_finite(seconds),
        0 < seconds.len() <= usize::MAX,
        0 <= i < walk(seconds).len(),
    ensures
        match walk(seconds)[i] {
            ImuStep::Propagate { from, to } => from < to < seconds.len(),
            ImuStep::Skip { from, to } => from < to < seconds.len(),
        },
{
    lemma_reached_is_latest(seconds, i);
}

/// Where the times increase, each sample but the last carries the state on to the
/// next: with its own acceleration and its own angular velocity, from its own time
/// to the time of the sample behind it.
pub proof fn each_reading_holds_until_the_next(samples: Seq<ImuData>, seconds: Seq<Scalar>)
    requires
        all_finite(seconds),
        0 < seconds.len() <= usize::MAX,
        samples.len() == seconds.len(),
        forall|i: int, j: int|
            0 <= i < j < seconds.len() ==> (#[trigger] seconds[i]).value()
                < (#[trigger] seconds[j]).value(),
    ensures
        intervals(samples, seconds, walk(seconds)).len() == samples.len() - 1,
        forall|i: int|
            0 <= i < samples.len() - 1 ==> {
                let x = #[trigger] intervals(samples, seconds, walk(seconds))[i];
                &&& x is Some
                &&& x->0.start == seconds[i]
                &&& x->0.end == seconds[i + 1]
                &&& x->0.accel == samples[i].accel
                &&& x->0.gyro == samples[i].gyro
            },
{
    increasing_samples_all_take_part(seconds);
    assert forall|i: int| 0 <= i < samples.len() - 1 implies {
        let x = #[trigger] intervals(samples, seconds, walk(seconds))[i];
        &&& x is Some
        &&& x->0.start == seconds[i]
        &&& x->0.end == seconds[i + 1]
        &&& x->0.accel == samples[i].accel
        &&& x->0.gyro == samples[i].gyro
    } by {
        assert(walk(seconds)[i] == (ImuStep::Propagate {
            from: i as usize,
            to: (i + 1) as usize,
        }));
    }
}

/// Whether the sample at index `j` is the latest of the first `k + 1`, and the
/// first of these at its time.
pub open spec fn is_latest(seconds: Seq<Scalar>, k: int, j: int) -> bool {
    &&& 0 <= j <= k
    &&& forall|i: int| 0 <= i <= k ==> (#[trigger] seconds[i]).value() <= seconds[j].value()
    &&& forall|i: int| 0 <= i < j ==> (#[trigger] seconds[i]).value() < seconds[j].value()
}

/// The sample that was reached is the latest one seen.
proof fn lemma_reached_is_first_latest(seconds: Seq<Scalar>, k: int)
    requires
        all_finite(seconds),
        0 <= k < seconds.len(),
    ensures
        is_latest(seconds, k, reached(seconds, k)),
    decreases k,
{
    lemma_reached_is_latest(seconds, k);
    if k > 0 {
        lemma_reached_is_first_latest(seconds, k - 1);
        assert(seconds[reached(seconds, k - 1)].finite() && seconds[k].finite());
        lemma_reached_is_latest(seconds, k - 1);
    }
}

/// In whatever order the samples come, the state is carried on to a sample exactly
/// if that is later than all before it, and then from the latest of these, with the
/// acceleration and the angular velocity that were read there.
pub proof fn later_samples_are_reached_from_the_latest(
    samples: Seq<ImuData>,
    seconds: Seq<Scalar>,
    k: int,
    j: int,
)
    requires
        all_finite(seconds),
        seconds.len() <= usize::MAX,
        samples.len() == seconds.len(),
        0 < k < seconds.len(),
        is_latest(seconds, k - 1, j),
    ensures
        ({
            let x = intervals(samples, seconds, walk(seconds))[k - 1];
            &&& x is Some <==> seconds[j].value() < seconds[k].value()
            &&& x is Some ==> {
                &&& x->0.start == seconds[j]
                &&& x->0.end == seconds[k]
                &&& x->0.accel == samples[j].accel
                &&& x->0.gyro == samples[j].gyro
            }
        }),
{
    lemma_reached_is_first_latest(seconds, k - 1);
    let r = reached(seconds, k - 1);
    assert(seconds[r].value() <= seconds[j].value() && seconds[j].value() <= seconds[r].value());
    assert(r == j);
    assert(seconds[j].finite() && seconds[k].finite());
    assert(walk(seconds)[k - 1] == step_to(seconds, k));
}

/// The last reading is not used: samples that differ in nothing else are treated
/// alike, and carry the state on in the same way.
pub proof fn the_last_reading_is_not_used(
    a: Seq<ImuData>,
    b: Seq<ImuData>,
    seconds: Seq<Scalar>,
)
    requires
        all_finite(seconds),
        0 < seconds.len() <= usize::MAX,
        a.len() == seconds.len(),
        b.len() == seconds.len(),
        a.drop_last() == b.drop_last(),
        a.last().timestamp == b.last().timestamp,
    ensures
        integrable(a) == integrable(b),
        intervals(a, seconds, walk(seconds)) == intervals(b, seconds, walk(seconds)),
{
    assert forall|i: int| 0 <= i < a.len() - 1 implies #[trigger] a[i] == b[i] by {
        assert(a.drop_last()[i] == a[i] && b.drop_last()[i] == b[i]);
    }
    if a.len() > 1 {
        assert(a[0] == b[0]);
    }
    let steps = walk(seconds);
    assert forall|i: int| 0 <= i < steps.len() implies spec_interval(a, seconds, #[trigger] steps[i])
        == spec_interval(b, seconds, steps[i]) by {
        no_step_starts_at_the_last_sample(seconds, i);
    }
    assert(intervals(a, seconds, steps) =~= intervals(b, seconds, steps));
}

/// One sample carries the state nowhere: its integration takes no step.
pub proof fn one_sample_takes_no_step(seconds: Seq<Scalar>)
    requires
        seconds.len() == 1,
    ensures
        walk(seconds).len() == 0,
        !some_propagate(walk(seconds)),
{
}

/// Another run over the samples that were kept repeats the first: it takes the same
/// steps and carries the state on with the same times and readings.
pub proof fn another_run_repeats_the_first(
    before: ImuPiecewiseIntegration,
    after: ImuPiecewiseIntegration,
    samples: Seq<ImuData>,
    seconds: Seq<Scalar>,
    noise: NoiseBlocks,
    steps: Seq<ImuStep>,
)
    requires
        ImuPiecewiseIntegration::processed(before, after, samples, seconds, noise, Some(steps)),
        seconds.len() == samples.len(),
    ensures
        after.imu_buffer@.len() > 0,
        after.imu_buffer@.len() == seconds.len(),
        walk(seconds) == steps,
        intervals(after.imu_buffer@, seconds, walk(seconds)) == intervals(
            samples,
            seconds,
            steps,
        ),
{
}

/// Samples that are integrated are kept, all of them and in their order, and the
/// noise is made of the four covariances. Calibration and gravity never change, and
/// samples that are not integrated change nothing at all.
pub proof fn integration_keeps_samples_and_calibration(
    before: ImuPiecewiseIntegration,
    after: ImuPiecewiseIntegration,
    samples: Seq<ImuData>,
    seconds: Seq<Scalar>,
    noise: NoiseBlocks,
    result: Option<Seq<ImuStep>>,
)
    requires
        ImuPiecewiseIntegration::processed(before, after, samples, seconds, noise, result),
    ensures
        result is Some <==> samples.len() > 0 && samples.last().timestamp
            - samples.first().timestamp < 5_000_000_000,
        after.T_BS == before.T_BS,
        after.accel_noise_density == before.accel_noise_density,
        after.gyro_noise_density == before.gyro_noise_density,
        after.accel_random_walk == before.accel_random_walk,
        after.gyro_random_walk == before.gyro_random_walk,
        after.gravity == before.gravity,
        result is None ==> after == before,
        result is Some ==> {
            &&& after.imu_buffer@ == samples
            &&& Matrix::spec_block3(after.continious_noise@, 0, 0) == noise.accel
            &&& Matrix::spec_block3(after.continious_noise@, 3, 3) == noise.gyro
            &&& Matrix::spec_block3(after.continious_noise@, 6, 6) == noise.accel_walk
            &&& Matrix::spec_block3(after.continious_noise@, 9, 9) == noise.gyro_walk
        },
{
    assert(Noise::Accel.offset() == 0 && Noise::Gyro.offset() == 3 && Noise::AccelWalk.offset()
        == 6 && Noise::GyroWalk.offset() == 9);
}

/// A measurement that nothing was accumulated in has turned and moved by nothing,
/// is certain, and does not react to the biases.
pub proof fn rest_reacts_to_no_bias(m: PreInt, layout: Layout, s: Part, t: Part)
    requires
        m.is_at_rest_in(layout),
        layout.valid(),
    ensures
        m.delta_R.w == Scalar::spec_one(),
        m.delta_R.i == Scalar::spec_zero() && m.delta_R.j == Scalar::spec_zero() && m.delta_R.k
            == Scalar::spec_zero(),
        forall|k: int| 0 <= k < 3 ==> #[trigger] m.delta_v.at(k) == Scalar::spec_zero(),
        forall|k: int| 0 <= k < 3 ==> #[trigger] m.delta_p.at(k) == Scalar::spec_zero(),
        m.imu_buffer@.len() == 0,
        m.idx_r == layout.idx_r && m.idx_v == layout.idx_v && m.idx_p == layout.idx_p && m.idx_ba
            == layout.idx_ba && m.idx_bg == layout.idx_bg,
        Matrix::spec_block3(m.cov@, layout.at(s), layout.at(t)) == Matrix3x3::spec_zero(),
        s != t ==> Matrix::spec_block3(m.jacobian@, layout.at(s), layout.at(t))
            == Matrix3x3::spec_zero(),
        s == t ==> Matrix::spec_block3(m.jacobian@, layout.at(s), layout.at(t))
            == Matrix3x3::spec_identity(),
{
    assert(layout.at(s) >= 0 && layout.at(t) >= 0);
    assert(layout.at(s) + 3 <= 15 && layout.at(t) + 3 <= 15);
}

/// Ten metres are ten times one metre.
pub proof fn max_translation_is_ten()
    ensures
        max_translation().value() == 10 * Scalar::spec_one().value(),
{
    let p = vstd::arithmetic::power2::pow2(1022);
    lemma_pow2_step(1022);
    lemma_pow2_step(1023);
    lemma_pow2_step(1024);
    assert(vstd::arithmetic::power2::pow2(1025) == 8 * p);
    assert(Scalar::spec_one().value() == 0x10_0000_0000_0000 * p);
    assert(max_translation().magnitude_bits() == 0x4024_0000_0000_0000nat);
    assert(max_translation().value() == 0x14_0000_0000_0000 * vstd::arithmetic::power2::pow2(1025));
}

/// Each power of two is twice the one before.
proof fn lemma_pow2_step(e: nat)
    ensures
        vstd::arithmetic::power2::pow2(e + 1) == 2 * vstd::arithmetic::power2::pow2(e),
{
    vstd::arithmetic::power2::lemma_pow2_unfold(e + 1);
}

impl ImuPipeline {
    /// The integration that the calibration describes, if there is one.
    pub fn from_config(config: Option<ImuConfig>) -> (r: ImuPipeline)
        requires
            config is Some ==> config->0.T_BS.data@.len() == 16,
        ensures
            match config {
                Some(c) => r is Enabled && r->Enabled_0.configured_by(c),
                None => r is Disabled,
            },
    {
        match config {
            Some(c) => ImuPipeline::Enabled(ImuPiecewiseIntegration::from_config(c)),
            None => ImuPipeline::Disabled,
        }
    }

    /// Whether there is an integration.
    pub fn is_enabled(&self) -> (r: bool)
        ensures
            r == (*self is Enabled),
    {
        match self {
            ImuPipeline::Enabled(_) => true,
            ImuPipeline::Disabled => false,
        }
    }

    /// Starts the integration of `imu_slice`, as
    /// [`ImuPiecewiseIntegration::process_imu`] does. Without an integration
    /// there are no steps to take.
    pub fn process_imu(
        &mut self,
        imu_slice: &Vec<ImuData>,
        seconds: &Vec<Scalar>,
        noise: &NoiseBlocks,
    ) -> (r: Option<Vec<ImuStep>>)
        requires
            seconds@.len() == imu_slice@.len(),
            all_finite(seconds@),
            imu_slice@.len() > 0 ==> i64::MIN <= imu_slice@.last().timestamp
                - imu_slice@.first().timestamp <= i64::MAX,
        ensures
            match *old(self) {
                ImuPipeline::Enabled(before) => *final(self) is Enabled
                    && ImuPiecewiseIntegration::processed(
                    before,
                    final(self)->Enabled_0,
                    imu_slice@,
                    seconds@,
                    *noise,
                    view_steps(r),
                ),
                ImuPipeline::Disabled => *final(self) is Disabled && r is None,
            },
    {
        match self {
            ImuPipeline::Enabled(integrator) => integrator.process_imu(imu_slice, seconds, noise),
            ImuPipeline::Disabled => None,
        }
    }

    /// Start and steps of another run over the samples that were integrated last,
    /// as [`ImuPiecewiseIntegration::repropagate`] gives them. Without an
    /// integration there are none.
    pub fn repropagate(&self, seconds: &Vec<Scalar>) -> (r: Option<(PreInt, Vec<ImuStep>)>)
        requires
            *self is Enabled ==> {
                &&& self->Enabled_0.imu_buffer@.len() > 0
                &&& seconds@.len() == self->Enabled_0.imu_buffer@.len()
                &&& all_finite(seconds@)
            },
        ensures
            r is Some <==> *self is Enabled,
            r matches Some((start, steps)) ==> {
                &&& start.wf()
                &&& start.is_empty_in(Layout::spec_tangent())
                &&& start.linearized_ba == Vector3::spec_zero()
                &&& start.linearized_bg == Vector3::spec_zero()
                &&& steps@ == walk(seconds@)
            },
    {
        match self {
            ImuPipeline::Enabled(integrator) => Some(integrator.repropagate(seconds)),
            ImuPipeline::Disabled => None,
        }
    }

    /// Sets the gravity of the integration, if there is one.
    pub fn set_gravity(&mut self, gravity: Vector3)
        ensures
            match *old(self) {
                ImuPipeline::Enabled(before) => *final(self) == ImuPipeline::Enabled(
                    ImuPiecewiseIntegration { gravity, ..before },
                ),
                ImuPipeline::Disabled => *final(self) is Disabled,
            },
    {
        match self {
            ImuPipeline::Enabled(integrator) => {
                integrator.gravity = gravity;
            },
            ImuPipeline::Disabled => {},
        }
    }
}

} // verus!
