//! What the solver gives back, and what becomes of it.
use crate::estimator::frame::Frame;
use crate::estimator::problem::MapPoint;
use crate::estimator::problem;
use crate::estimator::state::State;
use crate::linalg::{Matrix4x4, Vector3};
use crate::optimization::names::{Target, VarName};
use crate::optimization::names;
use crate::scalar::{Scalar, Single};
use apex_solver::optimizer::OptimizationStatus;
use std::collections::HashMap;
use vstd::prelude::*;

verus! {

/// The value of a solved variable.
pub enum SolvedValue {
    /// A pose; held here is its inverse, the pose of the body in the world.
    Se3 { T_W_B: Matrix4x4 },
    /// A vector, and the same vector in single precision.
    Rn { vector: Vec<Scalar>, single: Vec<Single> },
}

/// A solved variable, by the name that the solver knows it by.
pub struct Parameter {
    pub name: String,
    pub value: SolvedValue,
}

/// How a run of the solver ended.
pub struct Solution {
    pub status: OptimizationStatus,
    pub parameters: Vec<Parameter>,
}

/// What the solution of a window changes.
pub struct Estimate {
    pub frames: Seq<Frame>,
    pub points: Map<usize, MapPoint>,
}

/// The three entries from index `i` on.
pub open spec fn vector_at(v: Seq<Scalar>, i: int) -> Vector3 {
    Vector3 { x: v[i], y: v[i + 1], z: v[i + 2] }
}

/// Whether the value suits what the name refers to, in a window of `n`
/// keyframes: a landmark has three coordinates, a keyframe of the window a pose,
/// or a velocity and two biases.
pub open spec fn fits(name: Seq<char>, value: SolvedValue, n: nat) -> bool {
    match Target::spec_decode(name) {
        Target::Landmark(_) => value matches SolvedValue::Rn { single, .. } && single@.len() >= 3,
        Target::Pose(k) => 0 <= k < n && value is Se3,
        Target::VelocityBias(k) => 0 <= k < n && (value matches SolvedValue::Rn { vector, .. }
            && vector@.len() >= 9),
        Target::Ignored => true,
    }
}

/// Whether every parameter suits a window of `n` keyframes.
pub open spec fn all_fit(parameters: Seq<Parameter>, n: nat) -> bool {
    forall|i: int|
        0 <= i < parameters.len() ==> fits(
            (#[trigger] parameters[i]).name@,
            parameters[i].value,
            n,
        )
}

/// The keyframe with another pose.
pub open spec fn with_pose(f: Frame, T_W_B: Matrix4x4) -> Frame {
    Frame { state: State { T_W_B, ..f.state }, ..f }
}

/// The keyframe with another velocity and other biases.
pub open spec fn with_motion(f: Frame, v: Seq<Scalar>) -> Frame {
    Frame {
        state: State {
            velocity: vector_at(v, 0),
            accel_bias: vector_at(v, 3),
            gyro_bias: vector_at(v, 6),
            ..f.state
        },
        ..f
    }
}

/// The point of the map that a solved landmark has.
pub open spec fn point_of(value: SolvedValue) -> MapPoint {
    MapPoint { x: value->single@[0], y: value->single@[1], z: value->single@[2] }
}

impl Estimate {
    /// The estimate after one parameter has been taken over.
    pub open spec fn take_over(self, name: Seq<char>, value: SolvedValue) -> Estimate {
        match Target::spec_decode(name) {
            Target::Landmark(id) => Estimate {
                points: self.points.insert(id, point_of(value)),
                ..self
            },
            Target::Pose(k) => Estimate {
                frames: self.frames.update(k as int, with_pose(self.frames[k as int], value->T_W_B)),
                ..self
            },
            Target::VelocityBias(k) => Estimate {
                frames: self.frames.update(
                    k as int,
                    with_motion(self.frames[k as int], value->vector@),
                ),
                ..self
            },
            Target::Ignored => self,
        }
    }

    /// The estimate after the first `n` parameters have been taken over.
    pub open spec fn take_over_all(self, parameters: Seq<Parameter>, n: nat) -> Estimate
        decreases n,
    {
        if n == 0 {
            self
        } else {
            self.take_over_all(parameters, (n - 1) as nat).take_over(
                parameters[n - 1].name@,
                parameters[n - 1].value,
            )
        }
    }
}

/// Whether the value suits what the name refers to, in a window of `n`
/// keyframes.
pub fn parameter_fits(p: &Parameter, n: usize) -> (r: bool)
    ensures
        r == fits(p.name@, p.value, n as nat),
{
    match Target::decode(p.name.as_str()) {
        Target::Landmark(_) => match &p.value {
            SolvedValue::Rn { single, .. } => single.len() >= 3,
            SolvedValue::Se3 { .. } => false,
        },
        Target::Pose(k) => match &p.value {
            SolvedValue::Se3 { .. } => k >= 0 && (k as usize) < n,
            SolvedValue::Rn { .. } => false,
        },
        Target::VelocityBias(k) => match &p.value {
            SolvedValue::Rn { vector, .. } => k >= 0 && (k as usize) < n && vector.len() >= 9,
            SolvedValue::Se3 { .. } => false,
        },
        Target::Ignored => true,
    }
}

/// Whether every parameter suits a window of `n` keyframes.
pub fn parameters_fit(parameters: &Vec<Parameter>, n: usize) -> (r: bool)
    ensures
        r == all_fit(parameters@, n as nat),
{
    let mut i: usize = 0;
    while i < parameters.len()
        invariant
            i <= parameters@.len(),
            forall|a: int|
                0 <= a < i ==> fits(
                    (#[trigger] parameters@[a]).name@,
                    parameters@[a].value,
                    n as nat,
                ),
        decreases parameters@.len() - i,
    {
        if !parameter_fits(&parameters[i], n) {
            assert(!fits(parameters@[i as int].name@, parameters@[i as int].value, n as nat));
            return false;
        }
        i += 1;
    }
    true
}

/// Takes one parameter over.
fn take_over(frames: &mut Vec<Frame>, points: &mut HashMap<usize, MapPoint>, p: &Parameter)
    requires
        fits(p.name@, p.value, old(frames)@.len()),
    ensures
        final(frames)@.len() == old(frames)@.len(),
        (Estimate { frames: final(frames)@, points: final(points)@ }) == (Estimate {
            frames: old(frames)@,
            points: old(points)@,
        }).take_over(p.name@, p.value),
{
    broadcast use vstd::std_specs::hash::group_hash_axioms;

    match Target::decode(p.name.as_str()) {
        Target::Landmark(id) => {
            if let SolvedValue::Rn { single, .. } = &p.value {
                points.insert(id, MapPoint { x: single[0], y: single[1], z: single[2] });
            }
        },
        Target::Pose(k) => {
            if let SolvedValue::Se3 { T_W_B } = &p.value {
                let i = k as usize;
                frames[i].state.T_W_B = *T_W_B;
                assert(frames@ =~= old(frames)@.update(
                    i as int,
                    with_pose(old(frames)@[i as int], *T_W_B),
                ));
            }
        },
        Target::VelocityBias(k) => {
            if let SolvedValue::Rn { vector, .. } = &p.value {
                let i = k as usize;
                frames[i].state.velocity = Vector3 { x: vector[0], y: vector[1], z: vector[2] };
                frames[i].state.accel_bias = Vector3 { x: vector[3], y: vector[4], z: vector[5] };
                frames[i].state.gyro_bias = Vector3 { x: vector[6], y: vector[7], z: vector[8] };
                assert(frames@ =~= old(frames)@.update(
                    i as int,
                    with_motion(old(frames)@[i as int], vector@),
                ));
            }
        },
        Target::Ignored => {},
    }
}

/// Takes all parameters over, one after the other.
pub(crate) fn take_over_all(
    frames: &mut Vec<Frame>,
    points: &mut HashMap<usize, MapPoint>,
    parameters: &Vec<Parameter>,
)
    requires
        all_fit(parameters@, old(frames)@.len()),
    ensures
        final(frames)@.len() == old(frames)@.len(),
        (Estimate { frames: final(frames)@, points: final(points)@ }) == (Estimate {
            frames: old(frames)@,
            points: old(points)@,
        }).take_over_all(parameters@, parameters@.len()),
{
    let mut i: usize = 0;
    while i < parameters.len()
        invariant
            i <= parameters@.len(),
            frames@.len() == old(frames)@.len(),
            all_fit(parameters@, old(frames)@.len()),
            (Estimate { frames: frames@, points: points@ }) == (Estimate {
                frames: old(frames)@,
                points: old(points)@,
            }).take_over_all(parameters@, i as nat),
        decreases parameters@.len() - i,
    {
        take_over(frames, points, &parameters[i]);
        i += 1;
    }
}

/// What the parameter at index `i` refers to.
pub open spec fn target(parameters: Seq<Parameter>, i: int) -> Target {
    Target::spec_decode(parameters[i].name@)
}

/// Whether one of the first `n` parameters refers to `t`.
pub open spec fn targeted(parameters: Seq<Parameter>, n: nat, t: Target) -> bool {
    exists|i: int| 0 <= i < n && #[trigger] target(parameters, i) == t
}

/// Whether no two parameters refer to the same.
pub open spec fn distinct_targets(parameters: Seq<Parameter>) -> bool {
    forall|i: int, j: int|
        0 <= i < j < parameters.len() && #[trigger] target(parameters, i) == #[trigger] target(
            parameters,
            j,
        ) ==> target(parameters, i) == Target::Ignored
}

/// Whether the estimate has this value for `t`.
pub open spec fn has_value(e: Estimate, t: Target, value: SolvedValue) -> bool {
    match t {
        Target::Landmark(id) => e.points.contains_key(id) && e.points[id] == point_of(value),
        Target::Pose(k) => e.frames[k as int].state.T_W_B == value->T_W_B,
        Target::VelocityBias(k) => {
            let state = e.frames[k as int].state;
            &&& state.velocity == vector_at(value->vector@, 0)
            &&& state.accel_bias == vector_at(value->vector@, 3)
            &&& state.gyro_bias == vector_at(value->vector@, 6)
        },
        Target::Ignored => true,
    }
}

/// Whether `after` has the value that `before` has for `t`.
pub open spec fn keeps(before: Estimate, after: Estimate, t: Target) -> bool {
    match t {
        Target::Landmark(id) => {
            &&& after.points.contains_key(id) <==> before.points.contains_key(id)
            &&& before.points.contains_key(id) ==> after.points[id] == before.points[id]
        },
        Target::Pose(k) => 0 <= k < before.frames.len() ==> after.frames[k as int].state.T_W_B
            == before.frames[k as int].state.T_W_B,
        Target::VelocityBias(k) => 0 <= k < before.frames.len() ==> {
            let a = after.frames[k as int].state;
            let b = before.frames[k as int].state;
            a.velocity == b.velocity && a.accel_bias == b.accel_bias && a.gyro_bias == b.gyro_bias
        },
        Target::Ignored => true,
    }
}

/// Whether the keyframes differ at most in pose, velocity and biases.
pub open spec fn same_sightings(before: Frame, after: Frame) -> bool {
    after == (Frame {
        state: State {
            T_W_B: after.state.T_W_B,
            velocity: after.state.velocity,
            accel_bias: after.state.accel_bias,
            gyro_bias: after.state.gyro_bias,
            ..before.state
        },
        ..before
    })
}

/// A solution is read off value by value: each parameter sets what it refers to,
/// everything else stays, and of the keyframes nothing but poses, velocities and
/// biases changes. So the order of the parameters makes no difference.
pub proof fn solution_is_read_off(start: Estimate, parameters: Seq<Parameter>, n: nat)
    requires
        n <= parameters.len(),
        all_fit(parameters, start.frames.len()),
        distinct_targets(parameters),
    ensures
        ({
            let e = start.take_over_all(parameters, n);
            &&& e.frames.len() == start.frames.len()
            &&& forall|i: int|
                0 <= i < n ==> has_value(
                    e,
                    #[trigger] target(parameters, i),
                    parameters[i].value,
                )
            &&& forall|t: Target| !#[trigger] targeted(parameters, n, t) ==> keeps(start, e, t)
            &&& forall|k: int|
                0 <= k < start.frames.len() ==> same_sightings(
                    start.frames[k],
                    #[trigger] e.frames[k],
                )
        }),
    decreases n,
{
    if n > 0 {
        let m = (n - 1) as nat;
        solution_is_read_off(start, parameters, m);
        let before = start.take_over_all(parameters, m);
        let p = parameters[n - 1];
        let e = start.take_over_all(parameters, n);
        let last = target(parameters, n - 1);
        assert(fits(p.name@, p.value, start.frames.len()));
        assert(has_value(e, last, p.value));
        assert forall|i: int| 0 <= i < n implies has_value(
            e,
            #[trigger] target(parameters, i),
            parameters[i].value,
        ) by {
            if i < m {
                let t = target(parameters, i);
                assert(fits(parameters[i].name@, parameters[i].value, start.frames.len()));
                assert(has_value(before, t, parameters[i].value));
                assert(t == last ==> t == Target::Ignored);
            }
        }
        assert forall|t: Target| !#[trigger] targeted(parameters, n, t) implies keeps(
            start,
            e,
            t,
        ) by {
            assert(target(parameters, n - 1) != t);
            if targeted(parameters, m, t) {
                let i = choose|i: int| 0 <= i < m && #[trigger] target(parameters, i) == t;
                assert(0 <= i < n && target(parameters, i) == t);
            }
            assert(keeps(start, before, t));
        }
    }
}

/// A solved landmark has the first three entries of its vector in single precision;
/// a solved keyframe has velocity, accelerometer bias and gyroscope bias one behind
/// the other, and keeps its pose; a solved pose changes nothing but the pose.
pub proof fn solved_values_are_read_in_order(
    f: Frame,
    v: Seq<Scalar>,
    T_W_B: Matrix4x4,
    value: SolvedValue,
)
    requires
        v.len() >= 9,
        value matches SolvedValue::Rn { single, .. } && single@.len() >= 3,
    ensures
        ({
            let p = point_of(value);
            let m = with_motion(f, v).state;
            let g = with_pose(f, T_W_B);
            &&& seq![p.x, p.y, p.z] == value->single@.take(3)
            &&& seq![
                m.velocity.x,
                m.velocity.y,
                m.velocity.z,
                m.accel_bias.x,
                m.accel_bias.y,
                m.accel_bias.z,
                m.gyro_bias.x,
                m.gyro_bias.y,
                m.gyro_bias.z,
            ] == v.take(9)
            &&& m.T_W_B == f.state.T_W_B && m.T_B_Cl == f.state.T_B_Cl && m.T_B_Cr
                == f.state.T_B_Cr && m.angular_velocity == f.state.angular_velocity
            &&& g.state.T_W_B == T_W_B
            &&& g.state.velocity == f.state.velocity && g.state.accel_bias == f.state.accel_bias
                && g.state.gyro_bias == f.state.gyro_bias
        }),
{
    let p = point_of(value);
    let m = with_motion(f, v).state;
    assert(seq![p.x, p.y, p.z] =~= value->single@.take(3));
    assert(seq![
        m.velocity.x,
        m.velocity.y,
        m.velocity.z,
        m.accel_bias.x,
        m.accel_bias.y,
        m.accel_bias.z,
        m.gyro_bias.x,
        m.gyro_bias.y,
        m.gyro_bias.z,
    ] =~= v.take(9));
}

/// Whether the value is one that the solver gives a variable of this kind: a
/// pose on its manifold, a landmark as a point, velocity and biases as a vector.
pub open spec fn suits(name: VarName, value: SolvedValue) -> bool {
    match name {
        VarName::Landmark(_) => value matches SolvedValue::Rn { single, .. } && single@.len() >= 3,
        VarName::Pose(_) => value is Se3,
        VarName::VelocityBias(_) => value matches SolvedValue::Rn { vector, .. } && vector@.len()
            >= 9,
        VarName::NewFrame => true,
    }
}

/// The solution of a graph suits the window that the graph was made of.
pub proof fn solved_variables_fit(frames: Seq<Frame>, name: VarName, value: SolvedValue)
    requires
        problem::declared(frames, name),
        suits(name, value),
    ensures
        fits(name.spec_name(), value, frames.len()),
{
    names::name_round_trip(name);
}

/// Two variables of a graph never refer to the same part of the window, as long
/// as an `i32` counts the keyframes.
pub proof fn variables_have_distinct_targets(frames: Seq<Frame>, a: VarName, b: VarName)
    requires
        frames.len() <= i32::MAX,
        problem::declared(frames, a),
        problem::declared(frames, b),
        a != b,
    ensures
        Target::spec_decode(a.spec_name()) != Target::spec_decode(b.spec_name()),
{
    names::name_round_trip(a);
    names::name_round_trip(b);
}

} // verus!
