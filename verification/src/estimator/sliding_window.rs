//! The sliding window of keyframes.
use crate::estimator::alignment::{check_alignment, AlignmentError, AlignmentTerm, GyroTerm};
use crate::estimator::frame::{Coord, Feature, Frame};
use crate::estimator::problem::{Camera, MapPoint, Problem};
use crate::estimator::solution::{take_over_all, Estimate, Parameter, Solution, SolvedValue};
use crate::estimator::state::State;
use crate::estimator::{alignment, problem, solution};
use crate::imu::piecewise_integration::{Part, PreInt};
use crate::linalg::{Matrix, Matrix3x3, Matrix4x4, Quaternion, Vector3};
use crate::optimization::names::{Target, VarName};
use crate::optimization::solver::{is_linear_failure, is_optimization_successful, SolverConfig};
use crate::optimization::{names, solver};
use crate::scalar::Scalar;
use apex_solver::optimizer::OptimizationStatus;
use std::collections::HashMap;
use vstd::prelude::*;

verus! {

/// The keyframes that are optimized together, and the map points they show.
///
/// The keyframes stand in the order in which they were added.
#[derive(Debug)]
pub struct SlidingWindow {
    max_frames: usize,
    keyframes: Vec<Frame>,
    /// The points of the map, by the identifier of their feature.
    pub map_points: HashMap<usize, MapPoint>,
    /// Whether the window has been aligned with the IMU.
    pub initialized: bool,
}

/// Why a window cannot be optimized.
#[derive(Clone, Copy, Debug, PartialEq, Eq, Structural)]
pub enum WindowError {
    /// It has no keyframes.
    Empty,
    /// It is not full.
    NeedMoreKeyframes,
}

impl WindowError {
    /// The error in words.
    pub fn message(&self) -> (r: String)
        ensures
            r@ == (match *self {
                WindowError::Empty => "Window is empty"@,
                WindowError::NeedMoreKeyframes => "Need more keyframes"@,
            }),
    {
        match self {
            WindowError::Empty => String::from_str("Window is empty"),
            WindowError::NeedMoreKeyframes => String::from_str("Need more keyframes"),
        }
    }
}

/// Whether the keyframe at index `i` has the least identifier, and is the first
/// that has it.
pub open spec fn is_oldest(frames: Seq<Frame>, i: int) -> bool {
    &&& 0 <= i < frames.len()
    &&& forall|j: int|
        0 <= j < frames.len() ==> frames[i].frame_id <= (#[trigger] frames[j]).frame_id
    &&& forall|j: int| 0 <= j < i ==> frames[i].frame_id < (#[trigger] frames[j]).frame_id
}

/// The index of the oldest keyframe.
pub open spec fn oldest(frames: Seq<Frame>) -> int {
    choose|i: int| is_oldest(frames, i)
}

/// The keyframes once `frame` has been added to a window of this capacity: a full
/// window first loses its oldest keyframe.
pub open spec fn with_keyframe(frames: Seq<Frame>, capacity: nat, frame: Frame) -> Seq<Frame> {
    if frames.len() >= capacity && frames.len() > 0 {
        frames.remove(oldest(frames)).push(frame)
    } else {
        frames.push(frame)
    }
}

impl SlidingWindow {
    /// The keyframes.
    pub closed spec fn frames(&self) -> Seq<Frame> {
        self.keyframes@
    }

    /// The number of keyframes at which the window is full.
    pub closed spec fn capacity(&self) -> nat {
        self.max_frames as nat
    }

    /// The points of the map, by the identifier of their feature.
    pub closed spec fn points(&self) -> Map<usize, MapPoint> {
        self.map_points@
    }

    /// Whether the window has been aligned with the IMU.
    pub closed spec fn aligned(&self) -> bool {
        self.initialized
    }

    /// The window never holds more keyframes than it has room for. The keyframe
    /// that was added last always stays.
    pub open spec fn wf(&self) -> bool {
        self.frames().len() <= self.capacity() || self.frames().len() <= 1
    }

    /// Whether the window has the capacity, the map and the flag of `other`.
    pub open spec fn same_map(&self, other: &SlidingWindow) -> bool {
        &&& self.capacity() == other.capacity()
        &&& self.points() == other.points()
        &&& self.aligned() == other.aligned()
    }

    /// A window without keyframes that has room for `max_frames`.
    pub fn new(max_frames: usize) -> (r: SlidingWindow)
        ensures
            r.wf(),
            r.frames().len() == 0,
            r.capacity() == max_frames,
            r.points() == Map::<usize, MapPoint>::empty(),
            !r.aligned(),
    {
        SlidingWindow {
            max_frames,
            keyframes: Vec::new(),
            map_points: HashMap::new(),
            initialized: false,
        }
    }

    /// A window without keyframes that has room for sixteen.
    pub fn default() -> (r: SlidingWindow)
        ensures
            r.wf(),
            r.frames().len() == 0,
            r.capacity() == 16,
            r.points() == Map::<usize, MapPoint>::empty(),
            !r.aligned(),
    {
        SlidingWindow::new(16)
    }

    /// The index of the oldest keyframe.
    fn oldest_index(&self) -> (r: usize)
        requires
            self.frames().len() > 0,
        ensures
            is_oldest(self.frames(), r as int),
            r == oldest(self.frames()),
    {
        let frames = &self.keyframes;
        let mut best: usize = 0;
        let mut i: usize = 1;
        while i < frames.len()
            invariant
                best < i <= frames@.len(),
                forall|j: int|
                    0 <= j < i ==> frames@[best as int].frame_id <= (#[trigger] frames@[j]).frame_id,
                forall|j: int|
                    0 <= j < best ==> frames@[best as int].frame_id < (
                    #[trigger] frames@[j]).frame_id,
            decreases frames@.len() - i,
        {
            if frames[i].frame_id < frames[best].frame_id {
                best = i;
            }
            i += 1;
        }
        proof {
            lemma_oldest_is_unique(self.frames(), best as int);
        }
        best
    }

    /// Adds a keyframe, and says whether it was added: a frame that is no keyframe
    /// is rejected. A full window first loses its oldest keyframe, the one with
    /// the least identifier.
    pub fn add_frame(&mut self, frame: Frame) -> (r: bool)
        ensures
            r == frame.is_keyframe,
            final(self).same_map(old(self)),
            final(self).capacity() == old(self).capacity(),
            final(self).points() == old(self).points(),
            final(self).aligned() == old(self).aligned(),
            r ==> final(self).frames() == with_keyframe(
                old(self).frames(),
                old(self).capacity(),
                frame,
            ),
            !r ==> final(self).frames() == old(self).frames(),
            r ==> final(self).frames().len() == (if old(self).frames().len() >= old(self).capacity()
                && old(self).frames().len() > 0 {
                old(self).frames().len()
            } else {
                old(self).frames().len() + 1
            }),
            old(self).wf() ==> final(self).wf(),
    {
        if !frame.is_keyframe {
            return false;
        }
        if self.keyframes.len() >= self.max_frames && self.keyframes.len() > 0 {
            let i = self.oldest_index();
            self.keyframes.remove(i);
        }
        self.keyframes.push(frame);
        true
    }

    /// The number of keyframes.
    pub fn len(&self) -> (r: usize)
        ensures
            r == self.frames().len(),
    {
        self.keyframes.len()
    }

    /// Whether there are no keyframes.
    pub fn is_empty(&self) -> (r: bool)
        ensures
            r == (self.frames().len() == 0),
    {
        self.keyframes.len() == 0
    }

    /// Whether the window is full.
    pub fn is_full(&self) -> (r: bool)
        ensures
            r == (self.frames().len() >= self.capacity()),
    {
        self.keyframes.len() >= self.max_frames
    }

    /// The keyframe at a position of the window.
    pub fn get_frame(&self, index: usize) -> (r: Option<&Frame>)
        ensures
            r == (if index < self.frames().len() {
                Some(&self.frames()[index as int])
            } else {
                None
            }),
    {
        if index < self.keyframes.len() {
            Some(&self.keyframes[index])
        } else {
            None
        }
    }

    /// The poses of the body in the world, one for each keyframe.
    pub fn get_keyframe_poses(&self) -> (r: Vec<Matrix4x4>)
        ensures
            r@ == self.frames().map_values(|f: Frame| f.state.T_W_B),
    {
        let mut r: Vec<Matrix4x4> = Vec::new();
        let mut i: usize = 0;
        while i < self.keyframes.len()
            invariant
                i <= self.frames().len(),
                r@.len() == i,
                forall|j: int| 0 <= j < i ==> #[trigger] r@[j] == self.frames()[j].state.T_W_B,
            decreases self.frames().len() - i,
        {
            r.push(self.keyframes[i].state.T_W_B);
            i += 1;
        }
        assert(r@ =~= self.frames().map_values(|f: Frame| f.state.T_W_B));
        r
    }

    /// The velocities, one for each keyframe.
    pub fn get_keyframe_velocities(&self) -> (r: Vec<Vector3>)
        ensures
            r@ == self.frames().map_values(|f: Frame| f.state.velocity),
    {
        let mut r: Vec<Vector3> = Vec::new();
        let mut i: usize = 0;
        while i < self.keyframes.len()
            invariant
                i <= self.frames().len(),
                r@.len() == i,
                forall|j: int| 0 <= j < i ==> #[trigger] r@[j] == self.frames()[j].state.velocity,
            decreases self.frames().len() - i,
        {
            r.push(self.keyframes[i].state.velocity);
            i += 1;
        }
        assert(r@ =~= self.frames().map_values(|f: Frame| f.state.velocity));
        r
    }

    /// The accelerometer biases, one for each keyframe.
    pub fn get_keyframe_accel_bias(&self) -> (r: Vec<Vector3>)
        ensures
            r@ == self.frames().map_values(|f: Frame| f.state.accel_bias),
    {
        let mut r: Vec<Vector3> = Vec::new();
        let mut i: usize = 0;
        while i < self.keyframes.len()
            invariant
                i <= self.frames().len(),
                r@.len() == i,
                forall|j: int| 0 <= j < i ==> #[trigger] r@[j] == self.frames()[j].state.accel_bias,
            decreases self.frames().len() - i,
        {
            r.push(self.keyframes[i].state.accel_bias);
            i += 1;
        }
        assert(r@ =~= self.frames().map_values(|f: Frame| f.state.accel_bias));
        r
    }

    /// The gyroscope biases, one for each keyframe.
    pub fn get_keyframe_gyro_bias(&self) -> (r: Vec<Vector3>)
        ensures
            r@ == self.frames().map_values(|f: Frame| f.state.gyro_bias),
    {
        let mut r: Vec<Vector3> = Vec::new();
        let mut i: usize = 0;
        while i < self.keyframes.len()
            invariant
                i <= self.frames().len(),
                r@.len() == i,
                forall|j: int| 0 <= j < i ==> #[trigger] r@[j] == self.frames()[j].state.gyro_bias,
            decreases self.frames().len() - i,
        {
            r.push(self.keyframes[i].state.gyro_bias);
            i += 1;
        }
        assert(r@ =~= self.frames().map_values(|f: Frame| f.state.gyro_bias));
        r
    }

    /// Sets whether the window has been aligned with the IMU.
    pub fn set_initialized(&mut self, initialized: bool)
        ensures
            final(self).aligned() == initialized,
            final(self).frames() == old(self).frames(),
            final(self).points() == old(self).points(),
            final(self).capacity() == old(self).capacity(),
    {
        self.initialized = initialized;
    }

    /// Replaces the map.
    pub fn set_map_points(&mut self, map_points: HashMap<usize, MapPoint>)
        ensures
            final(self).points() == map_points@,
            final(self).frames() == old(self).frames(),
            final(self).aligned() == old(self).aligned(),
            final(self).capacity() == old(self).capacity(),
    {
        self.map_points = map_points;
    }

    /// Removes all keyframes. The map stays.
    pub fn clear(&mut self)
        ensures
            final(self).frames().len() == 0,
            final(self).same_map(old(self)),
            final(self).capacity() == old(self).capacity(),
            final(self).points() == old(self).points(),
            final(self).aligned() == old(self).aligned(),
            final(self).wf(),
    {
        self.keyframes.clear();
    }
}

/// What changes the keyframes only leaves everything else of a window: its room, its
/// map and whether it has been aligned.
pub proof fn the_same_map_is_all_but_the_keyframes(a: SlidingWindow, b: SlidingWindow)
    ensures
        a.same_map(&b) <==> a.capacity() == b.capacity() && a.points() == b.points()
            && a.aligned() == b.aligned(),
        a.estimate().frames == a.frames(),
        a.estimate().points == a.points(),
{
}

/// A window with keyframes has an oldest one, and but one.
pub proof fn one_keyframe_is_the_oldest(frames: Seq<Frame>, i: int)
    requires
        frames.len() > 0,
    ensures
        is_oldest(frames, i) <==> i == oldest(frames),
{
    lemma_oldest_exists(frames, frames.len());
    if is_oldest(frames, i) {
        lemma_oldest_is_unique(frames, i);
    }
}

/// There is but one oldest keyframe.
proof fn lemma_oldest_is_unique(frames: Seq<Frame>, i: int)
    requires
        is_oldest(frames, i),
    ensures
        oldest(frames) == i,
{
    let j = oldest(frames);
    assert(is_oldest(frames, j));
    assert(frames[i].frame_id <= frames[j].frame_id);
    assert(frames[j].frame_id <= frames[i].frame_id);
}

/// Whether no identifier is less than one before it.
pub open spec fn ordered_ids(frames: Seq<Frame>) -> bool {
    forall|i: int, j: int|
        0 <= i < j < frames.len() ==> (#[trigger] frames[i]).frame_id <= (
        #[trigger] frames[j]).frame_id
}

/// The keyframes of a window of this capacity once the first `n` of `added` have
/// been added to it.
pub open spec fn after_adding(added: Seq<Frame>, capacity: nat, n: nat) -> Seq<Frame>
    decreases n,
{
    if n == 0 {
        Seq::empty()
    } else {
        with_keyframe(after_adding(added, capacity, (n - 1) as nat), capacity, added[n - 1])
    }
}

/// A window that keyframes are added to holds as many as were added, up to its
/// capacity.
pub proof fn window_fills_up(added: Seq<Frame>, capacity: nat, n: nat)
    requires
        capacity > 0,
        n <= added.len(),
    ensures
        after_adding(added, capacity, n).len() == (if n <= capacity {
            n
        } else {
            capacity
        }),
    decreases n,
{
    if n > 0 {
        let m = (n - 1) as nat;
        window_fills_up(added, capacity, m);
        let before = after_adding(added, capacity, m);
        if before.len() > 0 {
            lemma_oldest_exists(before, before.len());
        }
    }
}

/// As long as the keyframe that was added first is the oldest whenever the window is
/// full, keyframes leave in the order in which they came: the window holds those
/// that were added last, as many as it has room for.
pub proof fn window_holds_the_latest(added: Seq<Frame>, capacity: nat, n: nat)
    requires
        capacity > 0,
        n <= added.len(),
        forall|m: nat|
            capacity <= m < n ==> is_oldest(#[trigger] after_adding(added, capacity, m), 0),
    ensures
        after_adding(added, capacity, n) == added.subrange(
            if n <= capacity {
                0
            } else {
                n - capacity
            },
            n as int,
        ),
    decreases n,
{
    if n > 0 {
        let m = (n - 1) as nat;
        window_holds_the_latest(added, capacity, m);
        let before = after_adding(added, capacity, m);
        if before.len() >= capacity {
            assert(is_oldest(before, 0));
            lemma_oldest_is_unique(before, 0);
            assert(after_adding(added, capacity, n) =~= added.subrange(n - capacity, n as int));
        } else {
            assert(after_adding(added, capacity, n) =~= added.subrange(0, n as int));
        }
    } else {
        assert(after_adding(added, capacity, n) =~= added.subrange(0, 0));
    }
}

/// Keyframes with ordered identifiers leave the window in the order in which they
/// came.
pub proof fn ordered_keyframes_leave_in_order(added: Seq<Frame>, capacity: nat, n: nat)
    requires
        capacity > 0,
        n <= added.len(),
        ordered_ids(added),
    ensures
        forall|m: nat|
            capacity <= m < n ==> is_oldest(#[trigger] after_adding(added, capacity, m), 0),
        after_adding(added, capacity, n) == added.subrange(
            if n <= capacity {
                0
            } else {
                n - capacity
            },
            n as int,
        ),
    decreases n,
{
    if n > 0 {
        let last = (n - 1) as nat;
        ordered_keyframes_leave_in_order(added, capacity, last);
        assert forall|m: nat| capacity <= m < n implies is_oldest(
            #[trigger] after_adding(added, capacity, m),
            0,
        ) by {
            if m == last {
                let before = after_adding(added, capacity, m);
                assert(before =~= added.subrange(m - capacity, m as int));
            }
        }
    }
    window_holds_the_latest(added, capacity, n);
}

/// A keyframe that was added is the last of the window, and all others were there
/// before.
pub proof fn added_keyframe_is_last(frames: Seq<Frame>, capacity: nat, frame: Frame)
    ensures
        with_keyframe(frames, capacity, frame).last() == frame,
        forall|f: Frame| #[trigger]
            with_keyframe(frames, capacity, frame).drop_last().contains(f) ==> frames.contains(f),
{
    let after = with_keyframe(frames, capacity, frame);
    let rest = after.drop_last();
    if frames.len() >= capacity && frames.len() > 0 {
        lemma_oldest_exists(frames, frames.len());
        let i = oldest(frames);
        assert(is_oldest(frames, i));
        assert forall|f: Frame| #[trigger] rest.contains(f) implies frames.contains(f) by {
            let j = choose|j: int| 0 <= j < rest.len() && rest[j] == f;
            assert(rest[j] == frames[if j < i { j } else { j + 1 }]);
        }
    } else {
        assert(rest =~= frames);
    }
}

/// A full window loses one keyframe, and none of those that stay has a smaller
/// identifier; among keyframes with the same identifier the first one leaves. The
/// others keep their order, and the new one comes behind them. A window that is not
/// full loses none.
pub proof fn least_identifier_leaves(frames: Seq<Frame>, capacity: nat, frame: Frame, i: int)
    requires
        0 <= i < frames.len(),
        forall|j: int|
            0 <= j < frames.len() ==> frames[i].frame_id <= (#[trigger] frames[j]).frame_id,
        forall|j: int| 0 <= j < i ==> frames[i].frame_id != (#[trigger] frames[j]).frame_id,
    ensures
        frames.len() >= capacity ==> with_keyframe(frames, capacity, frame) == frames.take(i)
            + frames.skip(i + 1) + seq![frame],
        frames.len() < capacity ==> with_keyframe(frames, capacity, frame) == frames
            + seq![frame],
{
    assert(is_oldest(frames, i));
    lemma_oldest_is_unique(frames, i);
    assert(frames.remove(i).push(frame) =~= frames.take(i) + frames.skip(i + 1) + seq![frame]);
    assert(frames.push(frame) =~= frames + seq![frame]);
}

/// Among the first `n` keyframes one is the oldest.
proof fn lemma_oldest_exists(frames: Seq<Frame>, n: nat)
    requires
        0 < n <= frames.len(),
    ensures
        exists|i: int| is_oldest(frames.take(n as int), i),
        n == frames.len() ==> is_oldest(frames, oldest(frames)),
    decreases n,
{
    let some = frames.take(n as int);
    if n == 1 {
        assert(is_oldest(some, 0));
    } else {
        lemma_oldest_exists(frames, (n - 1) as nat);
        let fewer = frames.take(n - 1);
        let i = choose|i: int| is_oldest(fewer, i);
        assert(is_oldest(fewer, i));
        assert(fewer[i] == some[i]);
        if some[n - 1].frame_id < some[i].frame_id {
            assert forall|j: int| 0 <= j < n implies some[n - 1].frame_id <= (
            #[trigger] some[j]).frame_id by {
                if j < n - 1 {
                    assert(fewer[j] == some[j]);
                }
            }
            assert forall|j: int| 0 <= j < n - 1 implies some[n - 1].frame_id < (
            #[trigger] some[j]).frame_id by {
                assert(fewer[j] == some[j]);
            }
            assert(is_oldest(some, n - 1));
        } else {
            assert forall|j: int| 0 <= j < n implies some[i].frame_id <= (
            #[trigger] some[j]).frame_id by {
                if j < n - 1 {
                    assert(fewer[j] == some[j]);
                }
            }
            assert forall|j: int| 0 <= j < i implies some[i].frame_id < (
            #[trigger] some[j]).frame_id by {
                assert(fewer[j] == some[j]);
            }
            assert(is_oldest(some, i));
        }
    }
    if n == frames.len() {
        assert(some =~= frames);
    }
}

/// What an optimization may have to bring back.
pub struct SavedState {
    /// The poses of the body in the world, one for each keyframe.
    pub poses: Vec<Matrix4x4>,
    pub map_points: HashMap<usize, MapPoint>,
}

impl SavedState {
    /// Whether this is the state of a window with these keyframes and points.
    pub open spec fn of(self, frames: Seq<Frame>, points: Map<usize, MapPoint>) -> bool {
        &&& self.poses@ == frames.map_values(|f: Frame| f.state.T_W_B)
        &&& self.map_points@ == points
    }
}

/// An optimization that is to be run.
pub struct Start {
    pub problem: Problem,
    pub config: SolverConfig,
    pub saved: SavedState,
}

/// Which run of the solver it was.
#[derive(Clone, Copy, Debug, PartialEq, Eq, Structural)]
pub enum Run {
    /// The run with the settings of the start.
    First,
    /// The run with other settings, after the first has failed.
    Fallback,
}

/// What follows a run of the solver.
pub enum Verdict {
    /// Another run, on the same graph with these settings.
    Retry(SolverConfig),
    /// The optimization is over, and succeeded or not.
    Done(bool),
}

/// Whether the graph of these keyframes is worth solving: it has six blocks or
/// more, and no fewer blocks than variables.
pub open spec fn solvable(frames: Seq<Frame>, initialized: bool) -> bool {
    let n = problem::blocks(frames, initialized, frames.len()).len();
    n >= 6 && n >= problem::variable_count(frames)
}

/// The keyframes with the saved poses, as far as there are some.
pub open spec fn with_poses(frames: Seq<Frame>, poses: Seq<Matrix4x4>) -> Seq<Frame> {
    Seq::new(
        frames.len(),
        |i: int|
            if i < poses.len() {
                solution::with_pose(frames[i], poses[i])
            } else {
                frames[i]
            },
    )
}

impl SlidingWindow {
    /// The settings of the first run of an optimization.
    pub fn build_solver_config(&self) -> (r: SolverConfig)
        ensures
            r == SolverConfig::spec_schur(),
    {
        SolverConfig::schur_complement()
    }

    /// Whether the window has enough keyframes to be optimized: it is not empty,
    /// and it is full.
    pub fn check_sliding_window_size_for_optimization(&self) -> (r: Result<bool, WindowError>)
        ensures
            r == (if self.frames().len() == 0 {
                Err::<bool, WindowError>(WindowError::Empty)
            } else if self.frames().len() < self.capacity() {
                Err(WindowError::NeedMoreKeyframes)
            } else {
                Ok(true)
            }),
    {
        if self.keyframes.len() == 0 {
            return Err(WindowError::Empty);
        }
        if self.keyframes.len() < self.max_frames {
            return Err(WindowError::NeedMoreKeyframes);
        }
        Ok(true)
    }

    /// Starts an optimization: gives the graph to solve and the settings to solve
    /// it with, or nothing where the graph is not worth solving. Afterwards the
    /// outcome goes to [`SlidingWindow::finish_optimization`].
    pub fn optimize(&self) -> (r: Result<Option<Start>, WindowError>)
        ensures
            self.frames().len() == 0 ==> r == Err::<Option<Start>, WindowError>(WindowError::Empty),
            0 < self.frames().len() < self.capacity() ==> r == Err::<Option<Start>, WindowError>(
                WindowError::NeedMoreKeyframes,
            ),
            self.frames().len() > 0 && self.frames().len() >= self.capacity() ==> r is Ok && (r->Ok_0
                is Some <==> solvable(self.frames(), self.aligned())),
            r matches Ok(Some(start)) ==> {
                &&& start.problem.is_problem_of(self.frames(), self.points(), self.aligned())
                &&& start.config == SolverConfig::spec_schur()
                &&& start.saved.of(self.frames(), self.points())
            },
    {
        match self.check_sliding_window_size_for_optimization() {
            Err(e) => {
                return Err(e);
            },
            Ok(_) => {},
        }
        let saved = SavedState {
            poses: self.get_keyframe_poses(),
            map_points: self.map_points.clone(),
        };
        let problem = Problem::build(&self.keyframes, &self.map_points, self.initialized);
        if problem.blocks.len() < 6 || problem.blocks.len() < problem.variables.len() {
            return Ok(None);
        }
        Ok(Some(Start { problem, config: self.build_solver_config(), saved }))
    }

    /// Ends an optimization, or has it run again.
    ///
    /// A first run that failed on a singular linear system is repeated with a
    /// Cholesky solver. Any other failure brings the saved state back. A solution
    /// that can be used replaces the map, the poses, velocities and biases.
    pub fn finish_optimization(
        &mut self,
        run: Run,
        saved: &SavedState,
        outcome: &Result<Solution, String>,
    ) -> (r: Verdict)
        requires
            *outcome matches Ok(s) ==> (solver::successful(s.status)
                ==> solution::all_fit(
                s.parameters@,
                old(self).frames().len(),
            )),
        ensures
            final(self).capacity() == old(self).capacity(),
            final(self).aligned() == old(self).aligned(),
            match *outcome {
                Err(e) => if run == Run::First && solver::singular(e@) {
                    &&& r == Verdict::Retry(SolverConfig::spec_cholesky(20))
                    &&& final(self).frames() == old(self).frames()
                    &&& final(self).points() == old(self).points()
                } else {
                    &&& r == Verdict::Done(false)
                    &&& final(self).frames() == with_poses(old(self).frames(), saved.poses@)
                    &&& final(self).points() == saved.map_points@
                },
                Ok(s) => if solver::successful(s.status) {
                    &&& r == Verdict::Done(true)
                    &&& final(self).estimate() == (Estimate {
                        frames: old(self).frames(),
                        points: Map::empty(),
                    }).take_over_all(s.parameters@, s.parameters@.len())
                } else {
                    &&& r == Verdict::Done(false)
                    &&& final(self).frames() == with_poses(old(self).frames(), saved.poses@)
                    &&& final(self).points() == saved.map_points@
                },
            },
            *outcome matches Ok(s) ==> match s.status {
                OptimizationStatus::Converged => r == Verdict::Done(true),
                OptimizationStatus::CostToleranceReached => r == Verdict::Done(true),
                OptimizationStatus::ParameterToleranceReached => r == Verdict::Done(true),
                OptimizationStatus::GradientToleranceReached => r == Verdict::Done(true),
                OptimizationStatus::TrustRegionRadiusTooSmall => r == Verdict::Done(true),
                OptimizationStatus::MinCostThresholdReached => r == Verdict::Done(true),
                OptimizationStatus::MaxIterationsReached => r == Verdict::Done(true),
                OptimizationStatus::Timeout => r == Verdict::Done(false),
                OptimizationStatus::NumericalFailure => r == Verdict::Done(false),
                OptimizationStatus::IllConditionedJacobian => r == Verdict::Done(false),
                OptimizationStatus::InvalidNumericalValues => r == Verdict::Done(false),
                OptimizationStatus::UserTerminated => r == Verdict::Done(false),
                OptimizationStatus::Failed(_) => r == Verdict::Done(false),
            },
            r == Verdict::Done(true) ==> {
                &&& *outcome is Ok
                &&& final(self).estimate() == (Estimate {
                    frames: old(self).frames(),
                    points: Map::empty(),
                }).take_over_all(outcome->Ok_0.parameters@, outcome->Ok_0.parameters@.len())
            },
            r == Verdict::Done(false) ==> {
                &&& final(self).points() == saved.map_points@
                &&& final(self).frames().len() == old(self).frames().len()
                &&& forall|i: int|
                    0 <= i < old(self).frames().len() ==> #[trigger] final(self).frames()[i] == (
                    Frame {
                        state: State {
                            T_W_B: if i < saved.poses@.len() {
                                saved.poses@[i]
                            } else {
                                old(self).frames()[i].state.T_W_B
                            },
                            ..old(self).frames()[i].state
                        },
                        ..old(self).frames()[i]
                    })
            },
    {
        match outcome {
            Err(e) => {
                if run == Run::First && is_linear_failure(e.as_str()) {
                    return Verdict::Retry(SolverConfig::cholesky(20));
                }
                self.revert_to_saved_state(saved);
                Verdict::Done(false)
            },
            Ok(s) => {
                if is_optimization_successful(&s.status) {
                    self.process_optimization_result(&s.parameters);
                    Verdict::Done(true)
                } else {
                    self.revert_to_saved_state(saved);
                    Verdict::Done(false)
                }
            },
        }
    }

    /// What a solution changes.
    pub open spec fn estimate(&self) -> Estimate {
        Estimate { frames: self.frames(), points: self.points() }
    }

    /// Brings the saved poses and the saved map back.
    pub fn revert_to_saved_state(&mut self, saved: &SavedState)
        ensures
            final(self).capacity() == old(self).capacity(),
            final(self).aligned() == old(self).aligned(),
            final(self).frames() == with_poses(old(self).frames(), saved.poses@),
            final(self).points() == saved.map_points@,
            final(self).frames().len() == old(self).frames().len(),
            forall|i: int|
                0 <= i < old(self).frames().len() ==> #[trigger] final(self).frames()[i] == (Frame {
                    state: State {
                        T_W_B: if i < saved.poses@.len() {
                            saved.poses@[i]
                        } else {
                            old(self).frames()[i].state.T_W_B
                        },
                        ..old(self).frames()[i].state
                    },
                    ..old(self).frames()[i]
                }),
    {
        let n = self.keyframes.len();
        let mut i: usize = 0;
        while i < n && i < saved.poses.len()
            invariant
                n == self.keyframes@.len(),
                n == old(self).keyframes@.len(),
                i <= n,
                i <= saved.poses@.len(),
                self.max_frames == old(self).max_frames,
                self.initialized == old(self).initialized,
                forall|j: int|
                    0 <= j < n ==> #[trigger] self.keyframes@[j] == (if j < i {
                        solution::with_pose(
                            old(self).keyframes@[j],
                            saved.poses@[j],
                        )
                    } else {
                        old(self).keyframes@[j]
                    }),
            decreases n - i,
        {
            self.keyframes[i].state.T_W_B = saved.poses[i];
            i += 1;
        }
        assert(self.keyframes@ =~= with_poses(old(self).keyframes@, saved.poses@));
        self.map_points = saved.map_points.clone();
    }

    /// Takes a solution over: the map is made of the landmarks of the solution,
    /// the keyframes get its poses, velocities and biases.
    pub fn process_optimization_result(&mut self, parameters: &Vec<Parameter>)
        requires
            solution::all_fit(parameters@, old(self).frames().len()),
        ensures
            final(self).capacity() == old(self).capacity(),
            final(self).aligned() == old(self).aligned(),
            final(self).frames().len() == old(self).frames().len(),
            final(self).estimate() == (Estimate {
                frames: old(self).frames(),
                points: Map::empty(),
            }).take_over_all(parameters@, parameters@.len()),
    {
        self.map_points.clear();
        take_over_all(&mut self.keyframes, &mut self.map_points, parameters);
    }
}

/// An optimization that fails leaves keyframes and map as they were when it
/// started.
pub proof fn failed_optimization_changes_nothing(
    frames: Seq<Frame>,
    points: Map<usize, MapPoint>,
    saved: SavedState,
)
    requires
        saved.of(frames, points),
    ensures
        with_poses(frames, saved.poses@) == frames,
        saved.map_points@ == points,
{
    assert(with_poses(frames, saved.poses@) =~= frames);
}

/// Whatever a window has become, a revert gives each keyframe the pose that was
/// saved for it and leaves everything else of the keyframe as it is. A keyframe for
/// which no pose was saved is left alone.
pub proof fn saved_poses_come_back(frames: Seq<Frame>, saved: SavedState, i: int)
    requires
        0 <= i < frames.len(),
    ensures
        ({
            let after = with_poses(frames, saved.poses@);
            &&& after.len() == frames.len()
            &&& i < saved.poses@.len() ==> after[i].state.T_W_B == saved.poses@[i]
            &&& i >= saved.poses@.len() ==> after[i] == frames[i]
            &&& after[i].state.velocity == frames[i].state.velocity
            &&& after[i].state.accel_bias == frames[i].state.accel_bias
            &&& after[i].state.gyro_bias == frames[i].state.gyro_bias
            &&& after[i] == (Frame {
                state: State { T_W_B: after[i].state.T_W_B, ..frames[i].state },
                ..frames[i]
            })
        }),
{
}

/// Whether the parameters are the variables of the graph of these keyframes, each
/// once, with values that the solver gives such variables.
pub open spec fn solves_graph(
    frames: Seq<Frame>,
    names: Seq<VarName>,
    parameters: Seq<Parameter>,
) -> bool {
    &&& names.len() == parameters.len()
    &&& forall|i: int|
        0 <= i < names.len() ==> {
            &&& (#[trigger] parameters[i]).name@ == names[i].spec_name()
            &&& problem::declared(frames, names[i])
            &&& solution::suits(names[i], parameters[i].value)
        }
    &&& forall|i: int, j: int|
        0 <= i < j < names.len() ==> (#[trigger] names[i]) != (#[trigger] names[j])
    &&& forall|name: VarName| #[trigger]
        problem::declared(frames, name) ==> names.contains(name)
}

/// Once the solution of a graph has been taken over, the map holds exactly the
/// features that both cameras saw, and everything in the window that the graph
/// has a variable for has the value of that variable.
pub proof fn solution_of_the_graph_is_taken_over(
    frames: Seq<Frame>,
    names: Seq<VarName>,
    parameters: Seq<Parameter>,
)
    requires
        frames.len() <= i32::MAX,
        solves_graph(frames, names, parameters),
    ensures
        solution::all_fit(parameters, frames.len()),
        ({
            let e = (Estimate { frames, points: Map::empty() }).take_over_all(
                parameters,
                parameters.len(),
            );
            &&& forall|id: usize| #[trigger]
                e.points.contains_key(id) <==> problem::stereo(
                    problem::sightings(frames, frames.len()),
                    id,
                )
            &&& forall|i: int|
                0 <= i < parameters.len() ==> solution::has_value(
                    e,
                    #[trigger] solution::target(parameters, i),
                    parameters[i].value,
                )
        }),
{
    let start = Estimate { frames, points: Map::empty() };
    let n = parameters.len();
    let e = start.take_over_all(parameters, n);
    assert forall|i: int| 0 <= i < n implies solution::fits(
        (#[trigger] parameters[i]).name@,
        parameters[i].value,
        frames.len(),
    ) by {
        solution::solved_variables_fit(frames, names[i], parameters[i].value);
    }
    assert forall|i: int, j: int|
        0 <= i < j < n && #[trigger] solution::target(parameters, i)
            == #[trigger] solution::target(
            parameters,
            j,
        ) implies solution::target(parameters, i) == Target::Ignored by {
        assert(parameters[i].name@ == names[i].spec_name());
        assert(parameters[j].name@ == names[j].spec_name());
        assert(names[i] != names[j]);
        solution::variables_have_distinct_targets(frames, names[i], names[j]);
    }
    solution::solution_is_read_off(start, parameters, n);
    assert forall|id: usize| #[trigger]
        e.points.contains_key(id) <==> problem::stereo(
            problem::sightings(frames, frames.len()),
            id,
        ) by {
        let name = VarName::Landmark(id);
        if problem::declared(frames, name) {
            let i = choose|i: int| 0 <= i < names.len() && names[i] == name;
            assert(parameters[i].name@ == names[i].spec_name());
            names::name_round_trip(name);
            assert(solution::target(parameters, i) == Target::Landmark(id));
        } else if solution::targeted(parameters, n, Target::Landmark(id)) {
            let i = choose|i: int|
                0 <= i < n && #[trigger] solution::target(parameters, i)
                    == Target::Landmark(id);
            assert(parameters[i].name@ == names[i].spec_name());
            names::name_round_trip(names[i]);
            assert(names[i] == name);
        } else {
            assert(solution::keeps(start, e, Target::Landmark(id)));
        }
    }
}

/// Where a camera saw a point of the map.
#[derive(Clone, Copy, Debug, PartialEq, Eq, Structural)]
pub struct KnownPoint {
    pub camera: Camera,
    pub coord: Coord,
    pub point: MapPoint,
}

/// The graph from which the pose of a new frame is found. Keyframes and map points
/// are constants of it, the pose of the frame is its only variable.
pub struct TrackingProblem {
    /// The variable starts from the inverse of this pose.
    pub T_W_B: Matrix4x4,
    /// Pose of the left camera in the body frame.
    pub T_B_Cl: Matrix4x4,
    /// Pose of the right camera in the body frame.
    pub T_B_Cr: Matrix4x4,
    /// One block for each feature that shows a point of the map.
    pub blocks: Vec<KnownPoint>,
    /// The width of the Huber loss that the blocks are weighted with.
    pub loss_width: Scalar,
    pub config: SolverConfig,
}

/// The blocks of the first `n` features of one image.
pub open spec fn known_points(
    points: Map<usize, MapPoint>,
    camera: Camera,
    features: Seq<Feature>,
    n: nat,
) -> Seq<KnownPoint>
    decreases n,
{
    if n == 0 {
        Seq::empty()
    } else {
        let before = known_points(points, camera, features, (n - 1) as nat);
        let f = features[n - 1];
        if points.contains_key(f.feature_id) {
            before.push(
                KnownPoint { camera, coord: f.undistorted_coord, point: points[f.feature_id] },
            )
        } else {
            before
        }
    }
}

/// A frame is tracked by the points of the map that it shows, and by nothing else:
/// each block is a feature of the image with its coordinates and the point that the
/// map has for it, and each feature that the map has a point for gives such a block.
pub proof fn tracking_uses_the_known_features(
    points: Map<usize, MapPoint>,
    camera: Camera,
    features: Seq<Feature>,
    n: nat,
)
    requires
        n <= features.len(),
    ensures
        known_points(points, camera, features, n).len() <= n,
        forall|a: int|
            0 <= a < known_points(points, camera, features, n).len() ==> {
                let b = #[trigger] known_points(points, camera, features, n)[a];
                b.camera == camera && exists|i: int|
                    {
                        &&& 0 <= i < n
                        &&& points.contains_key((#[trigger] features[i]).feature_id)
                        &&& b.coord == features[i].undistorted_coord
                        &&& b.point == points[features[i].feature_id]
                    }
            },
        forall|i: int|
            0 <= i < n && points.contains_key((#[trigger] features[i]).feature_id) ==> exists|
                a: int,
            |
                {
                    &&& 0 <= a < known_points(points, camera, features, n).len()
                    &&& (#[trigger] known_points(points, camera, features, n)[a]).camera == camera
                    &&& known_points(points, camera, features, n)[a].coord
                        == features[i].undistorted_coord
                    &&& known_points(points, camera, features, n)[a].point
                        == points[features[i].feature_id]
                },
    decreases n,
{
    if n > 0 {
        let m = (n - 1) as nat;
        tracking_uses_the_known_features(points, camera, features, m);
        let before = known_points(points, camera, features, m);
        let all = known_points(points, camera, features, n);
        assert forall|a: int| 0 <= a < all.len() implies {
            let b = #[trigger] all[a];
            b.camera == camera && exists|i: int|
                {
                    &&& 0 <= i < n
                    &&& points.contains_key((#[trigger] features[i]).feature_id)
                    &&& b.coord == features[i].undistorted_coord
                    &&& b.point == points[features[i].feature_id]
                }
        } by {
            if a < before.len() {
                let b = before[a];
                assert(all[a] == b);
                let i = choose|i: int|
                    {
                        &&& 0 <= i < m
                        &&& points.contains_key((#[trigger] features[i]).feature_id)
                        &&& b.coord == features[i].undistorted_coord
                        &&& b.point == points[features[i].feature_id]
                    };
                assert(points.contains_key(features[i].feature_id));
            } else {
                assert(points.contains_key(features[n - 1].feature_id));
            }
        }
        assert forall|i: int|
            0 <= i < n && points.contains_key((#[trigger] features[i]).feature_id) implies exists|
            a: int,
        |
            {
                &&& 0 <= a < all.len()
                &&& (#[trigger] all[a]).camera == camera
                &&& all[a].coord == features[i].undistorted_coord
                &&& all[a].point == points[features[i].feature_id]
            } by {
            if i < m {
                let a = choose|a: int|
                    {
                        &&& 0 <= a < before.len()
                        &&& (#[trigger] before[a]).camera == camera
                        &&& before[a].coord == features[i].undistorted_coord
                        &&& before[a].point == points[features[i].feature_id]
                    };
                assert(all[a] == before[a]);
            } else {
                assert(all[before.len() as int].camera == camera);
            }
        }
    }
}

/// Appends the blocks of the features of one image.
fn append_known_points(
    r: &mut Vec<KnownPoint>,
    points: &HashMap<usize, MapPoint>,
    camera: Camera,
    features: &Vec<Feature>,
)
    ensures
        final(r)@ == old(r)@ + known_points(points@, camera, features@, features@.len()),
{
    broadcast use vstd::std_specs::hash::group_hash_axioms;

    let mut i: usize = 0;
    while i < features.len()
        invariant
            i <= features@.len(),
            r@ == old(r)@ + known_points(points@, camera, features@, i as nat),
        decreases features@.len() - i,
    {
        let f = features[i];
        match points.get(&f.feature_id) {
            Some(point) => {
                r.push(KnownPoint { camera, coord: f.undistorted_coord, point: *point });
            },
            None => {},
        }
        i += 1;
        assert(r@ =~= old(r)@ + known_points(points@, camera, features@, i as nat));
    }
}

impl SlidingWindow {
    /// The graph from which the pose of `frame` is found: it starts from the last
    /// keyframe, and has a block for each feature of the left and then of the
    /// right image whose point is in the map. The cameras are those of the first
    /// keyframe.
    pub fn track_motion(&self, frame: &Frame) -> (r: TrackingProblem)
        requires
            self.frames().len() > 0,
        ensures
            r.T_W_B == self.frames().last().state.T_W_B,
            r.T_B_Cl == self.frames().first().state.T_B_Cl,
            r.T_B_Cr == self.frames().first().state.T_B_Cr,
            r.blocks@ == known_points(
                self.points(),
                Camera::Left,
                frame.left_features@,
                frame.left_features@.len(),
            ) + known_points(
                self.points(),
                Camera::Right,
                frame.right_features@,
                frame.right_features@.len(),
            ),
            r.loss_width.bits == 0x4000_0000_0000_0000,
            r.config == SolverConfig::spec_cholesky(10),
    {
        let mut blocks: Vec<KnownPoint> = Vec::new();
        append_known_points(&mut blocks, &self.map_points, Camera::Left, &frame.left_features);
        append_known_points(&mut blocks, &self.map_points, Camera::Right, &frame.right_features);
        let first = &self.keyframes[0];
        let last = &self.keyframes[self.keyframes.len() - 1];
        TrackingProblem {
            T_W_B: last.state.T_W_B,
            T_B_Cl: first.state.T_B_Cl,
            T_B_Cr: first.state.T_B_Cr,
            blocks,
            loss_width: Scalar::from_bits(0x4000_0000_0000_0000),
            config: SolverConfig::cholesky(10),
        }
    }

    /// The tracked pose, if the run of the solver ended well and left one.
    pub fn finish_tracking(outcome: &Result<Solution, String>) -> (r: Option<Matrix4x4>)
        ensures
            match *outcome {
                Ok(s) => if solver::successful(s.status) {
                    is_tracked_pose(s.parameters@, r)
                } else {
                    r is None
                },
                Err(_) => r is None,
            },
            *outcome matches Ok(s) ==> match s.status {
                OptimizationStatus::Converged => is_tracked_pose(s.parameters@, r),
                OptimizationStatus::CostToleranceReached => is_tracked_pose(s.parameters@, r),
                OptimizationStatus::ParameterToleranceReached => is_tracked_pose(s.parameters@, r),
                OptimizationStatus::GradientToleranceReached => is_tracked_pose(s.parameters@, r),
                OptimizationStatus::TrustRegionRadiusTooSmall => is_tracked_pose(s.parameters@, r),
                OptimizationStatus::MinCostThresholdReached => is_tracked_pose(s.parameters@, r),
                OptimizationStatus::MaxIterationsReached => is_tracked_pose(s.parameters@, r),
                OptimizationStatus::Timeout => r is None,
                OptimizationStatus::NumericalFailure => r is None,
                OptimizationStatus::IllConditionedJacobian => r is None,
                OptimizationStatus::InvalidNumericalValues => r is None,
                OptimizationStatus::UserTerminated => r is None,
                OptimizationStatus::Failed(_) => r is None,
            },
    {
        match outcome {
            Ok(s) => if is_optimization_successful(&s.status) {
                tracked_pose(&s.parameters)
            } else {
                None
            },
            Err(_) => None,
        }
    }
}

/// Whether the parameter is the pose of the frame that is tracked.
pub open spec fn names_tracked_pose(p: Parameter) -> bool {
    p.name@ == VarName::NewFrame.spec_name() && p.value is Se3
}

/// Whether `r` is the pose of the tracked frame: that of the first parameter that
/// is one.
pub open spec fn is_tracked_pose(parameters: Seq<Parameter>, r: Option<Matrix4x4>) -> bool {
    match r {
        Some(pose) => exists|i: int|
            {
                &&& 0 <= i < parameters.len()
                &&& names_tracked_pose(#[trigger] parameters[i])
                &&& parameters[i].value->T_W_B == pose
                &&& forall|j: int| 0 <= j < i ==> !names_tracked_pose(#[trigger] parameters[j])
            },
        None => forall|i: int|
            0 <= i < parameters.len() ==> !names_tracked_pose(#[trigger] parameters[i]),
    }
}

/// The tracked pose is the value of the variable `F`, wherever it stands among the
/// parameters: if it is there once, its pose is given, and no other value is.
pub proof fn tracked_pose_is_that_of_the_new_frame(
    parameters: Seq<Parameter>,
    i: int,
    r: Option<Matrix4x4>,
)
    requires
        0 <= i < parameters.len(),
        parameters[i].name@ == seq!['F'],
        parameters[i].value is Se3,
        forall|j: int|
            0 <= j < parameters.len() && j != i ==> (#[trigger] parameters[j]).name@ != seq!['F'],
    ensures
        is_tracked_pose(parameters, r) <==> r == Some(parameters[i].value->T_W_B),
{
    assert(names_tracked_pose(parameters[i]));
    assert forall|j: int| 0 <= j < parameters.len() && j != i implies !names_tracked_pose(
        #[trigger] parameters[j],
    ) by {}
}

/// Without a variable `F` there is no tracked pose.
pub proof fn nothing_else_is_the_tracked_pose(
    parameters: Seq<Parameter>,
    r: Option<Matrix4x4>,
)
    requires
        forall|j: int|
            0 <= j < parameters.len() ==> (#[trigger] parameters[j]).name@ != seq!['F'],
    ensures
        is_tracked_pose(parameters, r) <==> r is None,
{
    assert forall|j: int| 0 <= j < parameters.len() implies !names_tracked_pose(
        #[trigger] parameters[j],
    ) by {}
}

/// The pose of the tracked frame, if it is among the parameters.
fn tracked_pose(parameters: &Vec<Parameter>) -> (r: Option<Matrix4x4>)
    ensures
        is_tracked_pose(parameters@, r),
{
    let name = VarName::NewFrame.name();
    let mut i: usize = 0;
    while i < parameters.len()
        invariant
            i <= parameters@.len(),
            name@ == VarName::NewFrame.spec_name(),
            forall|j: int| 0 <= j < i ==> !names_tracked_pose(#[trigger] parameters@[j]),
        decreases parameters@.len() - i,
    {
        let p = &parameters[i];
        if p.name == name {
            if let SolvedValue::Se3 { T_W_B } = &p.value {
                assert(names_tracked_pose(parameters@[i as int]));
                return Some(*T_W_B);
            }
        }
        assert(!names_tracked_pose(parameters@[i as int]));
        i += 1;
    }
    None
}

/// Whether every keyframe but the first has a complete IMU measurement.
pub open spec fn measured(frames: Seq<Frame>) -> bool {
    forall|k: int|
        1 <= k < frames.len() ==> (#[trigger] frames[k]).imu_preintegration is Some
            && frames[k].imu_preintegration->0.wf()
}

/// What the keyframes `i` and `i + 1` tell about the gyroscope bias. The measured
/// rotation counts with its Jacobian only if both keyframes have a measurement,
/// else with the identity.
pub open spec fn gyro_term(frames: Seq<Frame>, i: int) -> GyroTerm {
    let m = frames[i + 1].imu_preintegration->0;
    GyroTerm {
        T_W_B_i: frames[i].state.T_W_B,
        T_W_B_j: frames[i + 1].state.T_W_B,
        jacobian: if frames[i].imu_preintegration is Some {
            Matrix::spec_block3(
                m.jacobian@,
                m.spec_layout().at(Part::Rotation),
                m.spec_layout().at(Part::GyroBias),
            )
        } else {
            Matrix3x3::spec_identity()
        },
        delta_R: m.delta_R,
    }
}

/// What the keyframes `i` and `i + 1` tell about velocities, gravity and scale.
pub open spec fn alignment_term(frames: Seq<Frame>, i: int) -> AlignmentTerm {
    let m = frames[i + 1].imu_preintegration->0;
    AlignmentTerm {
        T_W_B_i: frames[i].state.T_W_B,
        T_W_B_j: frames[i + 1].state.T_W_B,
        dt: m.dt,
        dp: m.delta_p,
        dv: m.delta_v,
    }
}

/// A pair of keyframes tells of the gyroscope bias what the two hold: their poses,
/// the first one's first; the rotation that was measured up to the second; and how
/// that rotation reacts to the gyroscope bias, if both have a measurement. The
/// second keyframe of a pair is the first of the next.
pub proof fn gyroscope_terms_read_the_keyframes(frames: Seq<Frame>, i: int)
    requires
        measured(frames),
        0 <= i && i + 1 < frames.len(),
    ensures
        frames[i + 1].imu_preintegration is Some,
        ({
            let t = gyro_term(frames, i);
            let m = frames[i + 1].imu_preintegration->0;
            &&& t.T_W_B_i == frames[i].state.T_W_B
            &&& t.T_W_B_j == frames[i + 1].state.T_W_B
            &&& t.delta_R == m.delta_R
            &&& frames[i].imu_preintegration is Some ==> forall|a: int, b: int|
                0 <= a < 3 && 0 <= b < 3 ==> #[trigger] t.jacobian.at(a, b) == m.jacobian@[m.idx_r
                    + a][m.idx_bg + b]
            &&& frames[i].imu_preintegration is None ==> forall|a: int, b: int|
                0 <= a < 3 && 0 <= b < 3 ==> #[trigger] t.jacobian.at(a, b) == (if a == b {
                    Scalar::spec_one()
                } else {
                    Scalar::spec_zero()
                })
            &&& i + 2 < frames.len() ==> gyro_term(frames, i + 1).T_W_B_i == t.T_W_B_j
        }),
{
    assert(frames[i + 1].imu_preintegration is Some);
}

/// Where the measured rotations are those that the poses tell of, whatever way of
/// comparing poses that is by, the same holds in every term: no pair then asks for
/// another bias.
pub proof fn agreeing_rotations_agree_in_the_terms(
    frames: Seq<Frame>,
    visual: spec_fn(Matrix4x4, Matrix4x4) -> Quaternion,
    i: int,
)
    requires
        measured(frames),
        forall|k: int|
            1 <= k < frames.len() ==> (#[trigger] frames[k]).imu_preintegration->0.delta_R == visual(
                frames[k - 1].state.T_W_B,
                frames[k].state.T_W_B,
            ),
        0 <= i && i + 1 < frames.len(),
    ensures
        gyro_term(frames, i).delta_R == visual(
            gyro_term(frames, i).T_W_B_i,
            gyro_term(frames, i).T_W_B_j,
        ),
{
    assert(frames[i + 1].imu_preintegration->0.delta_R == visual(
        frames[i].state.T_W_B,
        frames[i + 1].state.T_W_B,
    ));
}

/// A pair of keyframes is aligned by what the two hold: their poses, the first
/// one's first, and the time, the change of position and the change of velocity
/// that were measured up to the second. The second keyframe of a pair is the first
/// of the next.
pub proof fn alignment_terms_read_the_keyframes(frames: Seq<Frame>, i: int)
    requires
        measured(frames),
        0 <= i && i + 1 < frames.len(),
    ensures
        frames[i + 1].imu_preintegration is Some,
        ({
            let t = alignment_term(frames, i);
            let m = frames[i + 1].imu_preintegration->0;
            let poses = frames.map_values(|f: Frame| f.state.T_W_B);
            &&& t.T_W_B_i == poses[i]
            &&& t.T_W_B_j == poses[i + 1]
            &&& t.dt == m.dt
            &&& t.dp == m.delta_p
            &&& t.dv == m.delta_v
            &&& i + 2 < frames.len() ==> alignment_term(frames, i + 1).T_W_B_i == t.T_W_B_j
        }),
{
    assert(frames[i + 1].imu_preintegration is Some);
}

/// Where the measured motion is the one that the poses tell of, whatever way of
/// comparing poses that is by, the same holds in every term.
pub proof fn agreeing_motions_agree_in_the_terms(
    frames: Seq<Frame>,
    visual: spec_fn(Matrix4x4, Matrix4x4) -> (Scalar, Vector3, Vector3),
    i: int,
)
    requires
        measured(frames),
        forall|k: int|
            1 <= k < frames.len() ==> {
                let m = (#[trigger] frames[k]).imu_preintegration->0;
                (m.dt, m.delta_p, m.delta_v) == visual(
                    frames[k - 1].state.T_W_B,
                    frames[k].state.T_W_B,
                )
            },
        0 <= i && i + 1 < frames.len(),
    ensures
        ({
            let t = alignment_term(frames, i);
            (t.dt, t.dp, t.dv) == visual(t.T_W_B_i, t.T_W_B_j)
        }),
{
    let m = frames[i + 1].imu_preintegration->0;
    assert((m.dt, m.delta_p, m.delta_v) == visual(
        frames[i].state.T_W_B,
        frames[i + 1].state.T_W_B,
    ));
}

/// Both kinds of terms speak of the same pairs: as many, with the same poses.
pub proof fn terms_speak_of_the_same_pairs(frames: Seq<Frame>, i: int)
    ensures
        frames.len() > 0 ==> pairs(frames) == frames.len() - 1,
        frames.len() == 0 ==> pairs(frames) == 0,
        gyro_term(frames, i).T_W_B_i == alignment_term(frames, i).T_W_B_i,
        gyro_term(frames, i).T_W_B_j == alignment_term(frames, i).T_W_B_j,
{
}

/// The number of pairs of consecutive keyframes.
pub open spec fn pairs(frames: Seq<Frame>) -> nat {
    if frames.len() == 0 {
        0
    } else {
        (frames.len() - 1) as nat
    }
}

/// The keyframe with another gyroscope bias and the measurement that goes with it,
/// if there is a new one. A keyframe without a measurement keeps its bias.
pub open spec fn with_gyro_bias(f: Frame, bias: Vector3, measurement: Option<PreInt>) -> Frame {
    if f.imu_preintegration is Some {
        Frame {
            imu_preintegration: if measurement is Some {
                measurement
            } else {
                f.imu_preintegration
            },
            state: State { gyro_bias: bias, ..f.state },
            ..f
        }
    } else {
        f
    }
}

/// A keyframe without a measurement is left as it is. One with a measurement gets
/// the gyroscope bias, keeps a measurement, and changes in nothing else; the
/// measurement is the new one wherever there is one.
pub proof fn biases_belong_to_measured_keyframes(
    f: Frame,
    bias: Vector3,
    measurement: Option<PreInt>,
)
    ensures
        ({
            let g = with_gyro_bias(f, bias, measurement);
            &&& f.imu_preintegration is None ==> g == f
            &&& f.imu_preintegration is Some ==> {
                &&& g.state.gyro_bias == bias
                &&& g.imu_preintegration is Some
                &&& measurement is Some ==> g.imu_preintegration == measurement
                &&& measurement is None ==> g.imu_preintegration == f.imu_preintegration
            }
            &&& g.state.accel_bias == f.state.accel_bias
            &&& g.state.velocity == f.state.velocity
            &&& g.state.T_W_B == f.state.T_W_B
            &&& g == (Frame {
                state: State { gyro_bias: g.state.gyro_bias, ..f.state },
                imu_preintegration: g.imu_preintegration,
                ..f
            })
        }),
{
}

impl SlidingWindow {
    /// Whether every keyframe but the first has a complete IMU measurement.
    pub fn is_measured(&self) -> (r: bool)
        ensures
            r == measured(self.frames()),
    {
        let mut k: usize = 1;
        while k < self.keyframes.len()
            invariant
                1 <= k,
                k <= self.frames().len() || self.frames().len() == 0,
                forall|j: int|
                    1 <= j < k && j < self.frames().len() ==> (
                    #[trigger] self.frames()[j]).imu_preintegration is Some
                        && self.frames()[j].imu_preintegration->0.wf(),
            decreases self.frames().len() - k,
        {
            let complete = match &self.keyframes[k].imu_preintegration {
                Some(m) => m.is_wf(),
                None => false,
            };
            if !complete {
                assert(!(self.frames()[k as int].imu_preintegration is Some
                    && self.frames()[k as int].imu_preintegration->0.wf()));
                return false;
            }
            k += 1;
        }
        true
    }

    /// What the pairs of consecutive keyframes tell about the gyroscope bias.
    pub fn gyroscope_terms(&self) -> (r: Vec<GyroTerm>)
        requires
            measured(self.frames()),
        ensures
            r@ == Seq::new(pairs(self.frames()), |i: int| gyro_term(self.frames(), i)),
            self.frames().len() > 0 ==> r@.len() == self.frames().len() - 1,
            self.frames().len() == 0 ==> r@.len() == 0,
            forall|i: int|
                0 <= i < r@.len() ==> {
                    let m = self.frames()[i + 1].imu_preintegration->0;
                    &&& (#[trigger] r@[i]).T_W_B_i == self.frames()[i].state.T_W_B
                    &&& r@[i].T_W_B_j == self.frames()[i + 1].state.T_W_B
                    &&& r@[i].delta_R == m.delta_R
                    &&& forall|a: int, b: int|
                        0 <= a < 3 && 0 <= b < 3 ==> #[trigger] r@[i].jacobian.at(a, b) == (
                        if self.frames()[i].imu_preintegration is Some {
                            m.jacobian@[m.idx_r + a][m.idx_bg + b]
                        } else if a == b {
                            Scalar::spec_one()
                        } else {
                            Scalar::spec_zero()
                        })
                },
    {
        let mut r: Vec<GyroTerm> = Vec::new();
        let mut j: usize = 1;
        while j < self.keyframes.len()
            invariant
                1 <= j,
                j <= self.frames().len() || j == 1,
                measured(self.frames()),
                r@.len() == j - 1,
                forall|i: int| 0 <= i < j - 1 ==> #[trigger] r@[i] == gyro_term(self.frames(), i),
            decreases self.frames().len() - j,
        {
            let frame_i = &self.keyframes[j - 1];
            let frame_j = &self.keyframes[j];
            assert(self.frames()[j as int].imu_preintegration is Some);
            if let Some(m) = &frame_j.imu_preintegration {
                let l = m.layout();
                assert(l.idx_r == l.at(Part::Rotation) && l.idx_bg == l.at(Part::GyroBias));
                let jacobian = if frame_i.imu_preintegration.is_some() {
                    m.jacobian.block3(l.idx_r, l.idx_bg)
                } else {
                    Matrix3x3::identity()
                };
                r.push(
                    GyroTerm {
                        T_W_B_i: frame_i.state.T_W_B,
                        T_W_B_j: frame_j.state.T_W_B,
                        jacobian,
                        delta_R: m.delta_R,
                    },
                );
            }
            assert(r@[j - 1] == gyro_term(self.frames(), j - 1));
            j += 1;
        }
        assert(r@ =~= Seq::new(pairs(self.frames()), |i: int| gyro_term(self.frames(), i)));
        r
    }

    /// Sets the gyroscope biases and the measurements that were integrated again
    /// with them, in the keyframes that have a measurement. A keyframe for which
    /// none was integrated again keeps the one it has. Gives the biases back.
    pub fn solve_gyroscope_bias(
        &mut self,
        biases: Vec<Vector3>,
        measurements: Vec<Option<PreInt>>,
    ) -> (r: Vec<Vector3>)
        requires
            biases@.len() == old(self).frames().len(),
            measurements@.len() == old(self).frames().len(),
        ensures
            final(self).same_map(old(self)),
            final(self).capacity() == old(self).capacity(),
            final(self).points() == old(self).points(),
            final(self).aligned() == old(self).aligned(),
            r@ == biases@,
            final(self).frames() == Seq::new(
                old(self).frames().len(),
                |k: int| with_gyro_bias(old(self).frames()[k], biases@[k], measurements@[k]),
            ),
            forall|k: int|
                0 <= k < old(self).frames().len() ==> {
                    let before = old(self).frames()[k];
                    if before.imu_preintegration is None {
                        #[trigger] final(self).frames()[k] == before
                    } else {
                        &&& final(self).frames()[k].state == (State {
                            gyro_bias: biases@[k],
                            ..before.state
                        })
                        &&& final(self).frames()[k].imu_preintegration == (
                        if measurements@[k] is Some {
                            measurements@[k]
                        } else {
                            before.imu_preintegration
                        })
                    }
                },
    {
        let mut rest = measurements;
        let mut k: usize = self.keyframes.len();
        while k > 0
            invariant
                k <= old(self).frames().len(),
                self.keyframes@.len() == old(self).frames().len(),
                biases@.len() == old(self).frames().len(),
                rest@ == measurements@.take(k as int),
                measurements@.len() == old(self).frames().len(),
                self.max_frames == old(self).max_frames,
                self.map_points == old(self).map_points,
                self.initialized == old(self).initialized,
                forall|j: int|
                    0 <= j < self.keyframes@.len() ==> #[trigger] self.keyframes@[j] == (if j < k {
                        old(self).frames()[j]
                    } else {
                        with_gyro_bias(old(self).frames()[j], biases@[j], measurements@[j])
                    }),
            decreases k,
        {
            k -= 1;
            let last = rest.pop();
            assert(last == Some(measurements@[k as int]));
            assert(rest@ =~= measurements@.take(k as int));
            if let Some(measurement) = last {
                if self.keyframes[k].imu_preintegration.is_some() {
                    if measurement.is_some() {
                        self.keyframes[k].imu_preintegration = measurement;
                    }
                    self.keyframes[k].state.gyro_bias = biases[k];
                }
            }
        }
        assert(self.keyframes@ =~= Seq::new(
            old(self).frames().len(),
            |k: int| with_gyro_bias(old(self).frames()[k], biases@[k], measurements@[k]),
        ));
        biases
    }

    /// What the pairs of consecutive keyframes tell about velocities, gravity and
    /// scale.
    pub fn alignment_terms(&self) -> (r: Vec<AlignmentTerm>)
        requires
            measured(self.frames()),
        ensures
            r@ == Seq::new(pairs(self.frames()), |i: int| alignment_term(self.frames(), i)),
            self.frames().len() > 0 ==> r@.len() == self.frames().len() - 1,
            self.frames().len() == 0 ==> r@.len() == 0,
            forall|i: int|
                0 <= i < r@.len() ==> {
                    let m = self.frames()[i + 1].imu_preintegration->0;
                    &&& (#[trigger] r@[i]).T_W_B_i == self.frames()[i].state.T_W_B
                    &&& r@[i].T_W_B_j == self.frames()[i + 1].state.T_W_B
                    &&& r@[i].dt == m.dt
                    &&& r@[i].dp == m.delta_p
                    &&& r@[i].dv == m.delta_v
                },
    {
        let mut r: Vec<AlignmentTerm> = Vec::new();
        let mut j: usize = 1;
        while j < self.keyframes.len()
            invariant
                1 <= j,
                j <= self.frames().len() || j == 1,
                measured(self.frames()),
                r@.len() == j - 1,
                forall|i: int|
                    0 <= i < j - 1 ==> #[trigger] r@[i] == alignment_term(self.frames(), i),
            decreases self.frames().len() - j,
        {
            let frame_i = &self.keyframes[j - 1];
            let frame_j = &self.keyframes[j];
            assert(self.frames()[j as int].imu_preintegration is Some);
            if let Some(m) = &frame_j.imu_preintegration {
                r.push(
                    AlignmentTerm {
                        T_W_B_i: frame_i.state.T_W_B,
                        T_W_B_j: frame_j.state.T_W_B,
                        dt: m.dt,
                        dp: m.delta_p,
                        dv: m.delta_v,
                    },
                );
            }
            assert(r@[j - 1] == alignment_term(self.frames(), j - 1));
            j += 1;
        }
        assert(r@ =~= Seq::new(pairs(self.frames()), |i: int| alignment_term(self.frames(), i)));
        r
    }

    /// Gravity and scale of an alignment: the refined gravity and the scale that
    /// was solved for, unless the alignment is rejected.
    pub fn solve_linear_alignment(
        gravity_gap: &Scalar,
        scale: &Scalar,
        refined: &Vector3,
    ) -> (r: Result<(Vector3, Scalar), AlignmentError>)
        ensures
            r == (if alignment::rejected(*gravity_gap, *scale) {
                Err(AlignmentError::NeedMoreMotion)
            } else {
                Ok::<(Vector3, Scalar), AlignmentError>((*refined, *scale))
            }),
    {
        match check_alignment(gravity_gap, scale) {
            Err(e) => Err(e),
            Ok(()) => Ok((*refined, *scale)),
        }
    }
}

} // verus!
