#![allow(non_snake_case)]
//! The sliding window.
use apex_solver::linalg::{LinearSolverType, SchurPreconditioner, SchurVariant};
use apex_solver::manifold::ManifoldType;
use apex_solver::optimizer::OptimizationStatus;
use nalgebra as na;
use vio_backend::datasets::CameraModelType;
use vio_backend::estimator::alignment::{
    alignment_rows, check_alignment, prior_gravity, tangent_seed, AlignmentError, Unknowns,
};
use vio_backend::estimator::frame::{Coord, Feature, Frame};
use vio_backend::estimator::problem::{Block, Camera, InitialValue, MapPoint};
use vio_backend::estimator::sliding_window::{Run, SlidingWindow, Verdict, WindowError};
use vio_backend::estimator::solution::{parameters_fit, Parameter, Solution, SolvedValue};
use vio_backend::estimator::state::State;
use vio_backend::imu::piecewise_integration::{Layout, PreInt};
use vio_backend::linalg::{Matrix3x3, Matrix4x4, Vector3};
use vio_backend::optimization::names::VarName;
use vio_backend::optimization::solver::{convergence, is_linear_failure, SolverConfig};
use vio_backend::scalar::{Scalar, Single};

fn scalar(x: f64) -> Scalar {
    Scalar::from_bits(x.to_bits())
}

fn number(x: &Scalar) -> f64 {
    f64::from_bits(x.bits)
}

fn single(x: f32) -> Single {
    Single { bits: x.to_bits() }
}

fn vector(x: f64, y: f64, z: f64) -> Vector3 {
    Vector3 { x: scalar(x), y: scalar(y), z: scalar(z) }
}

fn pose(x: f64) -> Matrix4x4 {
    let mut m = Matrix4x4::identity();
    m.r0.w = scalar(x);
    m
}

fn feature(id: usize, x: f32) -> Feature {
    Feature { feature_id: id, undistorted_coord: Coord { x: single(x), y: single(-x) } }
}

fn frame(id: usize, left: &[usize], right: &[usize]) -> Frame {
    let mut state = State::identity();
    state.T_W_B = pose(id as f64);
    state.velocity = vector(id as f64, 1.0, 2.0);
    state.accel_bias = vector(id as f64, 3.0, 4.0);
    state.gyro_bias = vector(id as f64, 5.0, 6.0);
    state.T_B_Cl = pose(100.0 + id as f64);
    state.T_B_Cr = pose(200.0 + id as f64);
    Frame {
        frame_id: id,
        is_keyframe: true,
        state,
        left_features: left.iter().map(|n| feature(*n, *n as f32)).collect(),
        right_features: right.iter().map(|n| feature(*n, 0.5 + *n as f32)).collect(),
        left_cam: CameraModelType::EUCM { fx: scalar(300.0 + id as f64) },
        imu_preintegration: None,
    }
}

fn ids(w: &SlidingWindow) -> Vec<usize> {
    (0..w.len()).map(|k| w.get_frame(k).unwrap().frame_id).collect()
}

#[test]
fn a_new_window_is_empty() {
    let w = SlidingWindow::new(3);
    assert!(w.is_empty());
    assert!(!w.is_full());
    assert_eq!(w.len(), 0);
    assert!(w.get_frame(0).is_none());
    assert!(w.map_points.is_empty());
    assert!(!w.initialized);
}

#[test]
fn the_default_window_has_room_for_sixteen() {
    let mut w = SlidingWindow::default();
    for id in 0..16 {
        assert!(!w.is_full());
        assert!(w.add_frame(frame(id, &[], &[])));
    }
    assert!(w.is_full());
    assert!(w.add_frame(frame(16, &[], &[])));
    assert_eq!(ids(&w), (1..17).collect::<Vec<usize>>());
}

#[test]
fn only_keyframes_are_added() {
    let mut w = SlidingWindow::new(2);
    let mut f = frame(1, &[], &[]);
    f.is_keyframe = false;
    assert!(!w.add_frame(f));
    assert!(w.is_empty());
}

#[test]
fn a_full_window_loses_the_keyframe_with_the_least_identifier() {
    let mut w = SlidingWindow::new(3);
    for id in [5usize, 3, 9].iter() {
        assert!(w.add_frame(frame(*id, &[], &[])));
    }
    assert!(w.add_frame(frame(7, &[], &[])));
    assert_eq!(ids(&w), vec![5, 9, 7]);
    assert!(w.add_frame(frame(1, &[], &[])));
    assert_eq!(ids(&w), vec![9, 7, 1]);
}

#[test]
fn keyframes_with_increasing_identifiers_leave_in_order() {
    let mut w = SlidingWindow::new(4);
    for id in 10..30 {
        w.add_frame(frame(id, &[], &[]));
        assert!(w.len() <= 4);
    }
    assert_eq!(ids(&w), vec![26, 27, 28, 29]);
}

#[test]
fn the_window_fills_up_whatever_the_identifiers() {
    let mut w = SlidingWindow::new(3);
    for (k, id) in [9usize, 2, 7, 2, 8].iter().enumerate() {
        w.add_frame(frame(*id, &[], &[]));
        assert_eq!(w.len(), if k < 3 { k + 1 } else { 3 });
    }
}

#[test]
fn the_latest_stay_as_long_as_the_first_is_the_oldest() {
    let mut w = SlidingWindow::new(3);
    for id in [1usize, 5, 4, 6].iter() {
        w.add_frame(frame(*id, &[], &[]));
    }
    assert_eq!(ids(&w), vec![5, 4, 6]);
    w.add_frame(frame(7, &[], &[]));
    assert_eq!(ids(&w), vec![5, 6, 7]);
}

#[test]
fn windows_and_frames_can_be_printed() {
    let mut w = SlidingWindow::new(1);
    w.add_frame(frame(42, &[], &[]));
    assert!(format!("{:?}", w).contains("frame_id: 42"));
}

#[test]
fn a_window_without_room_keeps_the_last_keyframe() {
    let mut w = SlidingWindow::new(0);
    assert!(w.is_full());
    w.add_frame(frame(1, &[], &[]));
    w.add_frame(frame(2, &[], &[]));
    assert_eq!(ids(&w), vec![2]);
}

#[test]
fn keyframe_values_are_listed_in_order() {
    let mut w = SlidingWindow::new(5);
    w.add_frame(frame(4, &[], &[]));
    w.add_frame(frame(6, &[], &[]));
    w.map_points.insert(1, MapPoint { x: single(1.0), y: single(2.0), z: single(3.0) });
    assert_eq!(w.get_keyframe_poses(), vec![pose(4.0), pose(6.0)]);
    assert_eq!(w.get_keyframe_velocities()[1], vector(6.0, 1.0, 2.0));
    assert_eq!(w.get_keyframe_accel_bias()[0], vector(4.0, 3.0, 4.0));
    assert_eq!(w.get_keyframe_gyro_bias()[1], vector(6.0, 5.0, 6.0));
    w.clear();
    assert!(w.is_empty());
    assert_eq!(w.map_points.len(), 1);
}

#[test]
fn windows_that_are_not_full_are_not_optimized() {
    let mut w = SlidingWindow::new(2);
    assert_eq!(w.check_sliding_window_size_for_optimization(), Err(WindowError::Empty));
    assert!(matches!(w.optimize(), Err(WindowError::Empty)));
    assert_eq!(WindowError::Empty.message(), "Window is empty");
    w.add_frame(frame(0, &[], &[]));
    assert_eq!(
        w.check_sliding_window_size_for_optimization(),
        Err(WindowError::NeedMoreKeyframes)
    );
    assert!(matches!(w.optimize(), Err(WindowError::NeedMoreKeyframes)));
    assert_eq!(WindowError::NeedMoreKeyframes.message(), "Need more keyframes");
    w.add_frame(frame(1, &[], &[]));
    assert_eq!(w.check_sliding_window_size_for_optimization(), Ok(true));
    assert!(matches!(w.optimize(), Ok(None)));
    assert!(matches!(SlidingWindow::new(0).optimize(), Err(WindowError::Empty)));
}

/// Two keyframes. Features 1, 2 and 3 are seen by both cameras, 4 and 5 by one.
fn stereo_window() -> SlidingWindow {
    let mut w = SlidingWindow::new(2);
    w.add_frame(frame(7, &[1, 2, 4], &[2, 1, 3]));
    w.add_frame(frame(8, &[1, 3, 2], &[5, 1, 2, 3]));
    w.map_points.insert(2, MapPoint { x: single(9.0), y: single(8.0), z: single(7.0) });
    w
}

#[test]
fn the_graph_has_the_landmarks_that_both_cameras_saw() {
    let start = stereo_window().optimize().unwrap().unwrap();
    let names: Vec<VarName> = start.problem.variables.iter().map(|v| v.name).collect();
    assert_eq!(names.len(), 7);
    for name in [
        VarName::Pose(0),
        VarName::Pose(1),
        VarName::VelocityBias(0),
        VarName::VelocityBias(1),
        VarName::Landmark(1),
        VarName::Landmark(2),
        VarName::Landmark(3),
    ]
    .iter()
    {
        assert!(names.contains(name));
    }
    let initial = |name: VarName| {
        start.problem.variables.iter().find(|v| v.name == name).unwrap().initial
    };
    assert_eq!(initial(VarName::Pose(1)), InitialValue::Pose { T_W_B: pose(8.0) });
    assert_eq!(
        initial(VarName::VelocityBias(0)),
        InitialValue::VelocityBias {
            velocity: vector(7.0, 1.0, 2.0),
            accel_bias: vector(7.0, 3.0, 4.0),
            gyro_bias: vector(7.0, 5.0, 6.0),
        }
    );
    assert_eq!(
        initial(VarName::Landmark(2)),
        InitialValue::Known {
            point: MapPoint { x: single(9.0), y: single(8.0), z: single(7.0) }
        }
    );
    assert_eq!(
        initial(VarName::Landmark(3)),
        InitialValue::Seen {
            T_W_B: pose(7.0),
            camera: Camera::Right,
            coord: feature(3, 3.5).undistorted_coord,
            depth: scalar(2.0),
        }
    );
    assert_eq!(initial(VarName::Pose(0)).manifold(), ManifoldType::SE3);
    assert_eq!(initial(VarName::Landmark(3)).manifold(), ManifoldType::RN);
    assert_eq!(initial(VarName::VelocityBias(0)).manifold(), ManifoldType::RN);
    assert_eq!(start.problem.T_B_Cl, pose(107.0));
    assert_eq!(start.problem.T_B_Cr, pose(207.0));
    assert_eq!(start.problem.focal_length, scalar(307.0));
    assert_eq!(start.saved.poses, vec![pose(7.0), pose(8.0)]);
    assert_eq!(start.saved.map_points.len(), 1);
}

#[test]
fn blocks_come_frame_by_frame_with_the_first_pose_fixed() {
    let start = stereo_window().optimize().unwrap().unwrap();
    let seen: Vec<(usize, Camera, usize, bool)> = start
        .problem
        .blocks
        .iter()
        .map(|b| match b {
            Block::Reprojection { frame, camera, landmark, fixed_pose, .. } => {
                assert_eq!(b.loss_width(), scalar(2.0));
                (*frame, *camera, *landmark, *fixed_pose == Some(pose(7.0)))
            }
            Block::Imu { .. } => panic!("the window is not initialized"),
        })
        .collect();
    let (l, r) = (Camera::Left, Camera::Right);
    assert_eq!(
        seen,
        vec![
            (0, l, 1, true),
            (0, l, 2, true),
            (0, r, 2, true),
            (0, r, 1, true),
            (0, r, 3, true),
            (1, l, 1, false),
            (1, l, 3, false),
            (1, l, 2, false),
            (1, r, 1, false),
            (1, r, 2, false),
            (1, r, 3, false),
        ]
    );
    let blocks = &start.problem.blocks;
    assert_eq!(blocks[0].variables(), vec![VarName::Landmark(1)]);
    assert_eq!(blocks[6].variables(), vec![VarName::Landmark(3), VarName::Pose(1)]);
}

#[test]
fn measurements_count_once_the_window_is_initialized() {
    let mut w = SlidingWindow::new(2);
    let mut first = frame(7, &[1, 2, 3], &[1, 2, 3]);
    first.imu_preintegration = Some(PreInt::identity());
    let mut second = frame(8, &[1, 2, 3], &[1, 2, 3]);
    second.imu_preintegration = Some(PreInt::identity());
    w.add_frame(first);
    w.add_frame(second);
    w.initialized = true;
    let start = w.optimize().unwrap().unwrap();
    let imu: Vec<&Block> =
        start.problem.blocks.iter().filter(|b| matches!(b, Block::Imu { .. })).collect();
    assert_eq!(
        imu,
        vec![&Block::Imu {
            frame: 1,
            bias_a: vector(8.0, 3.0, 4.0),
            bias_g: vector(8.0, 5.0, 6.0),
        }]
    );
    assert_eq!(imu[0].loss_width(), scalar(3.0));
    assert_eq!(
        imu[0].variables(),
        vec![
            VarName::Pose(0),
            VarName::VelocityBias(0),
            VarName::Pose(1),
            VarName::VelocityBias(1)
        ]
    );
    assert_eq!(start.problem.blocks.len(), 13);
    w.initialized = false;
    assert_eq!(w.optimize().unwrap().unwrap().problem.blocks.len(), 12);
}

#[test]
fn graphs_with_too_few_blocks_are_skipped() {
    let mut five = SlidingWindow::new(1);
    five.add_frame(frame(0, &[1, 2], &[1, 2, 1]));
    assert!(five.optimize().unwrap().is_none());
    let mut six = SlidingWindow::new(1);
    six.add_frame(frame(0, &[1, 2, 2], &[1, 2, 1]));
    assert!(six.optimize().unwrap().is_some());
    let mut under = SlidingWindow::new(3);
    under.add_frame(frame(0, &[1], &[1]));
    under.add_frame(frame(1, &[1], &[1]));
    under.add_frame(frame(2, &[1], &[1]));
    assert!(under.optimize().unwrap().is_none());
    let mut enough = SlidingWindow::new(3);
    enough.add_frame(frame(0, &[1], &[1]));
    enough.add_frame(frame(1, &[1], &[1]));
    enough.add_frame(frame(2, &[1, 1], &[1]));
    assert!(enough.optimize().unwrap().is_some());
}

fn point(x: f32) -> SolvedValue {
    SolvedValue::Rn {
        vector: vec![scalar(x as f64), scalar(0.0), scalar(0.0)],
        single: vec![single(x), single(x + 1.0), single(x + 2.0)],
    }
}

fn motion(from: f64) -> SolvedValue {
    SolvedValue::Rn {
        vector: (0..9).map(|k| scalar(from + k as f64)).collect(),
        single: (0..9).map(|k| single((from + k as f64) as f32)).collect(),
    }
}

fn parameter(name: &str, value: SolvedValue) -> Parameter {
    Parameter { name: name.to_string(), value }
}

fn parameters() -> Vec<Parameter> {
    vec![
        parameter("LM_3", point(30.0)),
        parameter("vb_1", motion(100.0)),
        parameter("KF_0", SolvedValue::Se3 { T_W_B: pose(-1.0) }),
        parameter("LM_1", point(10.0)),
        parameter("KF_1", SolvedValue::Se3 { T_W_B: pose(-2.0) }),
        parameter("vb_0", motion(200.0)),
        parameter("LM_x", point(50.0)),
        parameter("other", point(60.0)),
    ]
}

fn check_solved(w: &SlidingWindow) {
    assert_eq!(w.get_keyframe_poses(), vec![pose(-1.0), pose(-2.0)]);
    assert_eq!(w.get_keyframe_velocities()[0], vector(200.0, 201.0, 202.0));
    assert_eq!(w.get_keyframe_accel_bias()[1], vector(103.0, 104.0, 105.0));
    assert_eq!(w.get_keyframe_gyro_bias()[1], vector(106.0, 107.0, 108.0));
    assert_eq!(w.map_points.len(), 2);
    assert_eq!(w.map_points[&3], MapPoint { x: single(30.0), y: single(31.0), z: single(32.0) });
    assert_eq!(w.map_points[&1].y, single(11.0));
    assert_eq!(w.get_frame(0).unwrap().left_features.len(), 3);
    assert_eq!(w.get_frame(0).unwrap().state.T_B_Cl, pose(107.0));
}

#[test]
fn solutions_are_taken_over_in_any_order() {
    let mut w = stereo_window();
    let start = w.optimize().unwrap().unwrap();
    let mut reversed = parameters();
    reversed.reverse();
    for list in vec![parameters(), reversed] {
        assert!(parameters_fit(&list, w.len()));
        let outcome = Ok(Solution {
            status: OptimizationStatus::MaxIterationsReached,
            parameters: list,
        });
        let verdict = w.finish_optimization(Run::First, &start.saved, &outcome);
        assert!(matches!(verdict, Verdict::Done(true)));
        check_solved(&w);
    }
}

#[test]
fn parameters_of_another_window_do_not_fit() {
    let se3 = || SolvedValue::Se3 { T_W_B: pose(0.0) };
    assert!(parameters_fit(&vec![parameter("KF_1", se3())], 2));
    assert!(!parameters_fit(&vec![parameter("KF_2", se3())], 2));
    assert!(!parameters_fit(&vec![parameter("KF_-1", se3())], 2));
    assert!(!parameters_fit(&vec![parameter("KF_1", point(0.0))], 2));
    assert!(!parameters_fit(&vec![parameter("vb_0", point(0.0))], 2));
    assert!(!parameters_fit(&vec![parameter("vb_2", motion(0.0))], 2));
    assert!(!parameters_fit(&vec![parameter("LM_0", se3())], 2));
    assert!(parameters_fit(&vec![parameter("LM_0", point(0.0))], 0));
    assert!(parameters_fit(&vec![parameter("KF_", se3())], 0));
}

fn unchanged(w: &SlidingWindow) {
    assert_eq!(w.get_keyframe_poses(), vec![pose(7.0), pose(8.0)]);
    assert_eq!(w.map_points.len(), 1);
    assert_eq!(w.map_points[&2].x, single(9.0));
}

#[test]
fn failed_optimizations_leave_the_window_as_it_was() {
    let mut w = stereo_window();
    let start = w.optimize().unwrap().unwrap();
    let singular: Result<Solution, String> = Err("LinearSolveFailed(..)".to_string());
    match w.finish_optimization(Run::First, &start.saved, &singular) {
        Verdict::Retry(c) => {
            assert!(matches!(c.linear_solver, LinearSolverType::SparseCholesky));
            assert_eq!(c.max_iterations, 20);
            assert!(c.schur.is_none());
        }
        Verdict::Done(_) => panic!("a fallback is tried"),
    }
    unchanged(&w);
    let verdict = w.finish_optimization(Run::Fallback, &start.saved, &singular);
    assert!(matches!(verdict, Verdict::Done(false)));
    unchanged(&w);
    let broken: Result<Solution, String> = Err("InvalidDamping".to_string());
    let verdict = w.finish_optimization(Run::First, &start.saved, &broken);
    assert!(matches!(verdict, Verdict::Done(false)));
    unchanged(&w);
    let timeout =
        Ok(Solution { status: OptimizationStatus::Timeout, parameters: parameters() });
    let verdict = w.finish_optimization(Run::First, &start.saved, &timeout);
    assert!(matches!(verdict, Verdict::Done(false)));
    unchanged(&w);
}

#[test]
fn saved_poses_come_back_as_far_as_there_are_some() {
    let mut w = stereo_window();
    let start = w.optimize().unwrap().unwrap();
    w.process_optimization_result(&parameters());
    w.revert_to_saved_state(&start.saved);
    unchanged(&w);
    w.clear();
    w.add_frame(frame(20, &[], &[]));
    w.revert_to_saved_state(&start.saved);
    assert_eq!(w.get_keyframe_poses(), vec![pose(7.0)]);
}

#[test]
fn the_first_run_uses_the_schur_complement() {
    let c = SlidingWindow::new(1).build_solver_config();
    assert!(matches!(c.linear_solver, LinearSolverType::SparseSchurComplement));
    assert!(matches!(
        c.schur,
        Some((SchurVariant::Sparse, SchurPreconditioner::BlockDiagonal))
    ));
    assert_eq!(c.max_iterations, 20);
    assert_eq!(number(&c.cost_tolerance), 1e-6);
    assert_eq!(number(&c.parameter_tolerance), 1e-9);
    assert!(!c.jacobi_scaling);
    assert_eq!(SolverConfig::cholesky(10).max_iterations, 10);
}

#[test]
fn linear_failures_are_recognized() {
    assert!(is_linear_failure("Err(LinearSolveFailed(\"x\"))"));
    assert!(is_linear_failure("Singular matrix"));
    assert!(is_linear_failure("a Singular matrix detected"));
    assert!(!is_linear_failure("singular matrix"));
    assert!(!is_linear_failure("LinearSolve Failed"));
    assert!(!is_linear_failure(""));
}

#[test]
fn the_end_of_a_run_is_put_in_words() {
    assert_eq!(
        convergence(&OptimizationStatus::CostToleranceReached),
        (true, "CostTolerance".to_string())
    );
    assert_eq!(
        convergence(&OptimizationStatus::MaxIterationsReached),
        (false, "MaxIterations".to_string())
    );
    assert_eq!(
        convergence(&OptimizationStatus::Failed("why".to_string())),
        (false, "Failed:why".to_string())
    );
}

#[test]
fn tracking_uses_the_points_of_the_map() {
    let w = stereo_window();
    let t = w.track_motion(&frame(30, &[2, 9, 2], &[1, 2]));
    assert_eq!(t.T_W_B, pose(8.0));
    assert_eq!(t.T_B_Cl, pose(107.0));
    assert_eq!(t.T_B_Cr, pose(207.0));
    assert_eq!(t.config.max_iterations, 10);
    assert!(matches!(t.config.linear_solver, LinearSolverType::SparseCholesky));
    assert_eq!(t.loss_width, scalar(2.0));
    let cameras: Vec<Camera> = t.blocks.iter().map(|b| b.camera).collect();
    assert_eq!(cameras, vec![Camera::Left, Camera::Left, Camera::Right]);
    assert_eq!(t.blocks[2].coord, feature(2, 2.5).undistorted_coord);
    assert_eq!(t.blocks[0].point.z, single(7.0));
    assert!(w.track_motion(&frame(31, &[8], &[9])).blocks.is_empty());
}

#[test]
fn the_tracked_pose_is_that_of_the_new_frame() {
    let outcome_of = |status: OptimizationStatus, list: Vec<Parameter>| {
        SlidingWindow::finish_tracking(&Ok(Solution { status, parameters: list }))
    };
    let f = || vec![
        parameter("KF_0", SolvedValue::Se3 { T_W_B: pose(1.0) }),
        parameter("F", SolvedValue::Se3 { T_W_B: pose(2.0) }),
    ];
    assert_eq!(outcome_of(OptimizationStatus::Converged, f()), Some(pose(2.0)));
    assert_eq!(outcome_of(OptimizationStatus::MaxIterationsReached, f()), Some(pose(2.0)));
    assert_eq!(outcome_of(OptimizationStatus::NumericalFailure, f()), None);
    assert_eq!(outcome_of(OptimizationStatus::Converged, Vec::new()), None);
    assert_eq!(SlidingWindow::finish_tracking(&Err("no".to_string())), None);
}

fn measured_frame(id: usize) -> Frame {
    let mut f = frame(id, &[], &[]);
    let mut p = PreInt::identity_in(Layout::tangent());
    let block = Matrix3x3::new(
        scalar(id as f64),
        scalar(2.0),
        scalar(3.0),
        scalar(4.0),
        scalar(5.0),
        scalar(6.0),
        scalar(7.0),
        scalar(8.0),
        scalar(9.0),
    );
    p.jacobian.set_block3(p.idx_r, p.idx_bg, &block);
    p.dt = scalar(id as f64 / 10.0);
    p.delta_p = vector(id as f64, 0.0, 0.0);
    p.delta_v = vector(0.0, id as f64, 0.0);
    f.imu_preintegration = Some(p);
    f
}

#[test]
fn pairs_of_keyframes_give_their_terms() {
    let mut w = SlidingWindow::new(3);
    w.add_frame(frame(1, &[], &[]));
    w.add_frame(measured_frame(2));
    w.add_frame(measured_frame(3));
    assert!(w.is_measured());
    let g = w.gyroscope_terms();
    assert_eq!(g.len(), 2);
    assert_eq!(g[0].jacobian, Matrix3x3::identity());
    assert_eq!(g[0].T_W_B_i, pose(1.0));
    assert_eq!(g[1].T_W_B_j, pose(3.0));
    assert_eq!(g[1].jacobian.r0, vector(3.0, 2.0, 3.0));
    let a = w.alignment_terms();
    assert_eq!(a.len(), 2);
    assert_eq!(number(&a[0].dt), 0.2);
    assert_eq!(a[1].dp, vector(3.0, 0.0, 0.0));
    assert_eq!(a[1].dv, vector(0.0, 3.0, 0.0));
    w.add_frame(frame(4, &[], &[]));
    assert!(!w.is_measured());
    assert!(SlidingWindow::new(1).is_measured());
    assert!(SlidingWindow::new(1).gyroscope_terms().is_empty());
}

#[test]
fn biases_go_to_the_keyframes_with_measurements() {
    let mut w = SlidingWindow::new(2);
    w.add_frame(frame(1, &[], &[]));
    w.add_frame(measured_frame(2));
    let biases = vec![vector(1.0, 1.0, 1.0), vector(2.0, 2.0, 2.0)];
    let mut again = PreInt::identity();
    again.dt = scalar(0.75);
    let given = w.solve_gyroscope_bias(biases.clone(), vec![None, Some(again)]);
    assert_eq!(given, biases);
    assert_eq!(w.get_keyframe_gyro_bias(), vec![vector(1.0, 5.0, 6.0), vector(2.0, 2.0, 2.0)]);
    assert_eq!(w.get_keyframe_accel_bias()[1], vector(2.0, 3.0, 4.0));
    assert!(w.get_frame(0).unwrap().imu_preintegration.is_none());
    assert_eq!(
        w.get_frame(1).unwrap().imu_preintegration.as_ref().map(|p| number(&p.dt)),
        Some(0.75)
    );
}

#[test]
fn keyframes_keep_a_measurement_that_was_not_integrated_again() {
    let mut w = SlidingWindow::new(1);
    w.add_frame(measured_frame(2));
    w.solve_gyroscope_bias(vec![vector(2.0, 2.0, 2.0)], vec![None]);
    let f = w.get_frame(0).unwrap();
    assert_eq!(f.imu_preintegration.as_ref().map(|p| number(&p.dt)), Some(0.2));
    assert_eq!(f.state.gyro_bias, vector(2.0, 2.0, 2.0));
}

#[test]
fn map_and_flag_are_set() {
    let mut w = stereo_window();
    w.set_initialized(true);
    assert!(w.initialized);
    w.set_map_points(std::collections::HashMap::new());
    assert!(w.map_points.is_empty());
    assert_eq!(w.len(), 2);
}

#[test]
fn keyframes_with_one_identifier_leave_in_order() {
    let mut w = SlidingWindow::new(2);
    for x in 0..4 {
        let mut f = frame(7, &[], &[]);
        f.state.T_W_B = pose(x as f64);
        w.add_frame(f);
    }
    assert_eq!(w.get_keyframe_poses(), vec![pose(2.0), pose(3.0)]);
}

#[test]
fn unknowns_are_counted_pair_by_pair() {
    let u = Unknowns { frames: 4, gravity: 3 };
    assert_eq!(u.total(), 16);
    assert_eq!(u.local(), 10);
    let second: Vec<usize> = (0..10).map(|l| u.index(1, l)).collect();
    assert_eq!(second, vec![3, 4, 5, 6, 7, 8, 12, 13, 14, 15]);
    assert_eq!(u.index(0, 5), u.index(1, 2));
    assert_eq!(u.gravity_index(), 12);
    assert_eq!(u.scale_index(), 15);
    let refined = Unknowns { frames: 4, gravity: 2 };
    assert_eq!(refined.total(), 15);
    assert_eq!(refined.gravity_index(), 12);
    assert_eq!(refined.scale_index(), 14);
}

#[test]
fn indices_place_entries_as_blocks_do() {
    for gravity in [2usize, 3].iter() {
        let u = Unknowns { frames: 5, gravity: *gravity };
        let (n, m, tail) = (u.total(), u.local(), gravity + 1);
        let r = na::DMatrix::<f64>::from_fn(m, m, |i, j| (1 + i * m + j) as f64);
        let mut by_index = na::DMatrix::<f64>::zeros(n, n);
        let mut by_block = na::DMatrix::<f64>::zeros(n, n);
        for i in 0..4 {
            for p in 0..m {
                for q in 0..m {
                    by_index[(u.index(i, p), u.index(i, q))] += r[(p, q)];
                }
            }
            let k = 3 * i;
            let mut top = by_block.view_mut((k, k), (6, 6));
            top += r.view((0, 0), (6, 6));
            let mut corner = by_block.view_mut((n - tail, n - tail), (tail, tail));
            corner += r.view((m - tail, m - tail), (tail, tail));
            let mut side = by_block.view_mut((k, n - tail), (6, tail));
            side += r.view((0, m - tail), (6, tail));
            let mut below = by_block.view_mut((n - tail, k), (tail, 6));
            below += r.view((m - tail, 0), (tail, 6));
        }
        assert_eq!(by_index, by_block);
    }
}

#[test]
fn equations_of_a_pair_are_made_of_blocks() {
    let b = |k: f64| {
        Matrix3x3::new(
            scalar(k),
            scalar(0.0),
            scalar(0.0),
            scalar(0.0),
            scalar(k),
            scalar(0.0),
            scalar(0.0),
            scalar(0.0),
            scalar(k),
        )
    };
    let columns = |k: f64, n: usize| -> Vec<Vector3> {
        (0..n).map(|c| vector(k + c as f64, 0.5, 0.25)).collect()
    };
    for n in [2usize, 3].iter() {
        let m = alignment_rows(
            &b(-0.1),
            &b(7.0),
            &columns(20.0, *n),
            &columns(30.0, *n),
            &vector(41.0, 42.0, 43.0),
        );
        assert_eq!((m.nrows(), m.ncols()), (6, 7 + n));
        assert_eq!(m.block3(0, 0), b(-0.1));
        assert_eq!(m.block3(0, 3), Matrix3x3::zeros());
        assert_eq!(m.block3(3, 0), Matrix3x3::identity().neg());
        assert_eq!(m.block3(3, 3), b(7.0));
        assert_eq!(number(&m.get(0, 7)), 21.0);
        assert_eq!(number(&m.get(3, 6)), 30.0);
        assert_eq!(number(&m.get(5, 7)), 0.25);
        assert_eq!(number(&m.get(2, 6 + n)), 43.0);
        assert_eq!(m.get(3, 6 + n), Scalar::zero());
    }
}

#[test]
fn alignments_without_motion_are_rejected() {
    let check = |gap: f64, s: f64| check_alignment(&scalar(gap), &scalar(s));
    assert_eq!(check(0.1, 1.0), Ok(()));
    assert_eq!(check(0.05, 0.0), Ok(()));
    assert_eq!(check(0.05, -0.0), Ok(()));
    assert_eq!(check(0.10000000000000002, 1.0), Err(AlignmentError::NeedMoreMotion));
    assert_eq!(check(0.0, -1e-300), Err(AlignmentError::NeedMoreMotion));
    assert_eq!(
        AlignmentError::NeedMoreMotion.message(),
        "Linear alignment result is invalid. Need more motion"
    );
    assert_eq!(prior_gravity(), vector(0.0, 0.0, -9.81));
    let g = vector(1.0, 2.0, 3.0);
    let solve = |gap: f64, s: f64| {
        SlidingWindow::solve_linear_alignment(&scalar(gap), &scalar(s), &g)
    };
    assert_eq!(solve(0.01, 2.0), Ok((g, scalar(2.0))));
    assert_eq!(solve(0.2, 2.0), Err(AlignmentError::NeedMoreMotion));
}

#[test]
fn the_seed_is_never_the_axis_itself() {
    assert_eq!(tangent_seed(&vector(0.0, 0.0, 1.0)), vector(1.0, 0.0, 0.0));
    assert_eq!(tangent_seed(&vector(-0.0, 0.0, 1.0)), vector(1.0, 0.0, 0.0));
    assert_eq!(tangent_seed(&vector(0.0, 0.0, -1.0)), vector(0.0, 0.0, 1.0));
    assert_eq!(tangent_seed(&vector(0.6, 0.0, 0.8)), vector(0.0, 0.0, 1.0));
}
