#![allow(non_snake_case)]
//! A window is optimized and a frame located in it: the solver runs on the graphs
//! that the library gives.
use apex_solver::factors::Factor;
use apex_solver::manifold::{se3, so3, LieGroup, ManifoldType, Tangent};
use apex_solver::optimizer::levenberg_marquardt::{LevenbergMarquardt, LevenbergMarquardtConfig};
use nalgebra as na;
use nalgebra::{DMatrix, DVector};
use std::collections::HashMap;
use vio_backend::datasets::CameraModelType;
use vio_backend::estimator::frame::{Coord, Feature, Frame};
use vio_backend::estimator::problem::{Block, Camera, InitialValue};
use vio_backend::estimator::sliding_window::{Run, SlidingWindow, Verdict};
use vio_backend::estimator::solution::{parameters_fit, Parameter, Solution, SolvedValue};
use vio_backend::estimator::state::State;
use vio_backend::imu::factors::is_small_angle;
use vio_backend::imu::piecewise_integration::PreInt;
use vio_backend::linalg::{Matrix, Matrix3x3, Matrix4x4, Vector2, Vector3};
use vio_backend::optimization::factors::{
    projection_jacobian, skew_symmetric, BodyPose, BundleAdjustmentFactor, ImuFactor,
    ImuResiduals, ImuTerms, Matrix2x3, PnPFactor, Pose,
};
use vio_backend::optimization::names::VarName;
use vio_backend::optimization::solver::SolverConfig;
use vio_backend::scalar::{Scalar, Single};

type Problem = apex_solver::core::problem::Problem;
type VariableEnum = apex_solver::core::problem::VariableEnum;
type HuberLoss = apex_solver::core::loss_functions::HuberLoss;
type Linearization = (DVector<f64>, Option<DMatrix<f64>>);
type Values = HashMap<String, (ManifoldType, DVector<f64>)>;

fn scalar(x: f64) -> Scalar {
    Scalar::from_bits(x.to_bits())
}

fn number(x: &Scalar) -> f64 {
    f64::from_bits(x.bits)
}

fn lib2(v: &na::Vector2<f64>) -> Vector2 {
    Vector2 { x: scalar(v.x), y: scalar(v.y) }
}

fn na2(v: &Vector2) -> na::Vector2<f64> {
    na::Vector2::new(number(&v.x), number(&v.y))
}

fn lib3(v: &na::Vector3<f64>) -> Vector3 {
    Vector3 { x: scalar(v.x), y: scalar(v.y), z: scalar(v.z) }
}

fn na3(v: &Vector3) -> na::Vector3<f64> {
    na::Vector3::new(number(&v.x), number(&v.y), number(&v.z))
}

fn lib4(m: &na::Matrix4<f64>) -> Matrix4x4 {
    let mut rows: Vec<Scalar> = Vec::new();
    for i in 0..4 {
        for j in 0..4 {
            rows.push(scalar(m[(i, j)]));
        }
    }
    Matrix4x4::from_row_slice(&rows)
}

fn na4(m: &Matrix4x4) -> na::Matrix4<f64> {
    let mut all: Vec<f64> = Vec::new();
    for r in [&m.r0, &m.r1, &m.r2, &m.r3].iter() {
        all.extend([number(&r.x), number(&r.y), number(&r.z), number(&r.w)].iter());
    }
    na::Matrix4::from_row_slice(&all)
}

fn lib23(m: &na::Matrix2x3<f64>) -> Matrix2x3 {
    Matrix2x3 {
        r0: Vector3 { x: scalar(m[(0, 0)]), y: scalar(m[(0, 1)]), z: scalar(m[(0, 2)]) },
        r1: Vector3 { x: scalar(m[(1, 0)]), y: scalar(m[(1, 1)]), z: scalar(m[(1, 2)]) },
    }
}

fn na23(m: &Matrix2x3) -> na::Matrix2x3<f64> {
    na::Matrix2x3::from_rows(&[na3(&m.r0).transpose(), na3(&m.r1).transpose()])
}

fn skew(v: &na::Vector3<f64>) -> na::Matrix3<f64> {
    let m = skew_symmetric(&lib3(v));
    na::Matrix3::from_rows(&[na3(&m.r0).transpose(), na3(&m.r1).transpose(), na3(&m.r2).transpose()])
}

fn given(params: &[DVector<f64>]) -> Vec<Vec<Scalar>> {
    params.iter().map(|p| p.iter().map(|x| scalar(*x)).collect()).collect()
}

fn dense(m: &Matrix) -> DMatrix<f64> {
    DMatrix::from_fn(m.nrows(), m.ncols(), |i, j| number(&m.get(i, j)))
}

fn linearization(r: (Vec<Scalar>, Option<Matrix>)) -> Linearization {
    (DVector::from_fn(r.0.len(), |i, _| number(&r.0[i])), r.1.map(|m| dense(&m)))
}

fn project(p: &na::Vector3<f64>, seen: &na::Vector2<f64>) -> (na::Vector2<f64>, na::Matrix2x3<f64>) {
    let inv_z = 1.0 / p.z;
    let j = projection_jacobian(
        scalar(inv_z),
        scalar(-p.x * inv_z * inv_z),
        scalar(-p.y * inv_z * inv_z),
    );
    (na::Vector2::new(p.x / p.z, p.y / p.z) - seen, na23(&j))
}

fn miss(p: &na::Vector3<f64>, seen: &na::Vector2<f64>) -> (na::Vector2<f64>, na::Matrix2x3<f64>) {
    let (r, j) = project(p, seen);
    (-r, -j)
}

fn split(T: &na::Matrix4<f64>) -> (na::Matrix3<f64>, na::Vector3<f64>) {
    (T.fixed_view::<3, 3>(0, 0).into_owned(), T.fixed_view::<3, 1>(0, 3).into_owned())
}

fn split_pose(p: &Pose) -> (na::Matrix3<f64>, na::Vector3<f64>) {
    let T = se3::SE3::from(DVector::from_vec(vec![
        number(&p.translation.x),
        number(&p.translation.y),
        number(&p.translation.z),
        number(&p.rotation.w),
        number(&p.rotation.i),
        number(&p.rotation.j),
        number(&p.rotation.k),
    ]));
    (T.rotation_so3().rotation_matrix(), T.translation())
}

struct Full(BundleAdjustmentFactor);

impl Factor for Full {
    fn linearize(&self, params: &[DVector<f64>], compute_jacobian: bool) -> Linearization {
        let (p_W, pose) = self.0.unpack(&given(params)).unwrap();
        let p_W = na3(&p_W);
        let (R_B_W, t_B_W) = match &pose {
            BodyPose::Fixed(T) => split(&na4(T)),
            BodyPose::Variable(p) => split_pose(p),
        };
        let (R, t) = split(&na4(&self.0.T_C_B));
        let p_C = R * (R_B_W * p_W + t_B_W) + t;
        let (r, j) = miss(&p_C, &na2(&self.0.observation));
        linearization(self.0.linearize(
            &scalar(p_C.z),
            &lib2(&r),
            &lib23(&(j * R * R_B_W)),
            &lib23(&(j * R * (-R_B_W * skew(&p_W)))),
            compute_jacobian,
        ))
    }

    fn get_dimension(&self) -> usize {
        self.0.get_dimension()
    }
}

fn lib33(m: &na::Matrix3<f64>) -> Matrix3x3 {
    Matrix3x3::new(
        scalar(m[(0, 0)]),
        scalar(m[(0, 1)]),
        scalar(m[(0, 2)]),
        scalar(m[(1, 0)]),
        scalar(m[(1, 1)]),
        scalar(m[(1, 2)]),
        scalar(m[(2, 0)]),
        scalar(m[(2, 1)]),
        scalar(m[(2, 2)]),
    )
}

fn na33(m: &Matrix3x3) -> na::Matrix3<f64> {
    na::Matrix3::from_rows(&[na3(&m.r0).transpose(), na3(&m.r1).transpose(), na3(&m.r2).transpose()])
}

fn pose_parameters(p: &Pose) -> DVector<f64> {
    DVector::from_vec(vec![
        number(&p.translation.x),
        number(&p.translation.y),
        number(&p.translation.z),
        number(&p.rotation.w),
        number(&p.rotation.i),
        number(&p.rotation.j),
        number(&p.rotation.k),
    ])
}

fn right_jacobian_so3(phi: &na::Vector3<f64>) -> na::Matrix3<f64> {
    let a = phi.norm();
    let h = skew(phi);
    if is_small_angle(&scalar(a)) {
        na::Matrix3::identity() - 0.5 * h + (1.0 / 12.0) * (h * h)
    } else {
        na::Matrix3::identity() - ((1.0 - a.cos()) / (a * a)) * h
            + ((a - a.sin()) / (a * a * a)) * (h * h)
    }
}

fn right_jacobian_inv(phi: &na::Vector3<f64>) -> na::Matrix3<f64> {
    let a = phi.norm();
    let h = skew(phi);
    if is_small_angle(&scalar(a)) {
        return na::Matrix3::identity() + 0.5 * h + (1.0 / 12.0) * (h * h);
    }
    let cot = (a * 0.5).cos() / (a * 0.5).sin();
    na::Matrix3::identity() + 0.5 * h + (1.0 / (a * a)) * (1.0 - 0.5 * a * cot) * (h * h)
}

fn linearize_imu(
    factor: &ImuFactor,
    params: &[DVector<f64>],
    compute_jacobian: bool,
) -> (DVector<f64>, Option<DMatrix<f64>>) {
    let preint = &factor.preint;
    assert!(preint.is_wf());
    let given: Vec<Vec<Scalar>> =
        params.iter().map(|p| p.iter().map(|x| scalar(*x)).collect()).collect();
    let x = factor.unpack(&given).unwrap();
    let b = factor.bias_jacobians();

    let T_i = se3::SE3::from(pose_parameters(&x.pose_i));
    let T_j = se3::SE3::from(pose_parameters(&x.pose_j));
    let (R_i, R_j) = (T_i.rotation_so3(), T_j.rotation_so3());
    let (v_i, v_j) = (na3(&x.v_i), na3(&x.v_j));
    let db_a = na3(&x.ba_i) - na3(&factor.linearized_bias_a);
    let db_g = na3(&x.bg_i) - na3(&factor.linearized_bias_g);
    let g = na3(&preint.gravity);
    let dt = number(&preint.dt);
    let a_v = v_j - v_i + g * dt;
    let a_p = T_j.translation() - T_i.translation() - v_i * dt + 0.5 * g * dt * dt;

    let dR_dbg = na33(&b.dR_dbg);
    let phi_b = dR_dbg * db_g;
    let q = &preint.delta_R;
    let delta_R = so3::SO3::from_quaternion(na::UnitQuaternion::new_unchecked(na::Quaternion::new(
        number(&q.w),
        number(&q.i),
        number(&q.j),
        number(&q.k),
    )));
    let corrected = delta_R.compose(&so3::SO3Tangent::new(phi_b).exp(None), None, None);
    let dv = na3(&preint.delta_v) + na33(&b.dv_dbg) * db_g + na33(&b.dv_dba) * db_a;
    let dp = na3(&preint.delta_p) + na33(&b.dp_dbg) * db_g + na33(&b.dp_dba) * db_a;
    let dR = corrected
        .inverse(None)
        .compose(&R_i.inverse(None), None, None)
        .compose(&R_j, None, None)
        .log(None);
    let Ri_inv = R_i.inverse(None).rotation_matrix();
    let residuals = ImuResiduals {
        dR: lib3(&dR.coeffs()),
        dv: lib3(&(Ri_inv * a_v - dv)),
        dp: lib3(&(Ri_inv * a_p - dp)),
        ba: lib3(&(na3(&x.ba_j) - na3(&x.ba_i))),
        bg: lib3(&(na3(&x.bg_j) - na3(&x.bg_i))),
    };
    let RiT = R_i.rotation_matrix().transpose();
    let RjT = R_j.rotation_matrix().transpose();
    let Jr_inv = right_jacobian_inv(&dR.coeffs());
    let by_bias = -Jr_inv
        * dR.exp(None).rotation_matrix().transpose()
        * right_jacobian_so3(&phi_b)
        * dR_dbg;
    let terms = ImuTerms {
        dR_dphi_i: lib33(&(-Jr_inv * (RjT * R_i.rotation_matrix()))),
        dR_dphi_j: lib33(&Jr_inv),
        dR_dbg_i: lib33(&by_bias),
        body_velocity: lib3(&(RiT * a_v)),
        body_position: lib3(&(RiT * a_p)),
        RiT: lib33(&RiT),
        neg_RiT_dt: lib33(&(-RiT * dt)),
        RiT_Rj: lib33(&(RiT * R_j.rotation_matrix())),
    };

    let (r, j) = factor.linearize(&residuals, &terms, compute_jacobian);
    let weight = DMatrix::from_fn(15, 15, |a, b| number(&preint.sqrt_info.get(a, b)));
    let r = DVector::from_fn(r.len(), |i, _| number(&r[i]));
    let j = j.map(|m| &weight * DMatrix::from_fn(m.nrows(), m.ncols(), |a, b| number(&m.get(a, b))));
    (weight * r, j)
}

struct Inertial(ImuFactor);

impl Factor for Inertial {
    fn linearize(&self, params: &[DVector<f64>], compute_jacobian: bool) -> Linearization {
        linearize_imu(&self.0, params, compute_jacobian)
    }

    fn get_dimension(&self) -> usize {
        self.0.get_dimension()
    }
}

struct Located(PnPFactor);

impl Factor for Located {
    fn linearize(&self, params: &[DVector<f64>], compute_jacobian: bool) -> Linearization {
        let pose = self.0.unpack(&given(params)).unwrap();
        let p_W = na3(&self.0.p_W);
        let (R_B_W, t_B_W) = split_pose(&pose);
        let (R, t) = split(&na4(&self.0.T_C_B));
        let (r, j) = miss(&(R * (R_B_W * p_W + t_B_W) + t), &na2(&self.0.observation));
        linearization(self.0.linearize(
            &lib2(&r),
            &lib23(&(j * R * R_B_W)),
            &lib23(&(j * R * (-R_B_W * skew(&p_W)))),
            compute_jacobian,
        ))
    }

    fn get_dimension(&self) -> usize {
        self.0.get_dimension()
    }
}

fn single(x: f64) -> Single {
    Single { bits: (x as f32).to_bits() }
}

fn widened(x: &Single) -> f64 {
    f32::from_bits(x.bits) as f64
}

fn observation(c: &Coord) -> na::Vector2<f64> {
    na::Vector2::new(widened(&c.x), widened(&c.y))
}

fn inverse_pose(T_W_B: &na::Matrix4<f64>) -> DVector<f64> {
    let (R, t) = split(&T_W_B.try_inverse().unwrap());
    let q = na::UnitQuaternion::from_matrix(&R);
    DVector::from_vec(vec![t.x, t.y, t.z, q.w, q.i, q.j, q.k])
}

fn configured(c: &SolverConfig) -> LevenbergMarquardtConfig {
    let settings = LevenbergMarquardtConfig::new()
        .with_linear_solver_type(c.linear_solver)
        .with_max_iterations(c.max_iterations)
        .with_cost_tolerance(number(&c.cost_tolerance))
        .with_parameter_tolerance(number(&c.parameter_tolerance))
        .with_jacobi_scaling(c.jacobi_scaling);
    match c.schur {
        Some((variant, preconditioner)) => {
            settings.with_schur_variant(variant).with_schur_preconditioner(preconditioner)
        }
        None => settings,
    }
}

fn solved(value: &VariableEnum) -> SolvedValue {
    let v = value.to_vector();
    match value {
        VariableEnum::SE3(_) => SolvedValue::Se3 {
            T_W_B: lib4(&se3::SE3::from(v).matrix().try_inverse().unwrap()),
        },
        _ => SolvedValue::Rn {
            vector: v.iter().map(|x| scalar(*x)).collect(),
            single: v.iter().map(|x| single(*x)).collect(),
        },
    }
}

fn solve(problem: &Problem, values: &Values, config: &SolverConfig) -> Result<Solution, String> {
    match LevenbergMarquardt::with_config(configured(config)).optimize(problem, values) {
        Ok(result) => Ok(Solution {
            parameters: result
                .parameters
                .iter()
                .map(|(name, value)| Parameter { name: name.clone(), value: solved(value) })
                .collect(),
            status: result.status,
        }),
        Err(e) => Err(format!("{:?}", e)),
    }
}

fn optimize(w: &mut SlidingWindow) -> bool {
    let start = w.optimize().unwrap().unwrap();
    let T_C_B = |camera: Camera| match camera {
        Camera::Left => na4(&start.problem.T_B_Cl).try_inverse().unwrap(),
        Camera::Right => na4(&start.problem.T_B_Cr).try_inverse().unwrap(),
    };
    let mut values: Values = HashMap::new();
    for v in &start.problem.variables {
        let initial = match v.initial {
            InitialValue::Pose { T_W_B } => inverse_pose(&na4(&T_W_B)),
            InitialValue::VelocityBias { velocity, accel_bias, gyro_bias } => {
                let mut all: Vec<f64> = Vec::new();
                for x in [velocity, accel_bias, gyro_bias].iter() {
                    all.extend(na3(x).iter());
                }
                DVector::from_vec(all)
            }
            InitialValue::Known { point } => DVector::from_vec(vec![
                widened(&point.x),
                widened(&point.y),
                widened(&point.z),
            ]),
            InitialValue::Seen { T_W_B, camera, coord, depth } => {
                let seen = observation(&coord);
                let (R, t) = split(&T_C_B(camera).try_inverse().unwrap());
                let p_B = R * na::Vector3::new(seen.x, seen.y, number(&depth)) + t;
                let (R, t) = split(&na4(&T_W_B));
                DVector::from_column_slice((R * p_B + t).as_slice())
            }
        };
        values.insert(v.name.name(), (v.initial.manifold(), initial));
    }
    let mut problem = Problem::new();
    for b in &start.problem.blocks {
        let names: Vec<String> = b.variables().iter().map(|v| v.name()).collect();
        let names: Vec<&str> = names.iter().map(|s| s.as_str()).collect();
        let loss = HuberLoss::new(number(&b.loss_width())).unwrap();
        match b {
            Block::Reprojection { camera, coord, fixed_pose, .. } => {
                let seen = lib2(&observation(coord));
                let mut f = BundleAdjustmentFactor::new(seen, lib4(&T_C_B(*camera)), None);
                if let Some(T_W_B) = fixed_pose {
                    f = f.with_fixed_pose(lib4(&na4(T_W_B).try_inverse().unwrap()));
                }
                problem.add_residual_block(&names, Box::new(Full(f)), Some(Box::new(loss)));
            }
            Block::Imu { frame, bias_a, bias_g } => {
                let preint = w.get_frame(*frame).unwrap().imu_preintegration.clone().unwrap();
                let f = ImuFactor::new(preint, *bias_a, *bias_g);
                problem.add_residual_block(&names, Box::new(Inertial(f)), Some(Box::new(loss)));
            }
        }
    }
    problem.initialize_variables(&values);
    let mut config = start.config;
    let mut run = Run::First;
    loop {
        let outcome = solve(&problem, &values, &config);
        match &outcome {
            Ok(s) => {
                println!("{:?}", s.status);
                assert!(parameters_fit(&s.parameters, w.len()));
            }
            Err(e) => println!("{}", e),
        }
        match w.finish_optimization(run, &start.saved, &outcome) {
            Verdict::Done(success) => return success,
            Verdict::Retry(other) => {
                assert_eq!(run, Run::First);
                config = other;
                run = Run::Fallback;
            }
        }
    }
}

fn translation(x: f64, y: f64, z: f64) -> na::Matrix4<f64> {
    na::Matrix4::new_translation(&na::Vector3::new(x, y, z))
}

fn points() -> Vec<na::Vector3<f64>> {
    let mut out = Vec::new();
    for k in 0..12 {
        let (a, b) = ((k % 4) as f64, (k / 4) as f64);
        out.push(na::Vector3::new(a * 0.6 - 0.8, b * 0.5 - 0.4, 2.0 + 0.2 * a + 0.3 * b));
    }
    out
}

/// A keyframe at `truth` that believes itself at `believed`.
fn frame(id: usize, truth: &na::Matrix4<f64>, believed: &na::Matrix4<f64>) -> Frame {
    let mut state = State::identity();
    state.T_W_B = lib4(believed);
    let T_B_Cr = translation(0.2, 0.0, 0.0);
    state.T_B_Cr = lib4(&T_B_Cr);
    let see = |T_W_C: na::Matrix4<f64>| -> Vec<Feature> {
        let (R, t) = split(&T_W_C.try_inverse().unwrap());
        points()
            .iter()
            .enumerate()
            .map(|(k, p)| {
                let c = R * p + t;
                Feature {
                    feature_id: k,
                    undistorted_coord: Coord { x: single(c.x / c.z), y: single(c.y / c.z) },
                }
            })
            .collect()
    };
    Frame {
        frame_id: id,
        is_keyframe: true,
        state,
        left_features: see(*truth),
        right_features: see(truth * T_B_Cr),
        left_cam: CameraModelType::OpenCV5 { fx: scalar(400.0) },
        imu_preintegration: None,
    }
}

fn optimized_window() -> SlidingWindow {
    let mut w = SlidingWindow::new(3);
    for k in 0..3 {
        let truth = translation(0.3 * k as f64, 0.1 * k as f64, 0.0);
        let believed = if k == 0 { truth } else { truth * translation(0.02, -0.03, 0.01) };
        assert!(w.add_frame(frame(k, &truth, &believed)));
    }
    assert!(optimize(&mut w));
    w
}

#[test]
fn optimization_finds_points_and_poses() {
    let w = optimized_window();
    assert_eq!(w.map_points.len(), 12);
    for (k, p) in points().iter().enumerate() {
        let m = w.map_points[&k];
        let found = na::Vector3::new(widened(&m.x), widened(&m.y), widened(&m.z));
        assert!((found - p).norm() < 1e-2, "point {}: {:?}", k, found);
    }
    for (k, T) in w.get_keyframe_poses().iter().enumerate() {
        let truth = translation(0.3 * k as f64, 0.1 * k as f64, 0.0);
        assert!((na4(T) - truth).norm() < 1e-2, "pose {}: {}", k, na4(T));
    }
}

#[test]
fn a_new_frame_is_located_by_the_points_of_the_map() {
    let w = optimized_window();
    let truth = translation(0.8, 0.15, 0.1);
    let new = frame(9, &truth, &translation(0.0, 0.0, 0.0));
    let t = w.track_motion(&new);
    assert_eq!(t.blocks.len(), 24);
    let name = VarName::NewFrame.name();
    let mut values: Values = HashMap::new();
    values.insert(name.clone(), (ManifoldType::SE3, inverse_pose(&na4(&t.T_W_B))));
    let mut problem = Problem::new();
    for b in &t.blocks {
        let T_B_C = match b.camera {
            Camera::Left => na4(&t.T_B_Cl),
            Camera::Right => na4(&t.T_B_Cr),
        };
        let p_W =
            na::Vector3::new(widened(&b.point.x), widened(&b.point.y), widened(&b.point.z));
        let f = PnPFactor::new(
            lib2(&observation(&b.coord)),
            lib4(&T_B_C.try_inverse().unwrap()),
            lib3(&p_W),
        );
        let loss = HuberLoss::new(number(&t.loss_width)).unwrap();
        problem.add_residual_block(&[&name], Box::new(Located(f)), Some(Box::new(loss)));
    }
    problem.initialize_variables(&values);
    let outcome = solve(&problem, &values, &t.config);
    let found = SlidingWindow::finish_tracking(&outcome).unwrap();
    assert!((na4(&found) - truth).norm() < 1e-2, "{}", na4(&found));
}

/// The velocity of the keyframe at position `k`.
fn velocity(k: usize) -> na::Vector3<f64> {
    na::Vector3::new(0.2 - 0.1 * k as f64, 0.3, -0.1 * k as f64)
}

/// What the IMU measures between the keyframes at positions `k - 1` and `k`.
fn measurement(k: usize, state: &State) -> PreInt {
    let at = |k: usize| -na::Vector3::new(0.3 * k as f64, 0.1 * k as f64, 0.0);
    let dt = 0.5;
    let mut p = PreInt::starting_at(state);
    let g = na3(&p.gravity);
    p.dt = scalar(dt);
    p.delta_v = lib3(&(velocity(k) - velocity(k - 1) + g * dt));
    p.delta_p = lib3(&(at(k) - at(k - 1) - velocity(k - 1) * dt + 0.5 * g * dt * dt));
    p
}

#[test]
fn optimization_finds_velocities_from_measurements() {
    let mut w = SlidingWindow::new(3);
    for k in 0..3 {
        let truth = translation(0.3 * k as f64, 0.1 * k as f64, 0.0);
        let believed = if k == 0 { truth } else { truth * translation(0.02, -0.03, 0.01) };
        let mut f = frame(k, &truth, &believed);
        f.state.velocity = lib3(&(velocity(k) + na::Vector3::new(0.2, -0.3, 0.1)));
        if k > 0 {
            f.imu_preintegration = Some(measurement(k, &f.state));
        }
        assert!(w.add_frame(f));
    }
    w.initialized = true;
    assert!(optimize(&mut w));
    for (k, v) in w.get_keyframe_velocities().iter().enumerate() {
        assert!((na3(v) - velocity(k)).norm() < 1e-2, "velocity {}: {}", k, na3(v));
    }
    for (k, T) in w.get_keyframe_poses().iter().enumerate() {
        let truth = translation(0.3 * k as f64, 0.1 * k as f64, 0.0);
        assert!((na4(T) - truth).norm() < 1e-2, "pose {}: {}", k, na4(T));
    }
}
