#![allow(non_snake_case)]
//! The pre-integration of IMU samples, with the numbers computed by `nalgebra`.
use apex_solver::manifold::so3::SO3;
use apex_solver::manifold::LieGroup;
use nalgebra as na;
use rand::rngs::StdRng;
use rand::{Rng, SeedableRng};
use vio_backend::datasets::{CameraModelType, ImuConfig, ImuData, Transform};
use vio_backend::estimator::frame::Frame;
use vio_backend::estimator::state::State;
use vio_backend::imu::factors::{hat, is_small_angle, vee, IMUFactor};
use vio_backend::imu::midpoint_integration::ImuMidpointIntegration;
use vio_backend::imu::piecewise_integration::{
    compute_noise, construct_A, construct_B, counted, interval, store_preintegration,
    walk_samples, ImuPiecewiseIntegration, ImuPipeline, ImuStep, InputBlocks, Layout,
    NoiseBlocks, PreInt, TransitionBlocks,
};
use vio_backend::linalg::{Matrix, Matrix3x3, Matrix4x4, Quaternion};
use vio_backend::scalar::Scalar;

fn scalar(x: f64) -> Scalar {
    Scalar::from_bits(x.to_bits())
}

fn number(x: &Scalar) -> f64 {
    f64::from_bits(x.bits)
}

fn lib3(v: &na::Vector3<f64>) -> vio_backend::linalg::Vector3 {
    vio_backend::linalg::Vector3 { x: scalar(v.x), y: scalar(v.y), z: scalar(v.z) }
}

fn na3(v: &vio_backend::linalg::Vector3) -> na::Vector3<f64> {
    na::Vector3::new(number(&v.x), number(&v.y), number(&v.z))
}

fn lib33(m: &na::Matrix3<f64>) -> Matrix3x3 {
    Matrix3x3::new(
        scalar(m[(0, 0)]),
        scalar(m[(0, 1)]),
        scalar(m[(0, 2)]),
        scalar(m[(1, 0)]),
        scalar(m[(1, 1)]),
        scalar(m[(1, 2)]),
        scalar(m[(2, 0)]),
        scalar(m[(2, 1)]),
        scalar(m[(2, 2)]),
    )
}

fn na33(m: &Matrix3x3) -> na::Matrix3<f64> {
    na::Matrix3::from_rows(&[
        na3(&m.r0).transpose(),
        na3(&m.r1).transpose(),
        na3(&m.r2).transpose(),
    ])
}

fn dense(m: &Matrix) -> na::DMatrix<f64> {
    na::DMatrix::from_fn(m.nrows(), m.ncols(), |i, j| number(&m.get(i, j)))
}

fn matrix(m: &na::DMatrix<f64>) -> Matrix {
    let mut r = Matrix::zeros(m.nrows(), m.ncols());
    for i in 0..m.nrows() {
        for j in 0..m.ncols() {
            r.set(i, j, scalar(m[(i, j)]));
        }
    }
    r
}

fn so3(q: &Quaternion) -> SO3 {
    SO3::from_quaternion(na::UnitQuaternion::new_unchecked(na::Quaternion::new(
        number(&q.w),
        number(&q.i),
        number(&q.j),
        number(&q.k),
    )))
}

fn quaternion(r: &SO3) -> Quaternion {
    let q = r.quaternion();
    Quaternion { w: scalar(q.w), i: scalar(q.i), j: scalar(q.j), k: scalar(q.k) }
}

fn propagate(
    noise: &na::DMatrix<f64>,
    preint: &mut PreInt,
    dt: f64,
    acc_0: &na::Vector3<f64>,
    gyr_0: &na::Vector3<f64>,
    bias_a: &na::Vector3<f64>,
    bias_g: &na::Vector3<f64>,
) {
    let layout = preint.layout();
    assert!(layout.is_valid());
    let acc = acc_0 - bias_a;
    let omega = gyr_0 - bias_g;
    let i3 = na::Matrix3::<f64>::identity();
    let dR = SO3::from_quaternion(na::UnitQuaternion::from_scaled_axis(omega * dt));
    let delta_R = so3(&preint.delta_R);
    let R = delta_R.rotation_matrix();
    let delta_v = na3(&preint.delta_v);
    preint.delta_p =
        lib3(&(na3(&preint.delta_p) + delta_v * dt + R * acc * dt * dt * 0.5));
    preint.delta_v = lib3(&(delta_v + R * acc * dt));
    let a_hat = na33(&hat(&lib3(&acc)));
    let A = construct_A(
        &layout,
        &TransitionBlocks {
            phiphi: lib33(&dR.rotation_matrix().transpose()),
            vphi: lib33(&(-R * a_hat * dt)),
            pphi: lib33(&(-0.5 * R * a_hat * (dt * dt))),
            pv: lib33(&(i3 * dt)),
            phibg: lib33(&(-i3 * dt)),
            vba: lib33(&(-R * dt)),
            pba: lib33(&(-0.5 * R * dt * dt)),
        },
    );
    let B = construct_B(
        &layout,
        &InputBlocks {
            phig: lib33(&(i3 * dt)),
            va: lib33(&(R * dt)),
            pa: lib33(&(0.5 * R * (dt * dt))),
            pg: lib33(&(-0.5 * R * a_hat * dt * dt)),
            ba: lib33(&(i3 * dt)),
            bg: lib33(&(i3 * dt)),
        },
    );
    let (A, B) = (dense(&A), dense(&B));
    preint.cov = matrix(
        &(&A * dense(&preint.cov) * A.transpose() + &B * (noise / dt) * B.transpose()),
    );
    preint.jacobian = matrix(&(&A * dense(&preint.jacobian)));
    preint.delta_R = quaternion(&SO3::from_quaternion(delta_R.quaternion() * dR.quaternion()));
}

fn make_random_imu_slice(n: usize, dt: f64) -> Vec<ImuData> {
    let mut rng = StdRng::seed_from_u64(42);
    let t0_ns = 1e9;
    let dt_ns: i64 = (dt * t0_ns) as i64;
    let mut out = Vec::with_capacity(n);
    for k in 0..n {
        let timestamp = t0_ns as i64 + (k as i64) * dt_ns;
        let gyro = na::Vector3::new(
            rng.gen_range(-2.0..2.0),
            rng.gen_range(-2.0..2.0),
            rng.gen_range(-2.0..2.0),
        );
        let accel = na::Vector3::new(
            rng.gen_range(-5.0..5.0),
            rng.gen_range(-5.0..5.0),
            rng.gen_range(-5.0..5.0),
        );
        out.push(ImuData { timestamp, gyro: lib3(&gyro), accel: lib3(&accel) });
    }
    out
}

fn elapsed_time(imus: &[ImuData]) -> f64 {
    let t0 = imus.first().unwrap().timestamp as f64 * 1e-9;
    let t1 = imus.last().unwrap().timestamp as f64 * 1e-9;
    t1 - t0
}

fn seconds(imus: &[ImuData]) -> Vec<Scalar> {
    imus.iter().map(|imu| scalar(imu.timestamp as f64 * 1e-9)).collect()
}

fn propagate_slice(
    integrator: &ImuPiecewiseIntegration,
    imu_slice: &[ImuData],
    bias_a: &na::Vector3<f64>,
    bias_g: &na::Vector3<f64>,
) -> PreInt {
    let mut preint = PreInt::identity();
    if imu_slice.is_empty() {
        return preint;
    }
    preint.linearized_ba = lib3(bias_a);
    preint.linearized_bg = lib3(bias_g);
    let noise = dense(&integrator.continious_noise);
    let mut prev_ts = imu_slice[0].timestamp as f64 * 1e-9;
    for imu in imu_slice.iter() {
        let ts = imu.timestamp as f64 * 1e-9;
        let dt = ts - prev_ts;
        prev_ts = ts;
        if dt <= 0.0 {
            continue;
        }
        preint.dt = scalar(number(&preint.dt) + dt);
        propagate(&noise, &mut preint, dt, &na3(&imu.accel), &na3(&imu.gyro), bias_a, bias_g);
    }
    preint
}

fn reference_preint(
    imu_slice: &[ImuData],
    bias_a: &na::Vector3<f64>,
    bias_g: &na::Vector3<f64>,
) -> (SO3, na::Vector3<f64>, na::Vector3<f64>) {
    let mut prev_ts = imu_slice[0].timestamp as f64 * 1e-9;
    let mut d_r = SO3::identity();
    let mut dv = na::Vector3::zeros();
    let mut dp = na::Vector3::zeros();
    for imu in imu_slice.iter() {
        let ts = imu.timestamp as f64 * 1e-9;
        let dt = ts - prev_ts;
        prev_ts = ts;
        if dt <= 0.0 {
            continue;
        }
        let omega = na3(&imu.gyro) - bias_g;
        let acc = na3(&imu.accel) - bias_a;
        let d_r_kkp1 = SO3::from_scaled_axis(omega * dt);
        let dv_prev = dv;
        dv += d_r.rotation_matrix() * acc * dt;
        dp += dv_prev * dt + 0.5 * d_r.rotation_matrix() * acc * dt * dt;
        d_r = SO3::from_quaternion(d_r.quaternion() * d_r_kkp1.quaternion());
    }
    (d_r, dv, dp)
}

#[test]
fn preint_matches_reference_deltas() {
    let dt = 0.005;
    let imu_slice = make_random_imu_slice(200, dt);
    let bias_a = na::Vector3::new(0.01, -0.02, 0.005);
    let bias_g = na::Vector3::new(0.001, 0.002, -0.001);
    let integrator = ImuPiecewiseIntegration::new();
    let out = propagate_slice(&integrator, &imu_slice, &bias_a, &bias_g);
    let (d_r_ref, dv_ref, dp_ref) = reference_preint(&imu_slice, &bias_a, &bias_g);
    let dphi = d_r_ref.inverse(None).compose(&so3(&out.delta_R), None, None).log(None);
    assert!(dphi.coeffs().norm() < 1e-10);
    assert!((na3(&out.delta_v) - dv_ref).norm() < 1e-10);
    assert!((na3(&out.delta_p) - dp_ref).norm() < 1e-10);
    let dt_true = elapsed_time(&imu_slice);
    assert!((number(&out.dt) - dt_true).abs() < 1e-9, "PreInt.dt should be elapsed time");
}

#[test]
fn jacobian_wrt_bias_matches_finite_difference() {
    let dt = 0.005;
    let imu_slice = make_random_imu_slice(200, dt);
    let bias_a = na::Vector3::new(0.01, -0.02, 0.005);
    let bias_g = na::Vector3::new(0.001, 0.002, -0.001);
    let eps = 1e-6;
    let integrator = ImuPiecewiseIntegration::new();
    let base = propagate_slice(&integrator, &imu_slice, &bias_a, &bias_g);
    for axis in 0..3 {
        let mut bias_a2 = bias_a;
        bias_a2[axis] += eps;
        let out2 = propagate_slice(&integrator, &imu_slice, &bias_a2, &bias_g);
        let fd_dv = (na3(&out2.delta_v) - na3(&base.delta_v)) / eps;
        let jv_ba = na33(&base.jacobian.block3(3, 9));
        println!("Finite difference dv wrt bias_a[{}]: {:?}", axis, fd_dv);
        assert!((fd_dv - jv_ba.column(axis)).norm() < 1e-4, "Jv_ba col {} mismatch", axis);
        let fd_dp = (na3(&out2.delta_p) - na3(&base.delta_p)) / eps;
        let jp_ba = na33(&base.jacobian.block3(6, 9));
        assert!((fd_dp - jp_ba.column(axis)).norm() < 1e-4, "Jp_ba col {} mismatch", axis);
    }
    for axis in 0..3 {
        let mut bias_g2 = bias_g;
        bias_g2[axis] += eps;
        let out2 = propagate_slice(&integrator, &imu_slice, &bias_a, &bias_g2);
        let fd_dv = (na3(&out2.delta_v) - na3(&base.delta_v)) / eps;
        let jv_bg = na33(&base.jacobian.block3(3, 12));
        println!("Finite difference dv wrt bias_g[{}]: {:?}", axis, fd_dv);
        assert!((fd_dv - jv_bg.column(axis)).norm() < 1e-4, "Jv_bg col {} mismatch", axis);
        let fd_dp = (na3(&out2.delta_p) - na3(&base.delta_p)) / eps;
        let jp_bg = na33(&base.jacobian.block3(6, 12));
        assert!((fd_dp - jp_bg.column(axis)).norm() < 1e-4, "Jp_bg col {} mismatch", axis);
    }
}

fn sample(timestamp: i64) -> ImuData {
    let zero = lib3(&na::Vector3::zeros());
    ImuData { timestamp, gyro: zero, accel: zero }
}

fn unit_noise() -> NoiseBlocks {
    let i3 = Matrix3x3::identity();
    NoiseBlocks { accel: i3, gyro: i3, accel_walk: i3, gyro_walk: i3 }
}

#[test]
fn later_samples_are_propagated_and_others_passed_over() {
    let times: Vec<Scalar> = [0.0, 2.0, 1.0, 2.0, 3.0].iter().map(|x| scalar(*x)).collect();
    let steps = walk_samples(&times);
    assert_eq!(
        steps,
        vec![
            ImuStep::Propagate { from: 0, to: 1 },
            ImuStep::Skip { from: 1, to: 2 },
            ImuStep::Skip { from: 1, to: 3 },
            ImuStep::Propagate { from: 1, to: 4 },
        ]
    );
    assert!(walk_samples(&vec![scalar(7.0)]).is_empty());
}

fn counted_seconds(times: &[f64]) -> f64 {
    let times: Vec<Scalar> = times.iter().map(|x| scalar(*x)).collect();
    let steps = walk_samples(&times);
    let mut total = 0.0;
    for k in 0..steps.len() {
        if let Some((start, end)) = counted(&times, &steps, k) {
            total += number(&end) - number(&start);
        }
    }
    total
}

#[test]
fn counted_time_runs_from_the_first_sample_to_the_last() {
    assert_eq!(counted_seconds(&[0.0, 1.0, 3.0]), 3.0);
    assert_eq!(counted_seconds(&[0.0, 2.0, 1.0, 3.0]), 3.0);
    assert_eq!(counted_seconds(&[0.0, 2.0, 1.0]), 1.0);
    assert_eq!(counted_seconds(&[0.0, 2.0, 1.0, 1.5]), 1.5);
    assert_eq!(counted_seconds(&[1.0, 0.0]), -1.0);
    assert_eq!(counted_seconds(&[4.0]), 0.0);
}

#[test]
fn samples_over_five_seconds_are_not_integrated() {
    let mut integrator = ImuPiecewiseIntegration::new();
    for (gap, accepted) in
        [(4_999_999_999i64, true), (5_000_000_000, false), (5_000_000_001, false)].iter()
    {
        for start in [0i64, 1_403_636_579_758_555_392].iter() {
            let slice = vec![sample(*start), sample(start + gap)];
            let gap_seconds = (slice[1].timestamp - slice[0].timestamp) as f64 * 1e-9;
            assert_eq!(gap_seconds < 5.0, *accepted);
            let before = integrator.imu_buffer.clone();
            let steps = integrator.process_imu(&slice, &seconds(&slice), &unit_noise());
            assert_eq!(steps.is_some(), *accepted);
            if *accepted {
                assert_eq!(integrator.imu_buffer, slice);
            } else {
                assert_eq!(integrator.imu_buffer, before);
            }
        }
    }
}

#[test]
fn no_samples_are_not_integrated() {
    let mut integrator = ImuPiecewiseIntegration::new();
    assert!(integrator.process_imu(&Vec::new(), &Vec::new(), &unit_noise()).is_none());
    assert_eq!(integrator.continious_noise.get(0, 0), Scalar::zero());
}

#[test]
fn integrated_samples_are_kept_for_another_run() {
    let mut integrator = ImuPiecewiseIntegration::new();
    let slice = make_random_imu_slice(20, 0.005);
    let times = seconds(&slice);
    let steps = integrator.process_imu(&slice, &times, &unit_noise()).unwrap();
    assert_eq!(steps.len(), 19);
    let (start, again) = integrator.repropagate(&times);
    assert_eq!(again, steps);
    assert_eq!(start.layout(), Layout::tangent());
    assert_eq!(start.dt, Scalar::zero());
    for step in &steps {
        let kept = interval(&integrator.imu_buffer, &times, step);
        assert_eq!(kept, interval(&slice, &times, step));
    }
    assert_eq!(integrator.continious_noise.get(11, 11), Scalar::one());
    assert_eq!(integrator.continious_noise.get(11, 10), Scalar::zero());
}

fn config() -> ImuConfig {
    ImuConfig {
        T_BS: Transform { data: (0..16).map(|k| scalar(k as f64)).collect() },
        accel_noise_density: scalar(0.1),
        gyro_noise_density: scalar(0.2),
        accel_random_walk: scalar(0.3),
        gyro_random_walk: scalar(0.4),
    }
}

#[test]
fn configuration_is_taken_over() {
    let i = ImuPiecewiseIntegration::from_config(config());
    assert_eq!(number(&i.T_BS.r1.z), 6.0);
    assert_eq!(number(&i.gyro_random_walk), 0.4);
    assert_eq!(number(&i.gravity.z), 9.81007);
    let m = ImuMidpointIntegration::from_config(config());
    assert_eq!(number(&m.T_BS.r3.w), 15.0);
    assert_eq!(number(&m.accel_noise_density.y), 0.1);
    let fresh = ImuPiecewiseIntegration::new();
    assert_eq!(fresh.T_BS, Matrix4x4::identity());
    assert_eq!(number(&fresh.gyro_noise_density), 1.0);
}

#[test]
fn midpoint_integration_and_plain_factor_give_zeros() {
    let mut m = ImuMidpointIntegration::new();
    let slice = make_random_imu_slice(5, 0.005);
    assert!(m.integrate(&slice).is_empty());
    assert_eq!(m.compute_bias(&slice), [Scalar::zero(); 6]);
    let f = IMUFactor::new();
    assert_eq!(f.compute_residual(), vec![Scalar::zero(); 6]);
    let j = IMUFactor::from_measurements().compute_jacobian();
    assert_eq!(j, vec![vec![Scalar::zero(); 6]; 6]);
}

#[test]
fn a_disabled_pipeline_does_nothing() {
    let mut p = ImuPipeline::from_config(None);
    assert!(!p.is_enabled());
    let slice = vec![sample(0), sample(1)];
    assert!(p.process_imu(&slice, &seconds(&slice), &unit_noise()).is_none());
    assert!(p.repropagate(&seconds(&slice)).is_none());
    p.set_gravity(lib3(&na::Vector3::new(1.0, 2.0, 3.0)));
    assert!(!p.is_enabled());
}

#[test]
fn an_enabled_pipeline_integrates() {
    let mut p = ImuPipeline::from_config(Some(config()));
    assert!(p.is_enabled());
    let slice = make_random_imu_slice(3, 0.005);
    let times = seconds(&slice);
    let steps = p.process_imu(&slice, &times, &unit_noise());
    assert_eq!(steps.as_ref().map(|s| s.len()), Some(2));
    assert_eq!(p.repropagate(&times).map(|r| r.1), steps);
    p.set_gravity(lib3(&na::Vector3::new(1.0, 2.0, 3.0)));
    match p {
        ImuPipeline::Enabled(i) => assert_eq!(number(&i.gravity.y), 2.0),
        ImuPipeline::Disabled => panic!("it was enabled"),
    }
}

fn frame() -> Frame {
    Frame {
        frame_id: 0,
        is_keyframe: true,
        state: State::identity(),
        left_features: Vec::new(),
        right_features: Vec::new(),
        left_cam: CameraModelType::OpenCV5 { fx: scalar(400.0) },
        imu_preintegration: None,
    }
}

#[test]
fn large_translations_are_not_stored() {
    let mut f = frame();
    let steps = vec![ImuStep::Propagate { from: 0, to: 1 }];
    assert!(!store_preintegration(&mut f, &steps, PreInt::identity(), scalar(10.000001)));
    assert!(f.imu_preintegration.is_none());
    assert!(store_preintegration(&mut f, &steps, PreInt::identity(), scalar(10.0)));
    assert!(f.imu_preintegration.is_some());
    let mut g = frame();
    assert!(store_preintegration(&mut g, &steps, PreInt::identity(), scalar(f64::NAN)));
}

#[test]
fn stored_measurements_are_linearized_about_the_frame() {
    let mut f = frame();
    f.state.accel_bias = lib3(&na::Vector3::new(1.0, 2.0, 3.0));
    f.state.gyro_bias = lib3(&na::Vector3::new(4.0, 5.0, 6.0));
    let start = PreInt::starting_at(&f.state);
    assert_eq!(start.layout(), Layout::tangent());
    assert!(start.is_for_solver());
    assert_eq!(start.linearized_ba, f.state.accel_bias);
    let mut made = PreInt::identity();
    made.dt = scalar(0.5);
    let steps = vec![ImuStep::Skip { from: 0, to: 1 }, ImuStep::Propagate { from: 0, to: 2 }];
    assert!(store_preintegration(&mut f, &steps, made.clone(), scalar(1.0)));
    let p = f.imu_preintegration.as_ref().unwrap();
    assert_eq!(number(&p.dt), 0.5);
    assert_eq!(p.linearized_ba, f.state.accel_bias);
    assert_eq!(p.linearized_bg, f.state.gyro_bias);
    assert_eq!(f.state.T_W_B, Matrix4x4::identity());
    let mut back = PreInt::identity();
    back.dt = scalar(-1.0);
    let skipped = vec![ImuStep::Skip { from: 0, to: 1 }];
    assert!(store_preintegration(&mut f, &skipped, back, scalar(1.0)));
    let p = f.imu_preintegration.as_ref().unwrap();
    assert_eq!(number(&p.dt), -1.0);
    assert_eq!(p.delta_R, Quaternion::identity());
    assert_eq!(p.layout(), Layout::tangent());
    assert!(store_preintegration(&mut f, &Vec::new(), made, scalar(1.0)));
    let p = f.imu_preintegration.as_ref().unwrap();
    assert_eq!(p.dt, Scalar::zero());
    assert_eq!(p.delta_R, Quaternion::identity());
    assert_eq!(p.linearized_bg, f.state.gyro_bias);
}

#[test]
fn the_last_reading_makes_no_difference() {
    let slice = make_random_imu_slice(6, 0.005);
    let mut other = slice.clone();
    other[5].accel = lib3(&na::Vector3::new(100.0, 200.0, 300.0));
    other[5].gyro = lib3(&na::Vector3::new(7.0, 8.0, 9.0));
    let times = seconds(&slice);
    for step in &walk_samples(&times) {
        let i = interval(&slice, &times, step);
        assert!(i.is_some());
        assert_eq!(i, interval(&other, &times, step));
    }
    assert!(interval(&slice, &times, &ImuStep::Skip { from: 0, to: 1 }).is_none());
}

#[test]
fn blocks_stand_where_the_layout_says() {
    for layout in [Layout::standard(), Layout::tangent()].iter() {
        let mark = |k: f64| lib33(&(k * na::Matrix3::identity()));
        let A = construct_A(
            layout,
            &TransitionBlocks {
                phiphi: mark(2.0),
                vphi: mark(3.0),
                pphi: mark(4.0),
                pv: mark(5.0),
                phibg: mark(6.0),
                vba: mark(7.0),
                pba: mark(8.0),
            },
        );
        assert_eq!(A.block3(layout.idx_v, layout.idx_r), mark(3.0));
        assert_eq!(A.block3(layout.idx_p, layout.idx_ba), mark(8.0));
        assert_eq!(A.block3(layout.idx_bg, layout.idx_bg), Matrix3x3::identity());
        assert_eq!(A.block3(layout.idx_r, layout.idx_v), Matrix3x3::zeros());
        let B = construct_B(
            layout,
            &InputBlocks {
                phig: mark(2.0),
                va: mark(3.0),
                pa: mark(4.0),
                pg: mark(5.0),
                ba: mark(6.0),
                bg: mark(7.0),
            },
        );
        assert_eq!(B.block3(layout.idx_r, 3), mark(2.0));
        assert_eq!(B.block3(layout.idx_p, 3), mark(5.0));
        assert_eq!(B.block3(layout.idx_bg, 9), mark(7.0));
        assert_eq!(B.block3(layout.idx_bg, 6), Matrix3x3::zeros());
    }
    let q = compute_noise(&unit_noise());
    assert_eq!(dense(&q), na::DMatrix::identity(12, 12));
}

#[test]
fn the_identity_measurement_is_empty() {
    let p = PreInt::identity();
    assert_eq!(p.layout(), Layout::standard());
    assert!(!p.is_for_solver());
    assert!(PreInt::identity_in(Layout::tangent()).is_for_solver());
    assert!(p.is_wf());
    assert_eq!(number(&p.gravity.z), 9.81007);
    assert_eq!(dense(&p.cov), na::DMatrix::zeros(15, 15));
    assert_eq!(dense(&p.jacobian), na::DMatrix::identity(15, 15));
    let bad = Layout { idx_r: 0, idx_v: 2, idx_p: 6, idx_ba: 9, idx_bg: 12 };
    assert!(!bad.is_valid());
    let out = Layout { idx_r: 0, idx_v: 3, idx_p: 6, idx_ba: 9, idx_bg: 13 };
    assert!(!out.is_valid());
}

#[test]
fn hat_and_vee_undo_each_other() {
    let v = na::Vector3::new(1.0, -2.0, 3.5);
    let w = na::Vector3::new(0.5, 0.25, -1.0);
    let h = hat(&lib3(&v));
    assert_eq!(na33(&h) * w, v.cross(&w));
    assert_eq!(na3(&vee(&h)), v);
    assert!(is_small_angle(&scalar(0.9e-8)));
    assert!(!is_small_angle(&scalar(1e-8)));
}
