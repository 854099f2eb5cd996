# vio_backend

The back end of a stereo visual-inertial odometry, verified with Verus.

A sliding window of keyframes is optimized together with the landmarks that they
show and the IMU measurements between them. The library holds what is decided,
assembled and kept: which keyframes stay in the window, which variables and blocks
a factor graph has, how a solution is read off or a failure undone, where each
block of a Jacobian belongs, which IMU samples are integrated.

Floating-point numbers pass through the library as bit patterns. Their order and
their signs are defined there; arithmetic on them, and the runs of the
`apex-solver` crate, are in `app/`.

- `src/scalar.rs`, `src/linalg.rs`: numbers, vectors and matrices.
- `src/imu/`: pre-integration of IMU samples.
- `src/optimization/`: factors, variable names, solver settings, the log.
- `src/estimator/`: state, frames, factor graphs, solutions, alignment and the
  sliding window.
- `tests/`: the library from outside, with the numbers computed by `nalgebra` and
  the graphs solved by `apex-solver`.
- `app/`: the numeric side.
