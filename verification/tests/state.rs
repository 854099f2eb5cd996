use vio_backend::estimator::state::State;
use vio_backend::linalg::{Matrix4x4, Vector3};
use vio_backend::scalar::Scalar;

fn s(x: f64) -> Scalar {
    Scalar::from_bits(x.to_bits())
}

#[test]
fn identity_state_is_at_rest_in_the_origin() {
    let st = State::identity();
    assert_eq!(st.T_W_B, Matrix4x4::identity());
    assert_eq!(st.velocity, Vector3 { x: s(0.0), y: s(0.0), z: s(0.0) });
}
