//! Floating-point numbers as bit patterns, against the machine's.
use vio_backend::linalg::{Matrix, Matrix3x3, Vector3};
use vio_backend::scalar::Scalar;

fn scalar(x: f64) -> Scalar {
    Scalar::from_bits(x.to_bits())
}

fn interesting() -> Vec<f64> {
    let mut v = vec![
        0.0,
        5e-324,
        2.2250738585072009e-308,
        2.2250738585072014e-308,
        1e-8,
        0.1,
        1.0,
        1.0000000000000002,
        2.0,
        9.81,
        10.0,
        1e6,
        1.7976931348623157e308,
        f64::INFINITY,
        f64::NAN,
    ];
    let negated: Vec<f64> = v.iter().map(|x| -x).collect();
    v.extend(negated);
    v
}

#[test]
fn comparisons_agree_with_the_machine() {
    for a in interesting() {
        for b in interesting() {
            let (x, y) = (scalar(a), scalar(b));
            assert_eq!(x.lt(&y), a < b, "{} < {}", a, b);
            assert_eq!(x.le(&y), a <= b, "{} <= {}", a, b);
            assert_eq!(x.eq_value(&y), a == b, "{} == {}", a, b);
        }
    }
}

#[test]
fn larger_numbers_agree_with_the_machine() {
    for a in interesting() {
        for b in interesting() {
            let m = f64::from_bits(scalar(a).max(&scalar(b)).bits);
            let expected = a.max(b);
            if expected.is_nan() {
                assert!(m.is_nan());
            } else {
                assert_eq!(m, expected);
            }
        }
    }
}

#[test]
fn signs_agree_with_the_machine() {
    for a in interesting() {
        let x = scalar(a);
        assert_eq!(x.is_nan(), a.is_nan());
        assert_eq!(x.neg().bits, (-a).to_bits());
        assert_eq!(x.abs().bits, a.abs().to_bits());
    }
    assert_eq!(Scalar::zero().bits, 0.0f64.to_bits());
    assert_eq!(Scalar::one().bits, 1.0f64.to_bits());
}

#[test]
fn clamping_agrees_with_the_machine() {
    let (low, high) = (scalar(-1.0), scalar(1.0));
    for a in interesting() {
        let c = f64::from_bits(scalar(a).clamp(&low, &high).bits);
        let expected = a.clamp(-1.0, 1.0);
        assert!(c == expected || c.is_nan() && expected.is_nan());
    }
}

#[test]
fn blocks_of_a_matrix_are_written_and_read() {
    let mut m = Matrix::zeros(5, 6);
    let b = Matrix3x3::new(
        scalar(1.0),
        scalar(2.0),
        scalar(3.0),
        scalar(4.0),
        scalar(5.0),
        scalar(6.0),
        scalar(7.0),
        scalar(8.0),
        scalar(9.0),
    );
    m.set_block3(2, 3, &b);
    assert_eq!(m.block3(2, 3), b);
    assert_eq!(m.block3(2, 0), Matrix3x3::zeros());
    assert_eq!(m.get(4, 5), scalar(9.0));
    assert_eq!(m.get(1, 3), Scalar::zero());
    assert_eq!((m.nrows(), m.ncols()), (5, 6));
    assert!(m.is_wf());
    let i = Matrix::identity(4);
    assert_eq!(i.get(3, 3), Scalar::one());
    assert_eq!(i.get(3, 2), Scalar::zero());
    assert_eq!(Matrix3x3::identity().neg().r1.y, scalar(-1.0));
    assert_eq!(Vector3::from_element(scalar(2.5)).neg().z, scalar(-2.5));
}
