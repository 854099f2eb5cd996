//! The names of variables.
use vio_backend::optimization::names::{to_decimal, Target, VarName};

#[test]
fn variables_are_named_by_prefix_and_number() {
    assert_eq!(VarName::Landmark(0).name(), "LM_0");
    assert_eq!(VarName::Landmark(1234567).name(), "LM_1234567");
    assert_eq!(VarName::Pose(7).name(), "KF_7");
    assert_eq!(VarName::VelocityBias(10).name(), "vb_10");
    assert_eq!(VarName::NewFrame.name(), "F");
    assert_eq!(VarName::Landmark(usize::MAX).name(), format!("LM_{}", usize::MAX));
}

#[test]
fn names_lead_back_to_their_variables() {
    for n in [0usize, 1, 9, 10, 99, 12345, 2147483647].iter() {
        assert_eq!(Target::decode(&VarName::Landmark(*n).name()), Target::Landmark(*n));
        assert_eq!(Target::decode(&VarName::Pose(*n).name()), Target::Pose(*n as i32));
        let vb = VarName::VelocityBias(*n).name();
        assert_eq!(Target::decode(&vb), Target::VelocityBias(*n as i32));
    }
    let last = VarName::Landmark(usize::MAX).name();
    assert_eq!(Target::decode(&last), Target::Landmark(usize::MAX));
    assert_eq!(Target::decode(&VarName::NewFrame.name()), Target::Ignored);
}

#[test]
fn names_are_read_as_the_standard_library_reads_numbers() {
    let tails = [
        "", "0", "00", "7", "+7", "-7", "-0", "+", "-", "--7", "+-7", " 7", "7 ", "7a", "a7",
        "2147483647", "2147483648", "-2147483648", "-2147483649", "18446744073709551615",
        "18446744073709551616", "99999999999999999999999", "0x10", "1_000", "\u{661}",
    ];
    for tail in tails.iter() {
        let landmark = match tail.parse::<usize>() {
            Ok(n) => Target::Landmark(n),
            Err(_) => Target::Ignored,
        };
        assert_eq!(Target::decode(&format!("LM_{}", tail)), landmark, "LM_{}", tail);
        let (pose, vb) = match tail.parse::<i32>() {
            Ok(n) => (Target::Pose(n), Target::VelocityBias(n)),
            Err(_) => (Target::Ignored, Target::Ignored),
        };
        assert_eq!(Target::decode(&format!("KF_{}", tail)), pose, "KF_{}", tail);
        assert_eq!(Target::decode(&format!("vb_{}", tail)), vb, "vb_{}", tail);
    }
    for other in ["", "L", "LM", "LM7", "lm_7", "KF7", "xKF_7", "vb7", "VB_7"].iter() {
        assert_eq!(Target::decode(other), Target::Ignored);
    }
}

#[test]
fn decimal_notation_is_the_usual_one() {
    for n in [0usize, 5, 10, 100, 4096, usize::MAX].iter() {
        assert_eq!(to_decimal(*n), format!("{}", n));
    }
}
