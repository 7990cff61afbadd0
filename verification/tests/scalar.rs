use egobox::scalar::Scalar;

fn sc(x: f64) -> Scalar {
    Scalar::from_bits(x.to_bits())
}

fn samples() -> Vec<f64> {
    vec![
        0.0,
        -0.0,
        1.0,
        -1.0,
        0.5,
        -0.5,
        1e-10,
        -1e-10,
        1e15,
        -1e15,
        5e-324,
        -5e-324,
        f64::MIN_POSITIVE,
        f64::MAX,
        f64::MIN,
        f64::INFINITY,
        f64::NEG_INFINITY,
        f64::NAN,
        -f64::NAN,
        3.25,
        -6.0,
        2.0,
        100.0,
    ]
}

#[test]
fn lt_agrees_with_the_values() {
    for a in samples() {
        for b in samples() {
            assert_eq!(sc(a).lt(&sc(b)), a < b, "{} < {}", a, b);
        }
    }
}

#[test]
fn le_agrees_with_the_values() {
    for a in samples() {
        for b in samples() {
            assert_eq!(sc(a).le(&sc(b)), a <= b, "{} <= {}", a, b);
        }
    }
}

#[test]
fn classification_agrees_with_the_values() {
    for a in samples() {
        assert_eq!(sc(a).nan(), a.is_nan());
        assert_eq!(sc(a).finite(), a.is_finite());
        assert_eq!(sc(a).negative(), a < 0.0);
    }
}

#[test]
fn clamp_negative_is_the_clamp_at_zero() {
    for a in samples() {
        let expected = if a < 0.0 { 0.0 } else { a };
        let got = f64::from_bits(sc(a).clamp_negative().to_bits());
        assert_eq!(got.to_bits(), expected.to_bits());
        assert!(!(got < 0.0));
    }
}

#[test]
fn clamp_negative_exact_values() {
    assert_eq!(sc(-0.25).clamp_negative(), sc(0.0));
    assert_eq!(sc(0.03422835527498675).clamp_negative(), sc(0.03422835527498675));
    assert_eq!(sc(-1e-17).clamp_negative().to_bits(), 0);
}

#[test]
fn zero_and_one() {
    assert_eq!(f64::from_bits(Scalar::zero().to_bits()), 0.0);
    assert_eq!(f64::from_bits(Scalar::one().to_bits()), 1.0);
    assert_eq!(Scalar::from_bits(7).to_bits(), 7);
}

#[test]
fn neg_changes_the_sign_only() {
    for a in samples() {
        let got = f64::from_bits(sc(a).neg().to_bits());
        assert_eq!(got.to_bits(), (-a).to_bits());
        assert_eq!(sc(a).neg().neg(), sc(a));
    }
    assert_eq!(f64::from_bits(sc(2.5).neg().to_bits()), -2.5);
}

#[test]
fn order_turns_around_under_neg() {
    for a in samples() {
        for b in samples() {
            assert_eq!(sc(a).lt(&sc(b)), sc(b).neg().lt(&sc(a).neg()));
        }
    }
}

#[test]
fn zero_is_told_for_either_sign() {
    for a in samples() {
        assert_eq!(sc(a).zero_valued(), a == 0.0);
    }
}
