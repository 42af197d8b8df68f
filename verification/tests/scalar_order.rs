use raytracer::scalar::{Scalar, INFINITY_BITS, ONE_BITS, SIGN_BIT};

fn s(x: f64) -> Scalar {
    Scalar::from_bits(x.to_bits())
}

fn samples() -> Vec<f64> {
    vec![
        f64::NEG_INFINITY,
        -1.0e300,
        -2.5,
        -1.0,
        -f64::MIN_POSITIVE,
        -5e-324,
        -0.0,
        0.0,
        5e-324,
        f64::MIN_POSITIVE,
        1e-60,
        1e-8,
        0.0001,
        0.001,
        0.5,
        0.999,
        1.0,
        1.5,
        1.0e300,
        f64::MAX,
        f64::INFINITY,
        f64::NAN,
        -f64::NAN,
    ]
}

#[test]
fn order_agrees_with_the_hardware() {
    for &a in samples().iter() {
        for &b in samples().iter() {
            assert_eq!(s(a).lt(s(b)), a < b, "{a} < {b}");
            assert_eq!(s(a).le(s(b)), a <= b, "{a} <= {b}");
            assert_eq!(s(a).gt(s(b)), a > b, "{a} > {b}");
            assert_eq!(s(a).ge(s(b)), a >= b, "{a} >= {b}");
            assert_eq!(s(a).same_value(s(b)), a == b, "{a} == {b}");
        }
    }
}

#[test]
fn classification_agrees_with_the_hardware() {
    for &a in samples().iter() {
        assert_eq!(s(a).is_nan(), a.is_nan());
        assert_eq!(s(a).abs().to_bits(), a.abs().to_bits());
    }
}

#[test]
fn bit_patterns_round_trip() {
    assert_eq!(Scalar::from_bits(0x1234_5678_9abc_def0).to_bits(), 0x1234_5678_9abc_def0);
    assert_eq!(s(1.0).to_bits(), ONE_BITS);
    assert_eq!(s(f64::INFINITY).to_bits(), INFINITY_BITS);
    assert_eq!(s(-0.0).to_bits(), SIGN_BIT);
}

#[test]
fn named_numbers_have_their_values() {
    assert_eq!(Scalar::zero(), s(0.0));
    assert_eq!(Scalar::one(), s(1.0));
    assert_eq!(Scalar::infinity(), s(f64::INFINITY));
    assert_eq!(Scalar::neg_infinity(), s(f64::NEG_INFINITY));
}

#[test]
fn zeros_are_equal_numbers_with_different_patterns() {
    assert!(s(0.0).same_value(s(-0.0)));
    assert!(s(0.0) != s(-0.0));
    assert!(!s(-0.0).lt(s(0.0)));
    assert!(s(-0.0).le(s(0.0)));
}

#[test]
fn nan_stands_in_no_relation() {
    let nan = s(f64::NAN);
    assert!(!nan.lt(nan) && !nan.le(nan) && !nan.gt(nan) && !nan.ge(nan));
    assert!(!nan.same_value(nan));
    assert!(nan == nan);
    assert!(!nan.lt(s(1.0)) && !s(1.0).lt(nan));
}

#[test]
fn min_and_max_ignore_nan() {
    let nan = s(f64::NAN);
    assert_eq!(s(1.0).min(s(2.0)), s(1.0));
    assert_eq!(s(2.0).min(s(1.0)), s(1.0));
    assert_eq!(s(1.0).max(s(2.0)), s(2.0));
    assert_eq!(s(2.0).max(s(1.0)), s(2.0));
    assert_eq!(nan.min(s(3.0)), s(3.0));
    assert_eq!(s(3.0).min(nan), s(3.0));
    assert_eq!(nan.max(s(3.0)), s(3.0));
    assert_eq!(s(3.0).max(nan), s(3.0));
    assert_eq!(s(f64::INFINITY).min(s(-4.0)), s(-4.0));
    assert_eq!(s(f64::NEG_INFINITY).max(s(-4.0)), s(-4.0));
}

#[test]
fn min_and_max_are_outcomes_of_the_hardware_ones() {
    for &a in samples().iter() {
        for &b in samples().iter() {
            let lo = f64::from_bits(s(a).min(s(b)).to_bits());
            let hi = f64::from_bits(s(a).max(s(b)).to_bits());
            if a.is_nan() && b.is_nan() {
                assert!(lo.is_nan() && hi.is_nan());
            } else {
                assert!(lo == a.min(b), "min({a}, {b})");
                assert!(hi == a.max(b), "max({a}, {b})");
            }
        }
    }
}

#[test]
fn of_two_equal_numbers_min_and_max_take_the_first() {
    assert_eq!(s(0.0).min(s(-0.0)), s(0.0));
    assert_eq!(s(-0.0).min(s(0.0)), s(-0.0));
    assert_eq!(s(0.0).max(s(-0.0)), s(0.0));
    assert_eq!(s(-0.0).max(s(0.0)), s(-0.0));
}
