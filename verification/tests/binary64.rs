use woodgrain::binary64::{
    is_at_least_one, is_below_zero, is_finite, is_in_unit_interval, NEGATIVE_INFINITY, ONE,
    POSITIVE_INFINITY,
};

fn samples() -> Vec<f64> {
    vec![
        0.0,
        -0.0,
        1.0,
        -1.0,
        0.5,
        -0.5,
        0.999_999_999_999_999_9,
        1.000_000_000_000_000_2,
        2.0,
        32.0,
        40.0,
        1e-310,
        -1e-310,
        5e-324,
        f64::MIN_POSITIVE,
        f64::MAX,
        f64::MIN,
        f64::INFINITY,
        f64::NEG_INFINITY,
        f64::NAN,
        -f64::NAN,
        f64::from_bits(0x7FF0_0000_0000_0001),
        f64::from_bits(0xFFFF_FFFF_FFFF_FFFF),
    ]
}

#[test]
fn named_encodings_are_the_numbers_they_name() {
    assert_eq!(ONE, 1.0f64.to_bits());
    assert_eq!(POSITIVE_INFINITY, f64::INFINITY.to_bits());
    assert_eq!(NEGATIVE_INFINITY, f64::NEG_INFINITY.to_bits());
}

#[test]
fn finiteness_agrees_with_the_hardware() {
    for v in samples() {
        assert_eq!(is_finite(v.to_bits()), v.is_finite(), "{v:?}");
    }
}

#[test]
fn sign_test_agrees_with_comparison_against_zero() {
    for v in samples() {
        assert_eq!(is_below_zero(v.to_bits()), v < 0.0, "{v:?}");
    }
    assert!(!is_below_zero((-0.0f64).to_bits()));
    assert!(is_below_zero(f64::NEG_INFINITY.to_bits()));
    assert!(!is_below_zero((-f64::NAN).to_bits()));
}

#[test]
fn unit_interval_agrees_with_comparison() {
    for v in samples() {
        assert_eq!(is_in_unit_interval(v.to_bits()), (0.0..1.0).contains(&v), "{v:?}");
    }
    assert!(is_in_unit_interval(0));
    assert!(is_in_unit_interval(ONE - 1));
    assert!(!is_in_unit_interval(ONE));
}

#[test]
fn at_least_one_agrees_with_comparison() {
    for v in samples() {
        assert_eq!(is_at_least_one(v.to_bits()), v >= 1.0, "{v:?}");
    }
    assert!(is_at_least_one(ONE));
    assert!(!is_at_least_one(ONE - 1));
    assert!(is_at_least_one(POSITIVE_INFINITY));
    assert!(!is_at_least_one(POSITIVE_INFINITY + 1));
}
