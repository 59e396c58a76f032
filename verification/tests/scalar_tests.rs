use relaxed_ik_core::scalar::{vec_all_finite, Scalar};

fn s(v: f64) -> Scalar {
    Scalar::new(v.to_bits())
}

#[test]
fn classifies_nan() {
    assert!(s(f64::NAN).is_nan());
    assert!(!s(f64::NAN).is_finite());
    assert!(!s(f64::NAN).is_infinite());
    assert!(!s(0.0).is_nan());
    assert!(!s(-999.0).is_nan());
    assert!(!s(f64::INFINITY).is_nan());
}

#[test]
fn classifies_infinity() {
    assert!(s(f64::INFINITY).is_infinite());
    assert!(s(f64::NEG_INFINITY).is_infinite());
    assert!(!s(f64::INFINITY).is_finite());
    assert!(!s(1.5e308).is_infinite());
    assert!(s(1.5e308).is_finite());
}

#[test]
fn classifies_finite_values() {
    for v in [0.0, -0.0, 1.0, -1.0, 0.1, f64::MAX, f64::MIN, 5e-324, -999.0] {
        assert!(s(v).is_finite(), "{v} should be finite");
    }
}

#[test]
fn zero_is_the_zero_pattern() {
    assert_eq!(Scalar::zero().bits, (0.0f64).to_bits());
}

#[test]
fn vec_all_finite_spots_one_nan() {
    let good = vec![s(1.0), s(2.0), s(-3.5)];
    assert!(vec_all_finite(&good));
    let bad = vec![s(1.0), s(f64::NAN), s(-3.5)];
    assert!(!vec_all_finite(&bad));
    let inf = vec![s(1.0), s(2.0), s(f64::NEG_INFINITY)];
    assert!(!vec_all_finite(&inf));
    let empty: Vec<Scalar> = Vec::new();
    assert!(vec_all_finite(&empty));
}
