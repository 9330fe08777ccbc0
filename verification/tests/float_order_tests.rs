use rate_distortion::float_order::{less_equal, less_than, nan_bits};

fn samples() -> Vec<f64> {
    vec![
        0.0,
        -0.0,
        1.0,
        -1.0,
        0.5,
        -0.5,
        1e-310,
        -1e-310,
        f64::MIN_POSITIVE,
        f64::MAX,
        f64::MIN,
        f64::INFINITY,
        f64::NEG_INFINITY,
        f64::NAN,
        -f64::NAN,
        f64::from_bits(0x7FF0_0000_0000_0001),
        f64::from_bits(0xFFF8_0000_0000_0001),
        3.25,
        -1234.5,
        2.0f64.powi(60),
    ]
}

#[test]
fn less_than_agrees_with_f64() {
    for &a in &samples() {
        for &b in &samples() {
            assert_eq!(less_than(a.to_bits(), b.to_bits()), a < b, "{:?} < {:?}", a, b);
        }
    }
}

#[test]
fn less_equal_agrees_with_f64() {
    for &a in &samples() {
        for &b in &samples() {
            assert_eq!(less_equal(a.to_bits(), b.to_bits()), a <= b, "{:?} <= {:?}", a, b);
        }
    }
}

#[test]
fn nan_bits_agrees_with_f64() {
    for &a in &samples() {
        assert_eq!(nan_bits(a.to_bits()), a.is_nan(), "{:?}", a);
    }
}

#[test]
fn zeros_are_equal_and_nan_is_unordered() {
    let pz = 0.0f64.to_bits();
    let nz = (-0.0f64).to_bits();
    assert!(!less_than(pz, nz) && !less_than(nz, pz));
    assert!(less_equal(pz, nz) && less_equal(nz, pz));
    let nan = f64::NAN.to_bits();
    assert!(!less_than(nan, nan) && !less_equal(nan, nan));
    assert!(!less_than(nan, pz) && !less_than(pz, nan));
}
