use rate_distortion::distortion::{hamming_distance, hamming_mismatches, Ratio};

fn as_real(d: Ratio) -> f64 {
    d.numerator as f64 / d.denominator as f64
}

#[test]
fn test_hamming_identical() {
    assert_eq!(as_real(hamming_distance(&[1, 2, 3], &[1, 2, 3])), 0.0);
}

#[test]
fn test_hamming_different() {
    let d = as_real(hamming_distance(&[1, 2, 3], &[1, 3, 3]));
    assert!((d - 1.0 / 3.0).abs() < 1e-10);
}

#[test]
fn hamming_distance_is_exact_fraction() {
    let d = hamming_distance(&[1, 2, 3, 4], &[0, 2, 0, 4]);
    assert_eq!(d, Ratio { numerator: 2, denominator: 4 });
}

#[test]
fn hamming_distance_of_empty_sequences_is_zero_over_zero() {
    let d = hamming_distance(&[], &[]);
    assert_eq!(d, Ratio { numerator: 0, denominator: 0 });
    assert!(as_real(d).is_nan());
}

#[test]
fn hamming_all_positions_differ() {
    assert_eq!(hamming_mismatches(&[i32::MIN, 0, 7], &[i32::MAX, 1, -7]), 3);
}

#[test]
fn hamming_is_symmetric_and_satisfies_triangle() {
    let x = [1, 2, 3, 4, 5];
    let y = [1, 0, 3, 0, 5];
    let z = [9, 0, 3, 4, 0];
    let xy = hamming_mismatches(&x, &y);
    let yx = hamming_mismatches(&y, &x);
    let yz = hamming_mismatches(&y, &z);
    let xz = hamming_mismatches(&x, &z);
    assert_eq!(xy, yx);
    assert_eq!((xy, yz, xz), (2, 3, 3));
    assert!(xz <= xy + yz);
}

#[test]
fn hamming_zero_only_for_equal_sequences() {
    assert_eq!(hamming_mismatches(&[4, 4], &[4, 4]), 0);
    assert_eq!(hamming_mismatches(&[4, 4], &[4, 5]), 1);
}
