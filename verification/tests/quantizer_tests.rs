use rate_distortion::quantizer::{dequantize, quantize, ScalarQuantizer};

fn uniform(n: usize, lo: f64, hi: f64) -> ScalarQuantizer {
    let step = (hi - lo) / n as f64;
    let boundaries: Vec<u64> = (0..=n).map(|i| (lo + i as f64 * step).to_bits()).collect();
    let levels: Vec<u64> = (0..n).map(|i| (lo + (i as f64 + 0.5) * step).to_bits()).collect();
    ScalarQuantizer::new(boundaries, levels)
}

fn bits(v: &[f64]) -> Vec<u64> {
    v.iter().map(|x| x.to_bits()).collect()
}

#[test]
fn test_quantizer_basic() {
    let q = uniform(4, -1.0, 1.0);
    let idx = q.quantize(0.3f64.to_bits());
    assert!(idx < 4);
}

#[test]
fn test_quantizer_boundaries() {
    let q = uniform(2, 0.0, 1.0);
    assert_eq!(q.quantize(0.0f64.to_bits()), 0);
    assert_eq!(q.quantize(0.49f64.to_bits()), 0);
    assert_eq!(q.quantize(0.51f64.to_bits()), 1);
}

#[test]
fn test_quantizer_roundtrip_error() {
    let q = uniform(8, -2.0, 2.0);
    let x = 1.5f64;
    let idx = q.quantize(x.to_bits());
    let y = f64::from_bits(q.dequantize(idx));
    assert!((x - y).abs() < 0.5);
}

#[test]
fn quantize_cells_of_explicit_quantizer() {
    let q = ScalarQuantizer::new(bits(&[-1.0, 0.0, 1.0, 2.0]), bits(&[-0.5, 0.5, 1.5]));
    assert_eq!(q.num_levels(), 3);
    assert_eq!(q.quantize((-5.0f64).to_bits()), 0);
    assert_eq!(q.quantize((-0.0f64).to_bits()), 1);
    assert_eq!(q.quantize(0.0f64.to_bits()), 1);
    assert_eq!(q.quantize(0.999f64.to_bits()), 1);
    assert_eq!(q.quantize(1.0f64.to_bits()), 2);
    assert_eq!(q.quantize(100.0f64.to_bits()), 2);
    assert_eq!(q.quantize(f64::INFINITY.to_bits()), 2);
    assert_eq!(q.quantize(f64::NAN.to_bits()), 2);
}

#[test]
fn quantize_is_monotone() {
    let q = uniform(5, -1.0, 1.0);
    let xs: Vec<f64> = (0..41).map(|i| -1.2 + i as f64 * 0.06).collect();
    let idx = quantize(&bits(&xs), &q);
    for w in idx.windows(2) {
        assert!(w[0] <= w[1]);
    }
    assert_eq!(idx[0], 0);
    assert_eq!(idx[40], 4);
}

#[test]
fn single_level_quantizer_always_gives_zero() {
    let q = ScalarQuantizer::new(bits(&[0.0, 1.0]), bits(&[0.5]));
    for x in [-3.0, 0.5, 7.0, f64::NAN] {
        assert_eq!(q.quantize(x.to_bits()), 0);
    }
}

#[test]
fn dequantize_returns_levels() {
    let q = ScalarQuantizer::new(bits(&[0.0, 1.0, 2.0]), bits(&[0.25, 1.75]));
    assert_eq!(f64::from_bits(q.dequantize(1)), 1.75);
    let values = dequantize(&[1, 0, 1], &q);
    assert_eq!(values, bits(&[1.75, 0.25, 1.75]));
    assert_eq!(q.levels(), &bits(&[0.25, 1.75])[..]);
    assert_eq!(q.boundaries(), &bits(&[0.0, 1.0, 2.0])[..]);
}

#[test]
fn clone_keeps_boundaries_and_levels() {
    let q = uniform(3, 0.0, 3.0);
    let c = q.clone();
    assert_eq!(c.levels(), q.levels());
    assert_eq!(c.boundaries(), q.boundaries());
}
