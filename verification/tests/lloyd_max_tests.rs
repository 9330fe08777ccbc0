use rate_distortion::lloyd_max::{cell_counts, update_levels};
use rate_distortion::quantizer::{quantize, ScalarQuantizer};

#[test]
fn counts_per_cell() {
    let counts = cell_counts(&[0, 2, 2, 1, 2, 0], 4);
    assert_eq!(counts, vec![2, 1, 3, 0]);
    assert_eq!(counts.iter().sum::<usize>(), 6);
}

#[test]
fn counts_of_no_samples() {
    assert_eq!(cell_counts(&[], 3), vec![0, 0, 0]);
}

#[test]
fn counts_of_assigned_samples_sum_to_sample_count() {
    let boundaries: Vec<u64> = [-1.0f64, -0.5, 0.0, 0.5, 1.0].iter().map(|x| x.to_bits()).collect();
    let levels: Vec<u64> = [-0.75f64, -0.25, 0.25, 0.75].iter().map(|x| x.to_bits()).collect();
    let q = ScalarQuantizer::new(boundaries, levels);
    let samples: Vec<u64> = (0..1000).map(|i| ((i as f64 / 1000.0) * 2.0 - 1.0).to_bits()).collect();
    let idx = quantize(&samples, &q);
    let counts = cell_counts(&idx, 4);
    assert_eq!(counts, vec![250, 250, 250, 250]);
    assert_eq!(counts.iter().sum::<usize>(), samples.len());
}

#[test]
fn update_levels_moves_only_occupied_cells() {
    let mut levels = vec![10, 20, 30];
    update_levels(&mut levels, &[11, 21, 31], &[1, 0, 5]);
    assert_eq!(levels, vec![11, 20, 31]);
}
