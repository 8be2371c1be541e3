use physicslang::projection::{bin_range, projection_plan, ProjectionPlan};
use physicslang::LATENT_DIM_64;

fn bins_of(n: usize) -> Vec<(usize, usize)> {
    match projection_plan(n) {
        ProjectionPlan::Bins(b) => b,
        _ => panic!("expected a bin plan for {n}"),
    }
}

#[test]
fn empty_input_projects_to_zeros() {
    assert!(matches!(projection_plan(0), ProjectionPlan::Zeros));
}

#[test]
fn forge_width_input_is_only_normalized() {
    assert!(matches!(projection_plan(LATENT_DIM_64), ProjectionPlan::Normalize));
}

#[test]
fn qwen_width_bins_are_64_wide() {
    let bins = bins_of(4096);
    assert_eq!(bins.len(), 64);
    for (i, &(s, e)) in bins.iter().enumerate() {
        assert_eq!(s, i * 64);
        assert_eq!(e, (i + 1) * 64);
    }
}

#[test]
fn bins_tile_an_uneven_input() {
    let n = 100;
    let bins = bins_of(n);
    assert_eq!(bins[0].0, 0);
    assert_eq!(bins[63].1, n);
    for i in 0..63 {
        assert_eq!(bins[i].1, bins[i + 1].0);
    }
    for &(s, e) in &bins {
        let w = e - s;
        assert!(w == n / 64 || w == n / 64 + 1);
    }
    assert_eq!(bins[0], (0, 1));
    assert_eq!(bins[1], (1, 3));
    assert_eq!(bins[63], (98, 100));
}

#[test]
fn short_input_bins_repeat_components() {
    let bins = bins_of(10);
    assert_eq!(bins.len(), 64);
    assert_eq!(bins[0], (0, 1));
    assert_eq!(bins[5], (0, 1));
    assert_eq!(bins[6], (0, 1));
    assert_eq!(bins[7], (1, 2));
    assert_eq!(bins[63], (9, 10));
    for &(s, e) in &bins {
        assert!(s < e && e <= 10);
    }
}

#[test]
fn single_component_input_fills_every_bin() {
    let bins = bins_of(1);
    assert!(bins.iter().all(|&b| b == (0, 1)));
}

#[test]
fn bin_range_matches_the_plan() {
    let bins = bins_of(777);
    for i in 0..64 {
        assert_eq!(bin_range(777, i), bins[i]);
    }
    assert_eq!(bin_range(777, 0), (0, 12));
    assert_eq!(bin_range(777, 63), (764, 777));
}

#[test]
fn forge_width_bins_are_single_components() {
    for i in 0..64 {
        assert_eq!(bin_range(64, i), (i, i + 1));
    }
}
