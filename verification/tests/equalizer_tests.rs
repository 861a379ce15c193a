use fractal_core::equalizer::{equalize, lower_bound, rank_lookup, sort_field};
use fractal_core::error::FractalError;

/// The key encoding the rendering layer uses: interior pixels are key 0,
/// and an escaped pixel's non-negative smooth escape value is shifted one
/// past its IEEE-754 bit pattern, which orders exactly as the value does.
fn escape_key(mu: f64) -> u64 {
    assert!(mu.is_finite() && mu >= 0.0);
    mu.to_bits() + 1
}

/// The grey ramp the rendering layer applies to a percentile.
fn grey(t: f64) -> f64 {
    1.0 - (1.0 - t).powf(1.0 / 1.5)
}

#[test]
fn sort_field_orders_keys() {
    let field = vec![5, 0, 3, 3];
    assert_eq!(sort_field(&field), vec![0, 3, 3, 5]);
}

#[test]
fn lower_bound_counts_smaller_keys() {
    let sorted = vec![0, 3, 3, 5];
    assert_eq!(lower_bound(&sorted, 0), 0);
    assert_eq!(lower_bound(&sorted, 3), 1);
    assert_eq!(lower_bound(&sorted, 4), 3);
    assert_eq!(lower_bound(&sorted, 5), 3);
    assert_eq!(lower_bound(&sorted, 9), 4);
}

#[test]
fn rank_lookup_clamps_to_last_slot() {
    // A key above every entry would land one past the end; the rank policy
    // clamps it to the last slot before measuring from the interior prefix.
    let sorted = vec![0, 2];
    assert_eq!(rank_lookup(&sorted, 1, 9), 0);
    assert_eq!(rank_lookup(&sorted, 1, 2), 0);
    assert_eq!(rank_lookup(&sorted, 1, 0), 0);
}

#[test]
fn equalize_known_small_field() {
    // EscapeField [-1.0, -1.0, 2.0, 5.0]: n=4, two interior pixels, so the
    // exterior normalizer is 1/2. Ranks: both interior 0; 2.0 sits at
    // sorted slot 2 giving percentile 0; 5.0 at slot 3 giving 1/2.
    let field = vec![0, 0, escape_key(2.0), escape_key(5.0)];
    let out = equalize(&field).unwrap();
    assert_eq!(out.denominator, 2);
    assert_eq!(out.numerators, vec![0, 0, 0, 1]);

    let intensities: Vec<f64> = out
        .numerators
        .iter()
        .map(|n| grey(*n as f64 / out.denominator as f64))
        .collect();
    assert_eq!(intensities[0], 0.0);
    assert_eq!(intensities[1], 0.0);
    assert_eq!(intensities[2], 0.0);
    assert!(intensities[3] > intensities[2]);
    assert!((intensities[3] - 0.3700).abs() < 5e-4);
    assert!(intensities.iter().all(|g| (0.0..=1.0).contains(g)));
}

#[test]
fn equalize_handles_duplicate_keys() {
    let field = vec![0, escape_key(2.0), escape_key(2.0), escape_key(3.0)];
    let out = equalize(&field).unwrap();
    assert_eq!(out.denominator, 3);
    // Both 2.0 pixels share the leftmost matching slot, rank 0.
    assert_eq!(out.numerators, vec![0, 0, 0, 2]);
}

#[test]
fn equalize_rejects_all_interior_field() {
    assert_eq!(equalize(&vec![0, 0, 0]).unwrap_err(), FractalError::DegenerateHistogram);
    assert_eq!(equalize(&vec![]).unwrap_err(), FractalError::DegenerateHistogram);
}

#[test]
fn equalize_twice_is_identical() {
    let field = vec![0, escape_key(1.5), escape_key(0.25), 0, escape_key(7.0)];
    let a = equalize(&field).unwrap();
    let b = equalize(&field).unwrap();
    assert_eq!(a.numerators, b.numerators);
    assert_eq!(a.denominator, b.denominator);
}
