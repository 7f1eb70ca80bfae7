use sayhi::similarity::{compare_templates, compare_templates_batch, SCORE_SCALE};

fn pattern(len: usize, seed: u32) -> Vec<u8> {
    let mut v = Vec::new();
    let mut x: u32 = seed;
    for _ in 0..len {
        x = x.wrapping_mul(1103515245).wrapping_add(12345);
        v.push((x >> 16) as u8);
    }
    v
}

#[test]
fn self_score_is_full() {
    let t = pattern(4096, 7);
    assert_eq!(compare_templates(&t, &t), SCORE_SCALE);
    let b = vec![0u8, 255, 0, 255];
    assert_eq!(compare_templates(&b, &b), 10000);
}

#[test]
fn unequal_lengths_score_zero() {
    let a = pattern(4096, 1);
    let b = pattern(4095, 1);
    assert_eq!(compare_templates(&a, &b), 0);
    assert_eq!(compare_templates(&[1, 2, 3], &[1, 2]), 0);
}

#[test]
fn flat_template_scores_zero() {
    let flat = vec![128u8; 4096];
    let other = pattern(4096, 3);
    assert_eq!(compare_templates(&flat, &other), 0);
    assert_eq!(compare_templates(&other, &flat), 0);
    assert_eq!(compare_templates(&flat, &flat), 0);
    assert_eq!(compare_templates(&[], &[]), 0);
}

#[test]
fn score_stays_in_unit_range() {
    for seed in 0..20u32 {
        let a = pattern(256, seed);
        let b = pattern(256, seed + 100);
        let s = compare_templates(&a, &b);
        assert!(s <= SCORE_SCALE);
    }
}

#[test]
fn uncorrelated_scores_half() {
    assert_eq!(compare_templates(&[0, 0, 255, 255], &[0, 255, 0, 255]), 5000);
}

#[test]
fn anticorrelated_scores_zero() {
    assert_eq!(compare_templates(&[0, 255, 0, 255], &[255, 0, 255, 0]), 0);
}

#[test]
fn positive_correlation_half_way() {
    // r = 1/sqrt(3), so (r + 1) / 2 = 0.78867...
    assert_eq!(compare_templates(&[0, 0, 0, 255], &[0, 0, 255, 255]), 7886);
}

#[test]
fn batch_score_is_asymmetric() {
    let x = vec![0u8, 255, 0, 255];
    let y = vec![255u8, 0, 255, 0];
    let mut big = vec![x.clone()];
    for _ in 0..9 {
        big.push(y.clone());
    }
    let small = vec![x.clone()];
    assert_eq!(compare_templates_batch(&big, &small), 2000);
    assert_eq!(compare_templates_batch(&small, &big), 10000);
}

#[test]
fn batch_score_of_empty_live_is_zero() {
    let stored = vec![pattern(64, 1), pattern(64, 2)];
    assert_eq!(compare_templates_batch(&[], &stored), 0);
    assert_eq!(compare_templates_batch(&[], &[]), 0);
}

#[test]
fn batch_score_against_empty_store_is_zero() {
    let live = vec![pattern(64, 1)];
    assert_eq!(compare_templates_batch(&live, &[]), 0);
}

#[test]
fn batch_score_takes_best_match_and_mean() {
    let a = vec![0u8, 0, 255, 255];
    let b = vec![0u8, 255, 0, 255];
    let live = vec![a.clone(), b.clone()];
    let stored = vec![a.clone()];
    // best scores 10000 and 5000
    assert_eq!(compare_templates_batch(&live, &stored), 7500);
}
