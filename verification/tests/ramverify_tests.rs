//! The determinism mask and the masked comparison of RAM snapshots.

use melonink::ramverify::{compare_candidate, determinism_mask, size_mismatch};

#[test]
fn mask_marks_bytes_where_any_reference_differs() {
    let refs = vec![vec![1u8, 2, 3, 4], vec![1, 9, 3, 4], vec![1, 2, 3, 7]];
    let (mask, nondet) = determinism_mask(&refs);
    assert_eq!(mask, vec![true, false, true, false]);
    assert_eq!(nondet, 2);
}

#[test]
fn size_mismatch_names_the_first_odd_reference() {
    assert_eq!(size_mismatch(&vec![vec![0u8; 4], vec![0; 4]]), None);
    assert_eq!(size_mismatch(&vec![vec![0u8; 4], vec![0; 4], vec![0; 3], vec![0; 5]]), Some(2));
}

#[test]
fn candidate_is_compared_on_deterministic_bytes_only() {
    let reference = [1u8, 2, 3, 4];
    let mask = [true, false, true, true];
    let (n, first) = compare_candidate(&reference, &mask, &[1, 99, 3, 4]);
    assert_eq!(n, 0);
    assert!(first.is_empty());
    let (n, first) = compare_candidate(&reference, &mask, &[0, 99, 3, 5]);
    assert_eq!(n, 2);
    assert_eq!(first, vec![(0, 1, 0), (3, 4, 5)]);
}

#[test]
fn only_the_first_eight_mismatches_are_listed() {
    let reference = [0u8; 20];
    let mask = [true; 20];
    let cand = [1u8; 20];
    let (n, first) = compare_candidate(&reference, &mask, &cand);
    assert_eq!(n, 20);
    assert_eq!(first.len(), 8);
    assert_eq!(first[7], (7, 0, 1));
}

#[test]
fn every_reference_passes_its_own_mask() {
    let refs = vec![vec![5u8, 6, 7, 8, 9], vec![5, 0, 7, 8, 1], vec![5, 6, 7, 3, 9]];
    let (mask, _) = determinism_mask(&refs);
    for r in &refs {
        assert_eq!(compare_candidate(&refs[0], &mask, r).0, 0);
    }
}

#[test]
fn another_reference_only_narrows_the_mask() {
    let two = vec![vec![1u8, 2, 3, 4], vec![1, 2, 9, 4]];
    let mut three = two.clone();
    three.push(vec![1, 0, 3, 4]);
    let (m2, _) = determinism_mask(&two);
    let (m3, _) = determinism_mask(&three);
    assert_eq!(m2, vec![true, true, false, true]);
    assert_eq!(m3, vec![true, false, false, true]);
    assert!(m3.iter().zip(&m2).all(|(&a, &b)| !a || b));
}
