use parsort::merge::{is_sorted, merge_sort};
use parsort::psort::{rayon_merge_sort, thread_merge_sort};

/// Deterministic pseudo-random permutation-like input in `[0, modulus)`.
fn pseudo_random(n: usize, modulus: u64) -> Vec<u64> {
    let mut state: u64 = 0x9e37_79b9_7f4a_7c15;
    let mut out: Vec<u64> = Vec::with_capacity(n);
    for _ in 0..n {
        state = state.wrapping_mul(6364136223846793005).wrapping_add(1442695040888963407);
        out.push((state >> 11) % modulus);
    }
    out
}

const LARGE: usize = 5_000_000;

#[test]
fn large_sequential_merge_sort_matches_reference() {
    let input = pseudo_random(LARGE, LARGE as u64);
    assert!(!is_sorted(&input));
    let mut reference = input.clone();
    reference.sort();
    let mut list = input;
    merge_sort(&mut list);
    assert!(is_sorted(&list));
    assert_eq!(list, reference);
}

#[test]
fn large_thread_merge_sort_matches_reference() {
    let input = pseudo_random(LARGE, LARGE as u64);
    let mut reference = input.clone();
    reference.sort();
    let mut list = input;
    thread_merge_sort(&mut list, 24, true);
    assert!(is_sorted(&list));
    assert_eq!(list, reference);
}

#[test]
fn large_rayon_merge_sort_matches_reference() {
    let input = pseudo_random(LARGE, LARGE as u64);
    let mut reference = input.clone();
    reference.sort();
    let mut list = input;
    rayon_merge_sort(&mut list, false);
    assert!(is_sorted(&list));
    assert_eq!(list, reference);
}
