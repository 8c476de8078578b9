use parsort::merge::{is_sorted, merge_sort};
use parsort::psort::{rayon_merge_sort, thread_merge_sort};
use parsort::{sort, Backend, MergeParallelism, SortConfig};

/// Deterministic pseudo-random values, so every run sees the same inputs.
fn pseudo_random(n: usize, modulus: u64) -> Vec<u64> {
    let mut state: u64 = 0x2545_f491_4f6c_dd1d;
    let mut out: Vec<u64> = Vec::with_capacity(n);
    for _ in 0..n {
        state = state.wrapping_mul(6364136223846793005).wrapping_add(1442695040888963407);
        out.push((state >> 11) % modulus);
    }
    out
}

#[test]
fn backends_agree_on_random_input() {
    let input = pseudo_random(20_000, 1_000);
    let mut reference = input.clone();
    reference.sort();

    let mut sequential = input.clone();
    merge_sort(&mut sequential);
    assert!(is_sorted(&sequential));
    assert_eq!(sequential, reference);

    for budget in [1u8, 2, 5, 24] {
        for balanced in [false, true] {
            let mut list = input.clone();
            thread_merge_sort(&mut list, budget, balanced);
            assert_eq!(list, reference);
        }
    }

    for balanced in [false, true] {
        let mut list = input.clone();
        rayon_merge_sort(&mut list, balanced);
        assert_eq!(list, reference);
    }

    for backend in [Backend::ThreadBudgeted, Backend::TaskPool, Backend::Cooperative] {
        let mut list = input.clone();
        let r = sort(
            &mut list,
            &SortConfig {
                backend,
                worker_budget: 8,
                merge_parallelism: MergeParallelism::Balanced,
                sequential_merge_threshold: 32,
            },
        );
        assert!(r.is_ok());
        assert_eq!(list, reference);
    }
}

#[test]
fn sorting_twice_equals_sorting_once() {
    let input = pseudo_random(5_000, 50);
    let mut once = input.clone();
    thread_merge_sort(&mut once, 4, true);
    let mut twice = once.clone();
    thread_merge_sort(&mut twice, 4, true);
    assert_eq!(twice, once);

    let mut twice_rayon = once.clone();
    rayon_merge_sort(&mut twice_rayon, true);
    assert_eq!(twice_rayon, once);
}
