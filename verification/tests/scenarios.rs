use parsort::budget::split_budget;
use parsort::corank::co_rank;
use parsort::merge::{is_sorted, merge, merge_sort};
use parsort::pmerge::thread_merge;
use parsort::psort::{rayon_merge_sort, thread_merge_sort};
use parsort::{sort, Backend, ConfigError, MergeParallelism, SortConfig};

fn config(backend: Backend, budget: u8, mp: MergeParallelism, threshold: usize) -> SortConfig {
    SortConfig {
        backend,
        worker_budget: budget,
        merge_parallelism: mp,
        sequential_merge_threshold: threshold,
    }
}

#[test]
fn merge_example() {
    let left: Vec<u64> = vec![1, 3, 3, 5, 9, 9];
    let right: Vec<u64> = vec![1, 2, 4, 5];
    let mut output: Vec<u64> = vec![0; 10];
    merge(&left, &right, &mut output);
    assert_eq!(output, vec![1, 1, 2, 3, 3, 4, 5, 5, 9, 9]);
}

#[test]
fn thread_merge_example_under_every_budget() {
    let left: Vec<u64> = vec![1, 3, 3, 5, 9, 9];
    let right: Vec<u64> = vec![1, 2, 4, 5];
    for budget in [1u8, 2, 3, 7, 255] {
        let mut output: Vec<u64> = vec![0; 10];
        thread_merge(&left, &right, &mut output, budget);
        assert_eq!(output, vec![1, 1, 2, 3, 3, 4, 5, 5, 9, 9]);
    }
}

#[test]
fn sort_example_under_every_backend_and_budget() {
    let input: Vec<u64> = vec![2, 5, 10, 3, 4, 1, 6, 9, 8, 7];
    let expected: Vec<u64> = vec![1, 2, 3, 4, 5, 6, 7, 8, 9, 10];
    for backend in [Backend::ThreadBudgeted, Backend::TaskPool, Backend::Cooperative] {
        for budget in [1u8, 2, 3, 8, 24, 255] {
            for mp in [MergeParallelism::Sequential, MergeParallelism::Balanced] {
                for threshold in [1usize, 2, 64] {
                    let mut list = input.clone();
                    let r = sort(&mut list, &config(backend, budget, mp, threshold));
                    assert!(r.is_ok());
                    assert_eq!(list, expected);
                }
            }
        }
    }
}

#[test]
fn sort_empty_returns_empty() {
    let mut list: Vec<u64> = vec![];
    merge_sort(&mut list);
    assert_eq!(list, Vec::<u64>::new());

    let mut list: Vec<u64> = vec![];
    thread_merge_sort(&mut list, 4, true);
    assert_eq!(list, Vec::<u64>::new());

    let mut list: Vec<u64> = vec![];
    rayon_merge_sort(&mut list, true);
    assert_eq!(list, Vec::<u64>::new());
}

#[test]
fn sort_single_element_unchanged() {
    let mut list: Vec<u64> = vec![7];
    merge_sort(&mut list);
    assert_eq!(list, vec![7]);

    let mut list: Vec<u64> = vec![7];
    thread_merge_sort(&mut list, 4, false);
    assert_eq!(list, vec![7]);

    let mut list: Vec<u64> = vec![7];
    rayon_merge_sort(&mut list, false);
    assert_eq!(list, vec![7]);
}

#[test]
fn sort_already_sorted_unchanged() {
    let input: Vec<u64> = vec![1, 2, 3, 4, 5];
    for backend in [Backend::ThreadBudgeted, Backend::TaskPool, Backend::Cooperative] {
        for mp in [MergeParallelism::Sequential, MergeParallelism::Balanced] {
            let mut list = input.clone();
            let r = sort(&mut list, &config(backend, 4, mp, 2));
            assert!(r.is_ok());
            assert_eq!(list, input);
        }
    }
}

#[test]
fn sort_with_equal_keys() {
    let mut list: Vec<u64> = vec![5, 1, 5, 5, 0, 1, 5];
    thread_merge_sort(&mut list, 3, true);
    assert_eq!(list, vec![0, 1, 1, 5, 5, 5, 5]);
    assert!(is_sorted(&list));
}

#[test]
fn invalid_worker_budget_is_rejected() {
    let input: Vec<u64> = vec![3, 1, 2];
    for backend in [Backend::ThreadBudgeted, Backend::Cooperative] {
        let mut list = input.clone();
        let r = sort(&mut list, &config(backend, 0, MergeParallelism::Balanced, 2));
        assert_eq!(r, Err(ConfigError::InvalidWorkerBudget));
        assert_eq!(list, input);
    }
}

#[test]
fn task_pool_ignores_worker_budget() {
    let mut list: Vec<u64> = vec![3, 1, 2];
    let r = sort(&mut list, &config(Backend::TaskPool, 0, MergeParallelism::Balanced, 2));
    assert!(r.is_ok());
    assert_eq!(list, vec![1, 2, 3]);
}

#[test]
fn invalid_merge_threshold_is_rejected() {
    let input: Vec<u64> = vec![3, 1, 2];
    let mut list = input.clone();
    let r = sort(&mut list, &config(Backend::TaskPool, 4, MergeParallelism::Balanced, 0));
    assert_eq!(r, Err(ConfigError::InvalidMergeThreshold));
    assert_eq!(list, input);
}

#[test]
fn co_rank_finds_the_upper_split() {
    // Target value is bigger[1] == 2; the first element of `smaller`
    // strictly above it sits at index 3.
    let smaller: Vec<u64> = vec![1, 2, 2, 3];
    let bigger: Vec<u64> = vec![0, 2, 5, 9];
    assert_eq!(co_rank(&smaller, &bigger, 1), 3);
    // Target value 0: everything in `smaller` is above it.
    assert_eq!(co_rank(&smaller, &bigger, 0), 0);
    // Target value 9: nothing in `smaller` is above it.
    assert_eq!(co_rank(&smaller, &bigger, 3), 4);
}

#[test]
fn co_rank_prefix_matches_merge_prefix() {
    // The first i + j elements of the merge hold exactly the elements of
    // smaller[..j] and bigger[..i].
    let smaller: Vec<u64> = vec![1, 2, 2, 3];
    let bigger: Vec<u64> = vec![0, 2, 5, 9];
    for i in 0..bigger.len() {
        let j = co_rank(&smaller, &bigger, i);
        let mut merged: Vec<u64> = vec![0; smaller.len() + bigger.len()];
        merge(&smaller, &bigger, &mut merged);
        let mut union: Vec<u64> = smaller[..j].to_vec();
        union.extend_from_slice(&bigger[..i]);
        union.sort();
        assert_eq!(&merged[..i + j], &union[..]);
    }
}

#[test]
fn split_budget_rounds_and_clamps() {
    // Half share of 4 workers: (2*5*4 + 10) / 20 == 2.
    assert_eq!(split_budget(4, 5, 10), 2);
    // 3.6 rounds to 4, clamped to budget - 1 == 3.
    assert_eq!(split_budget(4, 9, 10), 3);
    // Zero share still keeps one worker.
    assert_eq!(split_budget(2, 0, 10), 1);
    // Full share keeps one worker for the upper side.
    assert_eq!(split_budget(2, 10, 10), 1);
    // 2.4 rounds down to 2.
    assert_eq!(split_budget(4, 6, 10), 2);
}
