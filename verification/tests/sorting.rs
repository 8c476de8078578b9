use parsort::merge::{is_sorted, merge_sort};
use parsort::pmerge::rayon_merge;
use parsort::psort::{rayon_merge_sort, thread_merge_sort};

#[test]
fn test_is_sorted() {
    let list: Vec<u64> = vec![2, 3, 10];
    assert!(is_sorted(&list));
    let list: Vec<u64> = vec![1, 2, 3, 4, 5, 6, 7, 8, 9, 10];
    assert!(is_sorted(&list));
}

#[test]
fn test_is_not_sorted() {
    let list: Vec<u64> = vec![3, 2, 10];
    assert!(!is_sorted(&list));
}

#[test]
fn test_merge_sort() {
    let mut list: Vec<u64> = vec![2, 5, 10, 3, 4, 1, 6, 9, 8, 7];
    assert!(!is_sorted(&list));
    merge_sort(&mut list);
    assert_eq!(list, vec![1, 2, 3, 4, 5, 6, 7, 8, 9, 10]);
}

#[test]
fn test_thread_merge_sort_with_thread_merge() {
    let mut list: Vec<u64> = vec![2, 5, 10, 3, 4, 1, 6, 9, 8, 7];
    assert!(!is_sorted(&list));
    thread_merge_sort(&mut list, 2, true);
    assert_eq!(list, vec![1, 2, 3, 4, 5, 6, 7, 8, 9, 10]);
}

#[test]
fn test_thread_merge_sort_with_serial_merge() {
    let mut list: Vec<u64> = vec![2, 5, 10, 3, 4, 1, 6, 9, 8, 7];
    assert!(!is_sorted(&list));
    thread_merge_sort(&mut list, 2, false);
    assert_eq!(list, vec![1, 2, 3, 4, 5, 6, 7, 8, 9, 10]);
}

#[test]
fn test_rayon_merge() {
    let mut output: Vec<u64> = vec![0; 10];
    let left: Vec<u64> = vec![1, 3, 3, 5, 9, 9];
    let right: Vec<u64> = vec![1, 2, 4, 5];
    rayon_merge(&left, &right, &mut output);
    assert_eq!(output, vec![1, 1, 2, 3, 3, 4, 5, 5, 9, 9]);
}

#[test]
fn test_rayon_merge_sort() {
    let mut list: Vec<u64> = vec![2, 5, 10, 3, 4, 1, 6, 9, 8, 7];
    assert!(!is_sorted(&list));
    rayon_merge_sort(&mut list, false);
    assert_eq!(list, vec![1, 2, 3, 4, 5, 6, 7, 8, 9, 10]);
}

#[test]
fn test_rayon_merge_sort_with_rayon_merge() {
    let mut list: Vec<u64> = vec![2, 5, 10, 3, 4, 1, 6, 9, 8, 7];
    assert!(!is_sorted(&list));
    rayon_merge_sort(&mut list, true);
    assert_eq!(list, vec![1, 2, 3, 4, 5, 6, 7, 8, 9, 10]);
}
