use shared_state::sort::{sort_parallel, sort_partition, split_partitions};

#[test]
fn two_partitions_each_sorted_but_not_globally() {
    // Eight elements split into two partitions: each partition comes back
    // sorted, concatenated in original partition order, deliberately not
    // sorted across the boundary.
    let input = vec![5u64, 3, 8, 1, 9, 2, 7, 4];
    let out = sort_parallel(input, 2);
    assert_eq!(out, vec![1u64, 3, 5, 8, 2, 4, 7, 9]);
}

#[test]
fn single_partition_sorts_fully() {
    let out = sort_parallel(vec![9u64, 1, 8, 2, 7, 3], 1);
    assert_eq!(out, vec![1u64, 2, 3, 7, 8, 9]);
}

#[test]
fn empty_input() {
    assert_eq!(sort_parallel(Vec::new(), 3), Vec::new());
}

#[test]
fn more_partitions_than_elements() {
    let out = sort_parallel(vec![2u64, 1], 4);
    assert_eq!(out, vec![2u64, 1]);
}

#[test]
fn duplicate_elements_are_kept() {
    let out = sort_parallel(vec![4u64, 4, 1, 1], 1);
    assert_eq!(out, vec![1u64, 1, 4, 4]);
}

#[test]
fn split_is_contiguous_and_nearly_equal() {
    let v: Vec<u64> = (0..10).collect();
    let parts = split_partitions(&v, 3);
    assert_eq!(parts.len(), 3);
    // The first len % count partitions take one extra element.
    assert_eq!(parts[0], vec![0u64, 1, 2, 3]);
    assert_eq!(parts[1], vec![4u64, 5, 6]);
    assert_eq!(parts[2], vec![7u64, 8, 9]);
}

#[test]
fn sort_partition_sorts_in_place() {
    let mut part = vec![5u64, 3, 8, 1];
    sort_partition(&mut part);
    assert_eq!(part, vec![1u64, 3, 5, 8]);
}
