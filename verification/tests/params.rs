use mpc::params::{
    check_sizes, inputs_per_party, log_k, num_batches, party_inputs, random_sharings,
    total_sharings, THRESHOLD,
};

#[test]
fn logarithm_is_rounded_down() {
    assert_eq!(log_k(1), 0);
    assert_eq!(log_k(2), 1);
    assert_eq!(log_k(3), 1);
    assert_eq!(log_k(4), 2);
    assert_eq!(log_k(255), 7);
    assert_eq!(log_k(256), 8);
    assert_eq!(log_k(usize::MAX), usize::BITS as usize - 1);
}

#[test]
fn logarithm_bounds() {
    for k in 1..5000usize {
        let n = log_k(k);
        assert!(1usize << n <= k && k < 1usize << (n + 1));
    }
}

#[test]
fn sharings_for_a_mixing() {
    assert_eq!(total_sharings(256, 8, 1), 256 * 64 / 2 + 20);
    assert_eq!(total_sharings(256, 8, 5), 2750);
    assert_eq!(total_sharings(1, 0, 0), 20);
    assert!(6 * total_sharings(256, 8, 5) > 256 * 8 * 8);
}

#[test]
fn batches_are_rounded_down() {
    assert_eq!(num_batches(2750, 1000), 2);
    assert_eq!(num_batches(20, 1000), 1);
    assert_eq!(num_batches(1000, 1000), 1);
    assert_eq!(num_batches(2000, 1000), 2);
    assert_eq!(num_batches(0, 7), 1);
}

#[test]
fn inputs_of_the_parties() {
    assert_eq!(inputs_per_party(256, 1), 86);
    assert_eq!(inputs_per_party(4, 1), 2);
    assert_eq!(inputs_per_party(3, 1), 2);
    assert_eq!(inputs_per_party(2, 1), 1);
    assert_eq!(party_inputs(0, 2), vec![0, 1]);
    assert_eq!(party_inputs(3, 2), vec![6, 7]);
    assert_eq!(party_inputs(usize::MAX, 1), vec![usize::MAX as u64]);
}

#[test]
fn inputs_are_disjoint_and_enough() {
    let (k, num_faults) = (16, 2);
    let count = inputs_per_party(k, num_faults);
    let mut all: Vec<u64> = Vec::new();
    for id in 0..2 * num_faults + 1 {
        all.extend(party_inputs(id, count));
    }
    assert!(all.len() > k);
    let expected: Vec<u64> = (0..all.len() as u64).collect();
    assert_eq!(all, expected);
}

#[test]
fn sizes_that_fit() {
    assert!(check_sizes(3, 4, 1, 1000, 256));
    assert!(check_sizes(0, 0, 0, 1, 1));
    assert!(!check_sizes(3, 4, 1, 1000, 0));
    assert!(!check_sizes(3, 4, 1, 0, 256));
    assert!(check_sizes(usize::MAX / THRESHOLD, 4, 1, 1000, 2));
    assert!(!check_sizes(usize::MAX / THRESHOLD + 1, 4, 1, 1000, 2));
    assert!(check_sizes(3, usize::MAX / 10, 1, 1000, 256));
    assert!(!check_sizes(3, usize::MAX / 10 + 1, 1, 1000, 256));
    assert!(check_sizes(3, 4, (usize::MAX - 1) / 2, 1000, 256));
    assert!(!check_sizes(3, 4, usize::MAX / 2 + 1, 1000, 256));
    assert!(!check_sizes(0, 4, 1, 1000, usize::MAX / 2 + 1));
    assert!(!check_sizes(0, 4, 1, 1000, usize::MAX / 2));
    assert!(!check_sizes(usize::MAX / THRESHOLD, 4, 0, 1000, 1 << 20));
}

#[test]
fn random_sharings_for_a_mixing() {
    assert_eq!(random_sharings(1), Some(0));
    assert_eq!(random_sharings(2), Some(8));
    assert_eq!(random_sharings(3), Some(8));
    assert_eq!(random_sharings(256), Some(65536));
    assert_eq!(random_sharings(257), Some(65536));
    assert_eq!(random_sharings(usize::MAX), None);
    assert_eq!(random_sharings(1 << (usize::BITS - 3)), None);
}
