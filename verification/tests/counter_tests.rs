use hello_rust::counter::{append_index, check_permutation, run};

#[test]
fn run_zero_is_empty() {
    let r = run(0);
    assert_eq!(r.len(), 0);
    assert!(check_permutation(&r, 0));
}

#[test]
fn run_returns_each_index_exactly_once() {
    let r = run(10);
    assert_eq!(r.len(), 10);
    for k in 0u64..10 {
        assert_eq!(r.iter().filter(|&&x| x == k).count(), 1);
    }
}

#[test]
fn repeated_runs_always_yield_permutations() {
    for _ in 0..20 {
        let r = run(10);
        assert!(check_permutation(&r, 10));
    }
}

#[test]
fn append_index_pushes_the_index() {
    let mut v: Vec<u64> = Vec::new();
    append_index(&mut v, 7);
    append_index(&mut v, 3);
    assert_eq!(v, vec![7, 3]);
}

#[test]
fn check_permutation_accepts_any_order() {
    assert!(check_permutation(&vec![2, 0, 1], 3));
    assert!(check_permutation(&vec![0, 1, 2], 3));
    assert!(check_permutation(&vec![], 0));
}

#[test]
fn check_permutation_rejects_duplicates() {
    assert!(!check_permutation(&vec![0, 1, 1], 3));
}

#[test]
fn check_permutation_rejects_wrong_length() {
    assert!(!check_permutation(&vec![0, 1], 3));
    assert!(!check_permutation(&vec![0, 1, 2, 2], 3));
}

#[test]
fn check_permutation_rejects_out_of_range() {
    assert!(!check_permutation(&vec![0, 1, 3], 3));
}
