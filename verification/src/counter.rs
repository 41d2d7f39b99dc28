//! A counter built from one append per task index.
//!
//! A run of `n` tasks starts from an empty container; task `i` appends its
//! own index `i` exactly once. Whatever order the tasks get to append in,
//! the final contents are a permutation of `0, 1, ..., n - 1`. This module
//! states that invariant, provides the append step and a sequential run,
//! and proves that every append order yields a valid permutation. A caller
//! that drives the appends concurrently keeps the guarantee as long as each
//! append happens under exclusive access, in some single total order.

use vstd::multiset::Multiset;
use vstd::prelude::*;

verus! {

broadcast use vstd::seq_lib::group_to_multiset_ensures;

/// The sequence `0, 1, ..., n - 1` of task indices.
pub open spec fn range_seq(n: nat) -> Seq<u64> {
    Seq::new(n, |i: int| i as u64)
}

/// Holds when `s` contains each integer in `[0, n)` exactly once and
/// nothing else, in any order: `s` is a permutation of `0, 1, ..., n - 1`.
pub open spec fn is_permutation_of_range(s: Seq<u64>, n: nat) -> bool {
    s.to_multiset() == range_seq(n).to_multiset()
}

/// Each index below `n` occurs exactly once in `range_seq(n)`, and
/// nothing else occurs at all.
pub proof fn lemma_range_seq_counts(n: nat)
    requires
        n <= u64::MAX,
    ensures
        forall|k: u64| #[trigger] range_seq(n).to_multiset().count(k) == (if (k as nat) < n {
            1nat
        } else {
            0nat
        }),
    decreases n,
{
    if n == 0 {
        assert(range_seq(0) =~= Seq::<u64>::empty());
        assert(range_seq(0).to_multiset() =~= Multiset::<u64>::empty());
    } else {
        let m = (n - 1) as nat;
        lemma_range_seq_counts(m);
        assert(range_seq(n) =~= range_seq(m).push(m as u64));
        assert(range_seq(n).to_multiset() =~= range_seq(m).to_multiset().insert(m as u64));
    }
}

/// A permutation of `[0, n)` has length `n` and holds each index in
/// `[0, n)` exactly once, and no other value.
pub proof fn lemma_permutation_counts(s: Seq<u64>, n: nat)
    requires
        n <= u64::MAX,
        is_permutation_of_range(s, n),
    ensures
        s.len() == n,
        forall|k: u64| (k as nat) < n ==> #[trigger] s.to_multiset().count(k) == 1,
        forall|k: u64| (k as nat) >= n ==> #[trigger] s.to_multiset().count(k) == 0,
{
    lemma_range_seq_counts(n);
    assert(s.len() == s.to_multiset().len());
    assert(range_seq(n).len() == range_seq(n).to_multiset().len());
}

/// The one step a task performs: append the task's own index to the
/// shared container, under exclusive access.
pub fn append_index(v: &mut Vec<u64>, i: u64)
    ensures
        final(v)@ == old(v)@.push(i),
{
    v.push(i);
}

/// Runs the `n` append tasks one after another in index order and returns
/// the final contents: a permutation of `[0, n)` of length exactly `n`.
/// For `n == 0` it returns the empty container at once.
pub fn run(n: usize) -> (r: Vec<u64>)
    ensures
        r@.len() == n,
        is_permutation_of_range(r@, n as nat),
{
    let mut v: Vec<u64> = Vec::new();
    let mut i: usize = 0;
    while i < n
        invariant
            i <= n,
            v@ == range_seq(i as nat),
        decreases n - i,
    {
        append_index(&mut v, i as u64);
        assert(v@ =~= range_seq((i + 1) as nat));
        i = i + 1;
    }
    v
}

/// The contents of the container after the appends of `schedule` have been
/// applied in order to an initially empty container.
pub open spec fn replay(schedule: Seq<u64>) -> Seq<u64>
    decreases schedule.len(),
{
    if schedule.len() == 0 {
        Seq::<u64>::empty()
    } else {
        replay(schedule.drop_last()).push(schedule.last())
    }
}

/// Replaying a schedule of appends reproduces the schedule itself.
pub proof fn lemma_replay_is_schedule(schedule: Seq<u64>)
    ensures
        replay(schedule) == schedule,
    decreases schedule.len(),
{
    if schedule.len() == 0 {
        assert(replay(schedule) =~= schedule);
    } else {
        lemma_replay_is_schedule(schedule.drop_last());
        assert(replay(schedule) =~= schedule);
    }
}

/// Concurrent appends never corrupt the container: whatever order the
/// tasks acquire exclusive access in, as long as each index in `[0, n)`
/// appends itself exactly once, the final contents are a permutation of
/// `[0, n)` -- never a sequence with duplicates or with length other
/// than `n`.
pub proof fn lemma_schedule_yields_permutation(schedule: Seq<u64>, n: nat)
    requires
        is_permutation_of_range(schedule, n),
    ensures
        is_permutation_of_range(replay(schedule), n),
        replay(schedule).len() == n,
{
    lemma_replay_is_schedule(schedule);
    assert(schedule.len() == schedule.to_multiset().len());
    assert(range_seq(n).len() == range_seq(n).to_multiset().len());
}

/// Decides whether `v` holds a permutation of `[0, n)`, by counting the
/// occurrences of each index.
pub fn check_permutation(v: &Vec<u64>, n: usize) -> (r: bool)
    ensures
        r == is_permutation_of_range(v@, n as nat),
{
    proof {
        lemma_range_seq_counts(n as nat);
    }
    if v.len() != n {
        proof {
            if is_permutation_of_range(v@, n as nat) {
                lemma_permutation_counts(v@, n as nat);
            }
        }
        return false;
    }
    let mut counts: Vec<u64> = Vec::new();
    let mut k: usize = 0;
    while k < n
        invariant
            k <= n,
            counts@.len() == k,
            forall|t: int| 0 <= t < k ==> counts@[t] == 0,
        decreases n - k,
    {
        counts.push(0);
        k = k + 1;
    }
    assert(v@.subrange(0, 0) =~= Seq::<u64>::empty());
    assert(v@.subrange(0, 0).to_multiset() =~= Multiset::<u64>::empty());
    let mut j: usize = 0;
    while j < n
        invariant
            j <= n,
            n == v@.len(),
            counts@.len() == n,
            forall|t: int| 0 <= t < j ==> (v@[t] as nat) < n as nat,
            forall|c: u64| #[trigger] v@.subrange(0, j as int).to_multiset().count(c)
                <= j,
            forall|t: int| 0 <= t < n ==> counts@[t] == v@.subrange(
                0,
                j as int,
            ).to_multiset().count(t as u64),
        decreases n - j,
    {
        let x = v[j];
        assert(v@.subrange(0, j + 1) =~= v@.subrange(0, j as int).push(v@[j as int]));
        assert(v@.subrange(0, j + 1).to_multiset() =~= v@.subrange(
            0,
            j as int,
        ).to_multiset().insert(x));
        if x >= n as u64 {
            proof {
                assert(v@.contains(x)) by {
                    assert(v@[j as int] == x);
                }
                assert(v@.to_multiset().count(x) > 0);
                assert(range_seq(n as nat).to_multiset().count(x) == 0);
            }
            return false;
        }
        let xi = x as usize;
        counts[xi] = counts[xi] + 1;
        j = j + 1;
    }
    assert(v@.subrange(0, n as int) =~= v@);
    let mut k2: usize = 0;
    while k2 < n
        invariant
            k2 <= n,
            n == v@.len(),
            counts@.len() == n,
            forall|t: int| 0 <= t < n ==> counts@[t] == v@.to_multiset().count(t as u64),
            forall|k: u64| (k as nat) < n as nat ==> #[trigger] range_seq(
                n as nat,
            ).to_multiset().count(k) == 1,
            forall|k: u64| (k as nat) >= n as nat ==> #[trigger] range_seq(
                n as nat,
            ).to_multiset().count(k) == 0,
            forall|t: int| 0 <= t < n ==> (v@[t] as nat) < n as nat,
            forall|t: int| 0 <= t < k2 ==> counts@[t] == 1,
        decreases n - k2,
    {
        if counts[k2] != 1 {
            proof {
                assert(v@.to_multiset().count(k2 as u64) != 1);
                assert(range_seq(n as nat).to_multiset().count(k2 as u64) == 1);
            }
            return false;
        }
        k2 = k2 + 1;
    }
    proof {
        assert forall|c: u64| v@.to_multiset().count(c) == range_seq(n as nat).to_multiset().count(
            c,
        ) by {
            if (c as nat) < n as nat {
                assert(counts@[c as int] == 1);
            } else {
                if v@.to_multiset().count(c) > 0 {
                    assert(v@.contains(c));
                    let t = choose|t: int| 0 <= t < v@.len() && v@[t] == c;
                    assert((v@[t] as nat) < n as nat);
                }
            }
        }
        assert(v@.to_multiset() =~= range_seq(n as nat).to_multiset());
    }
    true
}

} // verus!
