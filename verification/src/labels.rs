//! Label numbers: which of them are free below the largest one in use, and
//! which one the next task gets.

use crate::task::Task;
use vstd::prelude::*;
use vstd::seq_lib::{to_multiset_contains, to_multiset_update};

verus! {

/// Whether no number of `s` is smaller than one before it.
pub open spec fn ascending(s: Seq<u64>) -> bool {
    forall|i: int, j: int| 0 <= i <= j < s.len() ==> s[i] <= s[j]
}

/// Whether every number of `s` is larger than all before it.
pub open spec fn increasing(s: Seq<u64>) -> bool {
    forall|i: int, j: int| 0 <= i < j < s.len() ==> s[i] < s[j]
}

/// Whether some number of `ids` is larger than `k`.
pub open spec fn below_some(ids: Seq<u64>, k: u64) -> bool {
    exists|j: int| 0 <= j < ids.len() && k < ids[j]
}

/// Whether `k` is a gap of `ids`: positive, not in use, and below a number
/// that is in use.
pub open spec fn is_gap(ids: Seq<u64>, k: u64) -> bool {
    k >= 1 && !ids.contains(k) && below_some(ids, k)
}

/// Whether `n` is the smallest positive number that is not in `ids`.
pub open spec fn is_least_unused(ids: Seq<u64>, n: u64) -> bool {
    &&& n >= 1
    &&& !ids.contains(n)
    &&& forall|k: u64| 1 <= k < n ==> ids.contains(k)
}

/// Whether every positive number below 2^64 is in `ids`.
pub open spec fn all_used(ids: Seq<u64>) -> bool {
    forall|k: u64| 1 <= k ==> ids.contains(k)
}

/// Exchanging two members keeps what a sequence holds, and how often.
proof fn lemma_exchange_keeps_members(s: Seq<u64>, i: int, j: int)
    requires
        0 <= i < s.len(),
        0 <= j < s.len(),
    ensures
        s.update(i, s[j]).update(j, s[i]).to_multiset() == s.to_multiset(),
{
    broadcast use vstd::multiset::group_multiset_axioms;

    let mid = s.update(i, s[j]);
    to_multiset_update(s, i, s[j]);
    to_multiset_update(mid, j, s[i]);
    to_multiset_contains(s, s[j]);
    to_multiset_contains(s, s[i]);
    assert(mid.update(j, s[i]).to_multiset() =~= s.to_multiset());
}

/// Puts the numbers of `ids` in ascending order.
pub fn sort_ids(ids: &mut Vec<u64>)
    ensures
        ascending(final(ids)@),
        final(ids)@.to_multiset() == old(ids)@.to_multiset(),
        final(ids)@.len() == old(ids)@.len(),
{
    let mut i: usize = 1;
    while i < ids.len()
        invariant
            ids@.len() == old(ids)@.len(),
            ids@.to_multiset() == old(ids)@.to_multiset(),
            forall|a: int, b: int| 0 <= a <= b < i && b < ids@.len() ==> ids@[a] <= ids@[b],
        decreases ids.len() - i,
    {
        let mut j: usize = i;
        while j > 0 && ids[j - 1] > ids[j]
            invariant
                j <= i < ids@.len(),
                ids@.len() == old(ids)@.len(),
                ids@.to_multiset() == old(ids)@.to_multiset(),
                forall|a: int, b: int| 0 <= a <= b <= i && a != j && b != j ==> ids@[a] <= ids@[b],
                forall|b: int| j < b <= i ==> ids@[j as int] <= ids@[b],
            decreases j,
        {
            let low = ids[j];
            let high = ids[j - 1];
            proof {
                lemma_exchange_keeps_members(ids@, j - 1, j as int);
            }
            ids.set(j - 1, low);
            ids.set(j, high);
            j -= 1;
        }
        i += 1;
    }
}

impl Task {
    /// The gaps of `ids`, in ascending order: walking the numbers in use in
    /// ascending order, the positive numbers below the smallest, then those
    /// between each number and the next. `ids` itself is left in ascending order.
    pub fn find_available_ids(ids: &mut Vec<u64>) -> (available: Vec<u64>)
        ensures
            ascending(final(ids)@),
            final(ids)@.to_multiset() == old(ids)@.to_multiset(),
            increasing(available@),
            forall|k: u64| available@.contains(k) <==> is_gap(old(ids)@, k),
    {
        sort_ids(ids);
        let mut available: Vec<u64> = Vec::new();
        proof {
            assert forall|k: u64| ids@.contains(k) <==> old(ids)@.contains(k) by {
                to_multiset_contains(ids@, k);
                to_multiset_contains(old(ids)@, k);
            }
            assert forall|k: u64| below_some(ids@, k) <==> below_some(old(ids)@, k) by {
                if below_some(ids@, k) {
                    let j = choose|j: int| 0 <= j < ids@.len() && k < ids@[j];
                    assert(ids@.contains(ids@[j]));
                    let at = choose|at: int| 0 <= at < old(ids)@.len() && old(ids)@[at] == ids@[j];
                    assert(k < old(ids)@[at]);
                }
                if below_some(old(ids)@, k) {
                    let j = choose|j: int| 0 <= j < old(ids)@.len() && k < old(ids)@[j];
                    assert(old(ids)@.contains(old(ids)@[j]));
                    let at = choose|at: int| 0 <= at < ids@.len() && ids@[at] == old(ids)@[j];
                    assert(k < ids@[at]);
                }
            }
        }
        if ids.len() == 0 {
            assert forall|k: u64| !is_gap(ids@, k) by {}
            return available;
        }
        let first = ids[0];
        let mut k: u64 = 1;
        while k < first
            invariant
                1 <= k,
                k <= first || k == 1,
                ids@.len() > 0,
                first == ids@[0],
                ascending(ids@),
                increasing(available@),
                forall|n: u64| available@.contains(n) <==> 1 <= n < k,
            decreases first - k,
        {
            let ghost before = available@;
            available.push(k);
            proof {
                assert forall|n: u64| available@.contains(n) <==> 1 <= n < k + 1 by {
                    if available@.contains(n) {
                        let at = choose|at: int| 0 <= at < available@.len() && available@[at] == n;
                        if at < before.len() {
                            assert(before.contains(n));
                        }
                    }
                    if 1 <= n < k {
                        assert(before.contains(n));
                        let at = choose|at: int| 0 <= at < before.len() && before[at] == n;
                        assert(available@[at] == n);
                    }
                    if n == k {
                        assert(available@[before.len() as int] == n);
                    }
                }
                assert(increasing(available@)) by {
                    assert forall|i: int, j: int| 0 <= i < j < available@.len() implies available@[i]
                        < available@[j] by {
                        if j == before.len() {
                            assert(before.contains(before[i]));
                        }
                    }
                }
            }
            k += 1;
        }
        proof {
            assert forall|n: u64| 1 <= n < first implies !ids@.contains(n) by {
                if ids@.contains(n) {
                    let at = choose|at: int| 0 <= at < ids@.len() && ids@[at] == n;
                    assert(ids@[0] <= ids@[at]);
                }
            }
        }
        let mut i: usize = 0;
        while i + 1 < ids.len()
            invariant
                i < ids@.len(),
                first == ids@[0],
                ascending(ids@),
                increasing(available@),
                forall|n: u64|
                    available@.contains(n) <==> 1 <= n < ids@[i as int] && !ids@.contains(n),
            decreases ids.len() - i,
        {
            let low = ids[i];
            let high = ids[i + 1];
            assert(low <= high);
            let mut k: u64 = low;
            while k < high && k + 1 < high
                invariant
                    low <= k <= high,
                    i + 1 < ids@.len(),
                    low == ids@[i as int],
                    high == ids@[i + 1],
                    ascending(ids@),
                    increasing(available@),
                    forall|n: u64| available@.contains(n) <==> 1 <= n <= k && !ids@.contains(n),
                decreases high - k,
            {
                k += 1;
                let ghost before = available@;
                available.push(k);
                proof {
                    assert(!ids@.contains(k)) by {
                        if ids@.contains(k) {
                            let at = choose|at: int| 0 <= at < ids@.len() && ids@[at] == k;
                            if at <= i {
                                assert(ids@[at] <= ids@[i as int]);
                            } else {
                                assert(ids@[i + 1] <= ids@[at]);
                            }
                        }
                    }
                    assert forall|n: u64|
                        available@.contains(n) <==> 1 <= n <= k && !ids@.contains(n) by {
                        if available@.contains(n) {
                            let at = choose|at: int| 0 <= at < available@.len() && available@[at] == n;
                            if at < before.len() {
                                assert(before.contains(n));
                            }
                        }
                        if 1 <= n < k && !ids@.contains(n) {
                            assert(before.contains(n));
                            let at = choose|at: int| 0 <= at < before.len() && before[at] == n;
                            assert(available@[at] == n);
                        }
                        if n == k {
                            assert(available@[before.len() as int] == n);
                        }
                    }
                    assert(increasing(available@)) by {
                        assert forall|a: int, b: int|
                            0 <= a < b < available@.len() implies available@[a] < available@[b] by {
                            if b == before.len() {
                                assert(before.contains(before[a]));
                            }
                        }
                    }
                }
            }
            proof {
                assert(ids@.contains(high)) by {
                    assert(ids@[i + 1] == high);
                }
                assert(k == high || k + 1 == high);
            }
            i += 1;
        }
        proof {
            let last = ids@[ids@.len() - 1];
            assert forall|n: u64| available@.contains(n) <==> is_gap(ids@, n) by {
                if below_some(ids@, n) {
                    let j = choose|j: int| 0 <= j < ids@.len() && n < ids@[j];
                    assert(ids@[j] <= last);
                }
                if 1 <= n < last && !ids@.contains(n) {
                    assert(n < ids@[ids@.len() - 1]);
                }
            }
        }
        available
    }
}

/// Where there are gaps, the smallest of them is the smallest positive
/// number not in use; where there is none, that is one more than the largest
/// number in use.
pub proof fn lemma_smallest_gap_is_least_unused(ids: Seq<u64>, available: Seq<u64>)
    requires
        ascending(ids),
        increasing(available),
        forall|k: u64| available.contains(k) <==> is_gap(ids, k),
    ensures
        available.len() > 0 ==> is_least_unused(ids, available[0]),
        available.len() == 0 && ids.len() > 0 && ids.last() < u64::MAX ==> is_least_unused(
            ids,
            (ids.last() + 1) as u64,
        ),
        available.len() == 0 && ids.len() == 0 ==> is_least_unused(ids, 1),
{
    if available.len() > 0 {
        let n = available[0];
        assert(available.contains(n));
        assert forall|k: u64| 1 <= k < n implies ids.contains(k) by {
            if !ids.contains(k) {
                let j = choose|j: int| 0 <= j < ids.len() && n < ids[j];
                assert(k < ids[j]);
                assert(is_gap(ids, k));
                assert(available.contains(k));
                let at = choose|at: int| 0 <= at < available.len() && available[at] == k;
                if at > 0 {
                    assert(available[0] < available[at]);
                }
            }
        }
    } else if ids.len() > 0 {
        let largest = ids.last();
        assert forall|k: u64| 1 <= k <= largest implies ids.contains(k) by {
            if k == largest {
                assert(ids[ids.len() - 1] == k);
            } else if !ids.contains(k) {
                assert(k < ids[ids.len() - 1]);
                assert(is_gap(ids, k));
                assert(available.contains(k));
            }
        }
        assert forall|k: u64| largest < k implies !ids.contains(k) by {
            if ids.contains(k) {
                let at = choose|at: int| 0 <= at < ids.len() && ids[at] == k;
                assert(ids[at] <= ids[ids.len() - 1]);
            }
        }
    }
}

/// The number for the next task: the smallest positive number not in use,
/// which is the smallest gap of `ids` or, where there is none, one more than
/// the largest number in use. `None` where every positive number is in use.
/// `ids` itself is left in ascending order.
pub fn next_id(ids: &mut Vec<u64>) -> (next: Option<u64>)
    ensures
        ascending(final(ids)@),
        final(ids)@.to_multiset() == old(ids)@.to_multiset(),
        match next {
            Some(n) => is_least_unused(old(ids)@, n),
            None => all_used(old(ids)@),
        },
{
    sort_ids(ids);
    proof {
        assert forall|k: u64| ids@.contains(k) <==> old(ids)@.contains(k) by {
            to_multiset_contains(ids@, k);
            to_multiset_contains(old(ids)@, k);
        }
    }
    let mut candidate: u64 = 1;
    let mut i: usize = 0;
    while i < ids.len()
        invariant
            i <= ids@.len(),
            candidate >= 1,
            ascending(ids@),
            ids@.to_multiset() == old(ids)@.to_multiset(),
            forall|k: u64| ids@.contains(k) <==> old(ids)@.contains(k),
            forall|k: u64| 1 <= k < candidate ==> ids@.contains(k),
            forall|j: int| 0 <= j < i ==> ids@[j] < candidate,
        decreases ids.len() - i,
    {
        let id = ids[i];
        if id > candidate {
            proof {
                assert(!ids@.contains(candidate)) by {
                    if ids@.contains(candidate) {
                        let at = choose|at: int| 0 <= at < ids@.len() && ids@[at] == candidate;
                        if at >= i {
                            assert(ids@[i as int] <= ids@[at]);
                        }
                    }
                }
            }
            return Some(candidate);
        }
        if id == candidate {
            assert(ids@.contains(candidate)) by {
                assert(ids@[i as int] == candidate);
            }
            if candidate == u64::MAX {
                return None;
            }
            candidate += 1;
        }
        i += 1;
    }
    proof {
        assert(!ids@.contains(candidate)) by {
            if ids@.contains(candidate) {
                let at = choose|at: int| 0 <= at < ids@.len() && ids@[at] == candidate;
                assert(ids@[at] < candidate);
            }
        }
    }
    Some(candidate)
}

} // verus!
