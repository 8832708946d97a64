//! Orders of positions: a row of positions put in the order of their keys,
//! those with equal keys in the order they came in.

use vstd::prelude::*;
use vstd::seq_lib::to_multiset_build;

verus! {

/// Whether every position of `positions` is below `count`.
pub open spec fn in_range(positions: Seq<usize>, count: nat) -> bool {
    forall|i: int| 0 <= i < positions.len() ==> (#[trigger] positions[i]) < count
}

/// Whether the keys of the positions of `positions` never fall.
pub open spec fn ordered(positions: Seq<usize>, keys: Seq<int>) -> bool {
    forall|i: int, j: int|
        0 <= i <= j < positions.len() ==> keys[positions[i] as int] <= keys[positions[j] as int]
}

/// The positions `from`, `from + 1`, up to but not `to`.
pub open spec fn positions_between(from: int, to: int) -> Seq<usize> {
    Seq::new((to - from) as nat, |i: int| (from + i) as usize)
}

/// `sorted` with `position` put in behind the last position whose key is not
/// larger than its own.
pub open spec fn inserted(sorted: Seq<usize>, position: usize, keys: Seq<int>) -> Seq<usize>
    decreases sorted.len(),
{
    if sorted.len() == 0 {
        seq![position]
    } else if keys[sorted.last() as int] <= keys[position as int] {
        sorted.push(position)
    } else {
        inserted(sorted.drop_last(), position, keys).push(sorted.last())
    }
}

/// `positions` in the order of their keys, positions with equal keys in the
/// order in which `positions` has them.
pub open spec fn sorted_by(positions: Seq<usize>, keys: Seq<int>) -> Seq<usize>
    decreases positions.len(),
{
    if positions.len() == 0 {
        Seq::empty()
    } else {
        inserted(sorted_by(positions.drop_last(), keys), positions.last(), keys)
    }
}

/// Putting a position in keeps the order of the keys, and adds that position
/// to what was there.
pub proof fn lemma_inserted(sorted: Seq<usize>, position: usize, keys: Seq<int>)
    requires
        ordered(sorted, keys),
    ensures
        ordered(inserted(sorted, position, keys), keys),
        inserted(sorted, position, keys).to_multiset() == sorted.to_multiset().insert(position),
        inserted(sorted, position, keys).len() == sorted.len() + 1,
    decreases sorted.len(),
{
    broadcast use vstd::multiset::group_multiset_axioms;

    let out = inserted(sorted, position, keys);
    if sorted.len() == 0 {
        to_multiset_build(sorted, position);
        assert(out == sorted.push(position));
    } else if keys[sorted.last() as int] <= keys[position as int] {
        to_multiset_build(sorted, position);
        assert forall|i: int, j: int| 0 <= i <= j < out.len() implies keys[out[i] as int]
            <= keys[out[j] as int] by {
            if j == sorted.len() && i < sorted.len() {
                assert(keys[sorted[i] as int] <= keys[sorted[sorted.len() - 1] as int]);
            }
        }
    } else {
        let head = sorted.drop_last();
        let last = sorted.last();
        assert(ordered(head, keys)) by {
            assert forall|i: int, j: int| 0 <= i <= j < head.len() implies keys[head[i] as int]
                <= keys[head[j] as int] by {
                assert(head[i] == sorted[i] && head[j] == sorted[j]);
            }
        }
        lemma_inserted(head, position, keys);
        let inner = inserted(head, position, keys);
        to_multiset_build(inner, last);
        to_multiset_build(head, last);
        assert(head.push(last) == sorted);
        assert(out.to_multiset() =~= sorted.to_multiset().insert(position));
        assert forall|i: int, j: int| 0 <= i <= j < out.len() implies keys[out[i] as int]
            <= keys[out[j] as int] by {
            if j == inner.len() && i < inner.len() {
                let p = inner[i];
                assert(inner.to_multiset().count(p) > 0) by {
                    inner.to_multiset_ensures();
                    assert(inner.contains(p));
                }
                if p != position {
                    head.to_multiset_ensures();
                    assert(head.to_multiset().count(p) > 0);
                    assert(head.contains(p));
                    let at = choose|at: int| 0 <= at < head.len() && head[at] == p;
                    assert(keys[sorted[at] as int] <= keys[sorted[sorted.len() - 1] as int]);
                }
            } else if j < inner.len() {
                assert(out[i] == inner[i] && out[j] == inner[j]);
            }
        }
    }
}

/// A row of positions in the order of their keys holds the same positions,
/// each as often as before, and their keys never fall.
pub proof fn lemma_sorted_by(positions: Seq<usize>, keys: Seq<int>)
    ensures
        ordered(sorted_by(positions, keys), keys),
        sorted_by(positions, keys).to_multiset() == positions.to_multiset(),
        sorted_by(positions, keys).len() == positions.len(),
    decreases positions.len(),
{
    broadcast use vstd::multiset::group_multiset_axioms;

    if positions.len() == 0 {
        assert(sorted_by(positions, keys) == positions);
    } else {
        let head = positions.drop_last();
        lemma_sorted_by(head, keys);
        lemma_inserted(sorted_by(head, keys), positions.last(), keys);
        to_multiset_build(head, positions.last());
        assert(head.push(positions.last()) == positions);
    }
}

/// Where every position of `sorted` from `at` on has a larger key than
/// `position`, and the one before `at` has not, `position` goes in at `at`.
proof fn lemma_inserted_at(sorted: Seq<usize>, position: usize, keys: Seq<int>, at: int)
    requires
        0 <= at <= sorted.len(),
        forall|i: int| at <= i < sorted.len() ==> keys[sorted[i] as int] > keys[position as int],
        at > 0 ==> keys[sorted[at - 1] as int] <= keys[position as int],
    ensures
        inserted(sorted, position, keys) == sorted.insert(at, position),
    decreases sorted.len(),
{
    if sorted.len() == 0 {
        assert(sorted.insert(at, position) == seq![position]);
    } else if at == sorted.len() {
        assert(sorted.insert(at, position) == sorted.push(position));
    } else {
        let head = sorted.drop_last();
        assert forall|i: int| at <= i < head.len() implies keys[head[i] as int]
            > keys[position as int] by {
            assert(head[i] == sorted[i]);
        }
        if at > 0 {
            assert(head[at - 1] == sorted[at - 1]);
        }
        lemma_inserted_at(head, position, keys, at);
        assert(head.insert(at, position).push(sorted.last()) == sorted.insert(at, position));
    }
}

/// The keys as integers.
pub open spec fn as_ints(keys: Seq<i64>) -> Seq<int> {
    Seq::new(keys.len(), |i: int| keys[i] as int)
}

/// `positions` in the order of their keys, positions with equal keys in the
/// order in which `positions` has them.
pub fn sort_positions(positions: &Vec<usize>, keys: &Vec<i64>) -> (sorted: Vec<usize>)
    requires
        in_range(positions@, keys@.len()),
    ensures
        sorted@ == sorted_by(positions@, as_ints(keys@)),
        in_range(sorted@, keys@.len()),
        sorted@.len() == positions@.len(),
{
    let mut sorted: Vec<usize> = Vec::new();
    let mut i: usize = 0;
    assert(positions@.take(0) == Seq::<usize>::empty());
    while i < positions.len()
        invariant
            i <= positions@.len(),
            in_range(positions@, keys@.len()),
            in_range(sorted@, keys@.len()),
            sorted@ == sorted_by(positions@.take(i as int), as_ints(keys@)),
            sorted@.len() == i,
        decreases positions.len() - i,
    {
        let position = positions[i];
        let key = keys[position];
        let mut at: usize = sorted.len();
        while at > 0 && keys[sorted[at - 1]] > key
            invariant
                at <= sorted@.len(),
                position < keys@.len(),
                key == keys@[position as int],
                in_range(sorted@, keys@.len()),
                forall|k: int|
                    at <= k < sorted@.len() ==> as_ints(keys@)[sorted@[k] as int] > as_ints(
                        keys@,
                    )[position as int],
            decreases at,
        {
            at -= 1;
        }
        proof {
            lemma_inserted_at(sorted@, position, as_ints(keys@), at as int);
            assert(positions@.take(i + 1).drop_last() == positions@.take(i as int));
        }
        let ghost before = sorted@;
        sorted.insert(at, position);
        assert(in_range(sorted@, keys@.len())) by {
            assert forall|k: int| 0 <= k < sorted@.len() implies (#[trigger] sorted@[k])
                < keys@.len() by {
                if k < at {
                    assert(sorted@[k] == before[k]);
                } else if k > at {
                    assert(sorted@[k] == before[k - 1]);
                }
            }
        }
        i += 1;
    }
    assert(positions@.take(i as int) == positions@);
    sorted
}

} // verus!
