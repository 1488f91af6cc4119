//! Numbers in the total order of all bit patterns.

use vstd::prelude::*;

use crate::scalar;

verus! {

/// Whether a list is ordered in the total order of all patterns.
pub open spec fn is_totally_ordered(values: Seq<u32>) -> bool {
    forall|i: int, j: int|
        0 <= i <= j < values.len() ==> scalar::total_key(#[trigger] values[i])
            <= scalar::total_key(#[trigger] values[j])
}

/// Sorts numbers in the total order of all patterns.
pub fn sort_totally(values: &Vec<u32>) -> (r: Vec<u32>)
    ensures
        is_totally_ordered(r@),
        r@.to_multiset() == values@.to_multiset(),
        r@.len() == values@.len(),
{
    let mut sorted: Vec<u32> = Vec::new();
    let mut i: usize = 0;
    assert(values@.take(0) =~= sorted@);
    while i < values.len()
        invariant
            i <= values@.len(),
            sorted@.len() == i,
            is_totally_ordered(sorted@),
            sorted@.to_multiset() == values@.take(i as int).to_multiset(),
        decreases values@.len() - i,
    {
        let value = values[i];
        let mut at: usize = 0;
        while at < sorted.len() && !scalar::total_less(value, sorted[at])
            invariant
                at <= sorted@.len(),
                forall|k: int|
                    0 <= k < at ==> scalar::total_key(#[trigger] sorted@[k]) <= scalar::total_key(
                        value,
                    ),
            decreases sorted@.len() - at,
        {
            at += 1;
        }
        let ghost before = sorted@;
        sorted.insert(at, value);
        proof {
            before.to_multiset_ensures();
            values@.take(i as int).to_multiset_ensures();
            assert(values@.take(i + 1) =~= values@.take(i as int).push(value));
            assert(sorted@ =~= before.insert(at as int, value));
            sorted@.to_multiset_ensures();
            assert(sorted@.remove(at as int) =~= before);
            assert(sorted@[at as int] == value);
            assert(sorted@.contains(value));
            assert(sorted@.to_multiset() =~= before.to_multiset().insert(value));
            assert forall|a: int, b: int| 0 <= a <= b < sorted@.len() implies scalar::total_key(
                #[trigger] sorted@[a],
            ) <= scalar::total_key(#[trigger] sorted@[b]) by {
                if a < at && b == at {
                    assert(before[a] == sorted@[a]);
                } else if a == at && b > at {
                    assert(before[b - 1] == sorted@[b]);
                    assert(scalar::total_key(before[at as int]) <= scalar::total_key(
                        before[b - 1],
                    ));
                } else if a < at && b > at {
                    assert(before[b - 1] == sorted@[b] && before[a] == sorted@[a]);
                } else if a > at {
                    assert(before[b - 1] == sorted@[b] && before[a - 1] == sorted@[a]);
                } else if b < at {
                    assert(before[b] == sorted@[b] && before[a] == sorted@[a]);
                }
            }
        }
        i += 1;
    }
    assert(values@.take(values@.len() as int) =~= values@);
    sorted
}

/// A list has one ordered arrangement.
pub proof fn lemma_ordered_is_unique(left: Seq<u32>, right: Seq<u32>)
    requires
        is_totally_ordered(left),
        is_totally_ordered(right),
        left.to_multiset() == right.to_multiset(),
    ensures
        left == right,
    decreases left.len(),
{
    left.to_multiset_ensures();
    right.to_multiset_ensures();
    assert(left.len() == right.len());
    if left.len() == 0 {
        assert(left =~= right);
    } else {
        let a = left.last();
        let b = right.last();
        assert(left.contains(a));
        assert(right.to_multiset().count(a) > 0);
        assert(right.contains(a));
        assert(right.contains(b));
        assert(left.to_multiset().count(b) > 0);
        assert(left.contains(b));
        let i = choose|i: int| 0 <= i < right.len() && right[i] == a;
        let j = choose|j: int| 0 <= j < left.len() && left[j] == b;
        assert(scalar::total_key(right[i]) <= scalar::total_key(right[right.len() - 1]));
        assert(scalar::total_key(left[j]) <= scalar::total_key(left[left.len() - 1]));
        assert(a == b);
        assert(left =~= left.drop_last().push(a));
        assert(right =~= right.drop_last().push(b));
        left.drop_last().to_multiset_ensures();
        right.drop_last().to_multiset_ensures();
        assert(left.drop_last().to_multiset() =~= left.to_multiset().remove(a));
        assert(right.drop_last().to_multiset() =~= right.to_multiset().remove(b));
        assert(is_totally_ordered(left.drop_last())) by {
            assert forall|x: int, y: int| 0 <= x <= y < left.drop_last().len() implies
                scalar::total_key(#[trigger] left.drop_last()[x]) <= scalar::total_key(
                #[trigger] left.drop_last()[y],
            ) by {
                assert(left.drop_last()[x] == left[x] && left.drop_last()[y] == left[y]);
            }
        }
        assert(is_totally_ordered(right.drop_last())) by {
            assert forall|x: int, y: int| 0 <= x <= y < right.drop_last().len() implies
                scalar::total_key(#[trigger] right.drop_last()[x]) <= scalar::total_key(
                #[trigger] right.drop_last()[y],
            ) by {
                assert(right.drop_last()[x] == right[x] && right.drop_last()[y] == right[y]);
            }
        }
        lemma_ordered_is_unique(left.drop_last(), right.drop_last());
    }
}

/// The number at a rank of the ordered arrangement; zero past its end.
pub fn at_rank(values: &Vec<u32>, rank: usize) -> (r: u32)
    ensures
        rank >= values@.len() ==> r == 0,
        forall|ordered: Seq<u32>| #[trigger]
            is_totally_ordered(ordered) && ordered.to_multiset() == values@.to_multiset() && rank
                < values@.len() ==> r == ordered[rank as int],
{
    if rank >= values.len() {
        return 0;
    }
    let ordered = sort_totally(values);
    proof {
        assert forall|other: Seq<u32>| #[trigger]
            is_totally_ordered(other) && other.to_multiset() == values@.to_multiset() implies other
            == ordered@ by {
            lemma_ordered_is_unique(other, ordered@);
        }
    }
    ordered[rank]
}

/// Whether an index is that of the greatest number in the total order, the last
/// such.
pub open spec fn is_last_greatest(values: Seq<u32>, index: int) -> bool {
    &&& 0 <= index < values.len()
    &&& forall|other: int|
        0 <= other < values.len() ==> scalar::total_key(#[trigger] values[other])
            <= scalar::total_key(values[index])
    &&& forall|other: int|
        index < other < values.len() ==> scalar::total_key(#[trigger] values[other])
            < scalar::total_key(values[index])
}

/// The index of the greatest number in the total order, the last such; `None` when
/// there is no number.
pub fn last_greatest(values: &Vec<u32>) -> (r: Option<usize>)
    ensures
        r is None <==> values@.len() == 0,
        r matches Some(index) ==> is_last_greatest(values@, index as int),
{
    if values.len() == 0 {
        return None;
    }
    let mut best: usize = 0;
    let mut i: usize = 1;
    while i < values.len()
        invariant
            1 <= i <= values@.len(),
            is_last_greatest(values@.take(i as int), best as int),
        decreases values@.len() - i,
    {
        let ghost before = values@.take(i as int);
        let ghost after = values@.take(i + 1);
        proof {
            assert forall|k: int| 0 <= k < i implies after[k] == before[k] by {}
            assert(after[i as int] == values@[i as int]);
            assert(before[best as int] == values@[best as int]);
        }
        if !scalar::total_less(values[i], values[best]) {
            best = i;
        }
        i += 1;
    }
    assert(values@.take(values@.len() as int) =~= values@);
    Some(best)
}

/// The last greatest value is unique.
pub proof fn last_greatest_is_one_place(values: Seq<u32>, one: int, other: int)
    requires
        is_last_greatest(values, one),
        is_last_greatest(values, other),
    ensures
        one == other,
        forall|k: int|
            0 <= k < values.len() ==> scalar::total_key(#[trigger] values[k]) <= scalar::total_key(
                values[one],
            ),
{
}

} // verus!
