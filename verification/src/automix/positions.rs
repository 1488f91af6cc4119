//! Lists of positions on a track's timeline.

use vstd::prelude::*;

use crate::time::Duration;

verus! {

/// Whether positions stand in order and none occurs twice.
pub open spec fn is_ascending(positions: Seq<Duration>) -> bool {
    forall|i: int, j: int|
        0 <= i < j < positions.len() ==> (#[trigger] positions[i])@ < (#[trigger] positions[j])@
}

/// Whether a list holds exactly the positions of another, in order and each
/// once. There is one such list.
pub open spec fn is_sorted_set_of(sorted: Seq<Duration>, positions: Seq<Duration>) -> bool {
    &&& is_ascending(sorted)
    &&& forall|position: Duration| #[trigger]
        sorted.contains(position) <==> positions.contains(position)
}

/// Sorts positions and drops those that occur again.
pub fn sort_and_dedup_positions(positions: &Vec<Duration>) -> (r: Vec<Duration>)
    ensures
        is_sorted_set_of(r@, positions@),
        r@.len() <= positions@.len(),
{
    let mut sorted: Vec<Duration> = Vec::new();
    let mut i: usize = 0;
    while i < positions.len()
        invariant
            i <= positions@.len(),
            sorted@.len() <= i,
            is_sorted_set_of(sorted@, positions@.take(i as int)),
        decreases positions@.len() - i,
    {
        let position = positions[i];
        let mut at: usize = 0;
        while at < sorted.len() && sorted[at].shorter(position)
            invariant
                at <= sorted@.len(),
                forall|k: int| 0 <= k < at ==> (#[trigger] sorted@[k])@ < position@,
            decreases sorted@.len() - at,
        {
            at += 1;
        }
        let ghost before = sorted@;
        let ghost prefix = positions@.take(i as int);
        let ghost longer = positions@.take(i + 1);
        proof {
            assert(longer =~= prefix.push(position));
            lemma_contains_after_push(prefix, position);
        }
        if at < sorted.len() && sorted[at] == position {
            proof {
                assert(before.contains(before[at as int]));
            }
        } else {
            sorted.insert(at, position);
            proof {
                let after = sorted@;
                assert(after =~= before.insert(at as int, position));
                lemma_insert_ascending(before, at as int, position);
            }
        }
        i += 1;
    }
    proof {
        assert(positions@.take(positions@.len() as int) =~= positions@);
    }
    sorted
}

proof fn lemma_contains_after_push(list: Seq<Duration>, item: Duration)
    ensures
        forall|other: Duration| #[trigger]
            list.push(item).contains(other) <==> list.contains(other) || other == item,
{
    assert forall|other: Duration| #[trigger]
        list.push(item).contains(other) <==> list.contains(other) || other == item by {
        if list.contains(other) {
            let k = choose|k: int| 0 <= k < list.len() && list[k] == other;
            assert(list.push(item)[k] == other);
        }
        if other == item {
            assert(list.push(item)[list.len() as int] == item);
        }
        if list.push(item).contains(other) {
            let k = choose|k: int| 0 <= k < list.push(item).len() && list.push(item)[k] == other;
            if k < list.len() {
                assert(list[k] == other);
            }
        }
    }
}

proof fn lemma_insert_ascending(list: Seq<Duration>, at: int, item: Duration)
    requires
        0 <= at <= list.len(),
        is_ascending(list),
        forall|k: int| 0 <= k < at ==> (#[trigger] list[k])@ < item@,
        at < list.len() ==> list[at]@ > item@,
    ensures
        is_ascending(list.insert(at, item)),
        forall|other: Duration| #[trigger]
            list.insert(at, item).contains(other) <==> list.contains(other) || other == item,
{
    let after = list.insert(at, item);
    assert forall|i: int, j: int| 0 <= i < j < after.len() implies (#[trigger] after[i])@ < (
    #[trigger] after[j])@ by {
        if j > at && i >= at {
            if i == at {
                assert(after[j] == list[j - 1]);
            } else {
                assert(after[i] == list[i - 1] && after[j] == list[j - 1]);
            }
        } else if j > at {
            assert(after[j] == list[j - 1]);
        }
    }
    assert forall|other: Duration| #[trigger]
        after.contains(other) <==> list.contains(other) || other == item by {
        if list.contains(other) {
            let k = choose|k: int| 0 <= k < list.len() && list[k] == other;
            if k < at {
                assert(after[k] == other);
            } else {
                assert(after[k + 1] == other);
            }
        }
        if other == item {
            assert(after[at] == item);
        }
        if after.contains(other) {
            let k = choose|k: int| 0 <= k < after.len() && after[k] == other;
            if k < at {
                assert(list[k] == other);
            } else if k > at {
                assert(list[k - 1] == other);
            }
        }
    }
}

/// Two lists that hold the same positions in order and each once are equal.
pub proof fn sorted_set_is_unique(left: Seq<Duration>, right: Seq<Duration>)
    requires
        is_ascending(left),
        is_ascending(right),
        forall|position: Duration| #[trigger] left.contains(position) <==> right.contains(position),
    ensures
        left == right,
    decreases left.len(),
{
    if left.len() == 0 {
        if right.len() > 0 {
            assert(right.contains(right[0]));
            assert(left.contains(right[0]));
        }
        assert(left =~= right);
    } else {
        assert(left.contains(left.last()));
        assert(right.contains(left.last()));
        assert(right.len() > 0);
        assert(right.contains(right.last()));
        assert(left.contains(right.last()));
        let i = choose|i: int| 0 <= i < right.len() && right[i] == left.last();
        let j = choose|j: int| 0 <= j < left.len() && left[j] == right.last();
        assert(left.last()@ <= right.last()@);
        assert(right.last()@ <= left.last()@);
        assert(left.last() == right.last());
        let shorter_left = left.drop_last();
        let shorter_right = right.drop_last();
        assert forall|position: Duration| #[trigger]
            shorter_left.contains(position) <==> shorter_right.contains(position) by {
            if shorter_left.contains(position) {
                let k = choose|k: int| 0 <= k < shorter_left.len() && shorter_left[k] == position;
                assert(left[k] == position);
                assert(left.contains(position));
                assert(right.contains(position));
                let m = choose|m: int| 0 <= m < right.len() && right[m] == position;
                assert(left[k]@ < left[left.len() - 1]@);
                assert(shorter_right[m] == position);
            }
            if shorter_right.contains(position) {
                let k = choose|k: int| 0 <= k < shorter_right.len() && shorter_right[k] == position;
                assert(right[k] == position);
                assert(right.contains(position));
                assert(left.contains(position));
                let m = choose|m: int| 0 <= m < left.len() && left[m] == position;
                assert(right[k]@ < right[right.len() - 1]@);
                assert(shorter_left[m] == position);
            }
        }
        sorted_set_is_unique(shorter_left, shorter_right);
        assert(left =~= shorter_left.push(left.last()));
        assert(right =~= shorter_right.push(right.last()));
    }
}

/// A sorted set holds just the positions of the list, each once, in order of time.
pub proof fn sorted_sets_hold_each_position_once(
    sorted: Seq<Duration>,
    positions: Seq<Duration>,
    i: int,
    j: int,
    position: Duration,
)
    requires
        is_sorted_set_of(sorted, positions),
    ensures
        0 <= i < j < sorted.len() ==> sorted[i]@ < sorted[j]@,
        sorted.contains(position) <==> positions.contains(position),
{
}

} // verus!
