//! Ordering items by an integer key, those with equal keys staying in the
//! order in which they came.

use vstd::prelude::*;

verus! {

/// `sorted` with `item` put behind the last item whose key is not greater.
pub open spec fn insert_by<A>(sorted: Seq<A>, item: A, key: spec_fn(A) -> int) -> Seq<A>
    decreases sorted.len(),
{
    if sorted.len() == 0 || key(sorted.last()) <= key(item) {
        sorted.push(item)
    } else {
        insert_by(sorted.drop_last(), item, key).push(sorted.last())
    }
}

/// The items in ascending order of their keys; items with equal keys keep their order.
pub open spec fn sorted_by<A>(items: Seq<A>, key: spec_fn(A) -> int) -> Seq<A>
    decreases items.len(),
{
    if items.len() == 0 {
        Seq::empty()
    } else {
        insert_by(sorted_by(items.drop_last(), key), items.last(), key)
    }
}

/// No item has a greater key than one behind it.
pub open spec fn ascending<A>(items: Seq<A>, key: spec_fn(A) -> int) -> bool {
    forall|i: int, j: int| 0 <= i <= j < items.len() ==> key(items[i]) <= key(items[j])
}

/// Where `insert_by` puts an item: at the one place behind which every key
/// is greater and before which the nearest key is not.
pub proof fn lemma_insert_place<A>(sorted: Seq<A>, item: A, key: spec_fn(A) -> int, place: int)
    requires
        0 <= place <= sorted.len(),
        forall|j: int| place <= j < sorted.len() ==> key(sorted[j]) > key(item),
        place > 0 ==> key(sorted[place - 1]) <= key(item),
    ensures
        insert_by(sorted, item, key) == sorted.insert(place, item),
    decreases sorted.len(),
{
    if sorted.len() == 0 || key(sorted.last()) <= key(item) {
        assert(place == sorted.len());
        assert(sorted.push(item) =~= sorted.insert(place, item));
    } else {
        lemma_insert_place(sorted.drop_last(), item, key, place);
        assert(sorted.drop_last().insert(place, item).push(sorted.last()) =~= sorted.insert(
            place,
            item,
        ));
    }
}

/// Inserting keeps the order, adds the item and nothing else.
pub proof fn lemma_insert_by<A>(sorted: Seq<A>, item: A, key: spec_fn(A) -> int)
    requires
        ascending(sorted, key),
    ensures
        ascending(insert_by(sorted, item, key), key),
        insert_by(sorted, item, key).len() == sorted.len() + 1,
        insert_by(sorted, item, key).to_multiset() == sorted.to_multiset().insert(item),
    decreases sorted.len(),
{
    broadcast use vstd::seq_lib::group_to_multiset_ensures;

    if sorted.len() == 0 || key(sorted.last()) <= key(item) {
    } else {
        let front = sorted.drop_last();
        let placed = insert_by(front, item, key);
        lemma_insert_by(front, item, key);
        assert(sorted =~= front.push(sorted.last()));
        assert forall|i: int| 0 <= i < placed.len() implies key(#[trigger] placed[i]) <= key(
            sorted.last(),
        ) by {
            assert(placed.to_multiset().count(placed[i]) > 0);
            if placed[i] != item {
                assert(front.to_multiset().count(placed[i]) > 0);
                assert(front.contains(placed[i]));
            }
        }
    }
}

/// What `sorted_by` returns is in ascending order and holds the items it was given, each as often.
pub proof fn lemma_sorted_by<A>(items: Seq<A>, key: spec_fn(A) -> int)
    ensures
        ascending(sorted_by(items, key), key),
        sorted_by(items, key).len() == items.len(),
        sorted_by(items, key).to_multiset() == items.to_multiset(),
    decreases items.len(),
{
    broadcast use vstd::seq_lib::group_to_multiset_ensures;

    if items.len() > 0 {
        lemma_sorted_by(items.drop_last(), key);
        lemma_insert_by(sorted_by(items.drop_last(), key), items.last(), key);
        assert(items =~= items.drop_last().push(items.last()));
    }
}

/// The key of a plain number: the number.
pub open spec fn value_key() -> spec_fn(i64) -> int {
    |value: i64| value as int
}

/// The values in ascending order.
pub fn sort_values(values: &Vec<i64>) -> (sorted: Vec<i64>)
    ensures
        sorted@ == sorted_by(values@, value_key()),
        ascending(sorted@, value_key()),
        sorted@.to_multiset() == values@.to_multiset(),
{
    let mut sorted: Vec<i64> = Vec::new();
    let mut i: usize = 0;
    while i < values.len()
        invariant
            i <= values@.len(),
            sorted@ == sorted_by(values@.subrange(0, i as int), value_key()),
            sorted@.len() == i,
        decreases values@.len() - i,
    {
        let value: i64 = values[i];
        let mut place: usize = sorted.len();
        while place > 0 && sorted[place - 1] > value
            invariant
                place <= sorted@.len(),
                forall|j: int| place <= j < sorted@.len() ==> sorted@[j] > value,
            decreases place,
        {
            place = place - 1;
        }
        proof {
            lemma_insert_place(sorted@, value, value_key(), place as int);
            assert(values@.subrange(0, i + 1).drop_last() =~= values@.subrange(0, i as int));
        }
        sorted.insert(place, value);
        i = i + 1;
    }
    assert(values@.subrange(0, i as int) =~= values@);
    proof {
        lemma_sorted_by(values@, value_key());
    }
    sorted
}

} // verus!
