//! The statistics of one measure over the samples of a group.

use vstd::prelude::*;
use crate::sorting::{ascending, insert_by, lemma_sorted_by, sort_values, sorted_by, value_key};

verus! {

/// An arithmetic mean, kept exact: the sum of the values and how many they are.
#[derive(Clone, Copy, Debug, PartialEq, Eq)]
pub struct Mean {
    pub total: i128,
    pub count: u64,
}

/// The 90th, 95th and 99th percentile.
#[derive(Clone, Copy, Debug, PartialEq, Eq)]
pub struct Percentiles {
    pub p90: i64,
    pub p95: i64,
    pub p99: i64,
}

/// Mean, least and greatest value, and percentiles of one measure.
#[derive(Clone, Copy, Debug, PartialEq, Eq)]
pub struct Summary {
    pub usage: Mean,
    pub min: i64,
    pub max: i64,
    pub percentile: Percentiles,
}

/// The sum of the values.
pub open spec fn total_of(values: Seq<i64>) -> int
    decreases values.len(),
{
    if values.len() == 0 {
        0
    } else {
        total_of(values.drop_last()) + values.last()
    }
}

/// Where the percentile of `rank` stands among `count` values in ascending
/// order, by the nearest-rank method: at the first place up to which at least
/// `rank` hundredths of the values lie, and at the first or last place where
/// there is no such place among them.
pub open spec fn rank_index(count: int, rank: int) -> int {
    let place = (rank * count + 99) / 100;
    if place < 1 {
        0
    } else if place > count {
        count - 1
    } else {
        place - 1
    }
}

/// The percentile of `rank` among the values.
pub open spec fn percentile_of(values: Seq<i64>, rank: int) -> i64 {
    sorted_by(values, value_key())[rank_index(values.len() as int, rank)]
}

/// The ranks of the percentiles of a summary, in the order in which they are asked for.
pub open spec fn summary_ranks() -> Seq<u8> {
    Seq::empty().push(90u8).push(95u8).push(99u8)
}

impl Summary {
    /// This is the summary of `values`: the mean is their sum over their
    /// number, `min` and `max` are the least and the greatest of them, and
    /// the percentiles are those of ranks 90, 95 and 99.
    pub open spec fn summarizes(&self, values: Seq<i64>) -> bool {
        &&& self.usage.total == total_of(values)
        &&& self.usage.count == values.len()
        &&& values.contains(self.min)
        &&& values.contains(self.max)
        &&& forall|i: int|
            0 <= i < values.len() ==> self.min <= #[trigger] values[i] && values[i] <= self.max
        &&& self.percentile.p90 == percentile_of(values, 90)
        &&& self.percentile.p95 == percentile_of(values, 95)
        &&& self.percentile.p99 == percentile_of(values, 99)
    }
}

/// The place of a percentile lies among the values, and a higher rank stands
/// at the same place or behind.
pub proof fn lemma_rank_index(count: int, low: int, high: int)
    requires
        count > 0,
        low <= high,
    ensures
        0 <= rank_index(count, low) <= rank_index(count, high) < count,
{
    assert(low * count <= high * count) by (nonlinear_arith)
        requires
            count > 0,
            low <= high,
    ;
}

/// A percentile of a higher rank is not less than one of a lower rank.
pub proof fn lemma_percentiles_ascend(values: Seq<i64>, low: int, high: int)
    requires
        values.len() > 0,
        low <= high,
    ensures
        percentile_of(values, low) <= percentile_of(values, high),
{
    lemma_sorted_by(values, value_key());
    lemma_rank_index(values.len() as int, low, high);
    let sorted = sorted_by(values, value_key());
    let i = rank_index(values.len() as int, low);
    let j = rank_index(values.len() as int, high);
    assert(value_key()(sorted[i]) <= value_key()(sorted[j]));
}

/// The test for the values that are not greater than `bound`.
pub open spec fn at_most(bound: i64) -> spec_fn(i64) -> bool {
    |value: i64| value <= bound
}

/// How many of the values are not greater than `bound`.
pub open spec fn count_at_most(values: Seq<i64>, bound: i64) -> nat {
    values.filter(at_most(bound)).len()
}

/// One more value is counted where it is not greater than the bound.
proof fn lemma_count_with_one_more(values: Seq<i64>, bound: i64)
    requires
        values.len() > 0,
    ensures
        count_at_most(values, bound) == count_at_most(values.drop_last(), bound) + (if values.last()
            <= bound {
            1nat
        } else {
            0nat
        }),
{
    assert(values =~= values.drop_last().push(values.last()));
    values.drop_last().lemma_filter_push(values.last(), at_most(bound));
}

/// A value put in its place is counted as one put at the end is.
proof fn lemma_count_after_insert(sorted: Seq<i64>, item: i64, bound: i64)
    ensures
        count_at_most(insert_by(sorted, item, value_key()), bound) == count_at_most(sorted, bound)
            + (if item <= bound {
            1nat
        } else {
            0nat
        }),
    decreases sorted.len(),
{
    if sorted.len() == 0 || value_key()(sorted.last()) <= value_key()(item) {
        sorted.lemma_filter_push(item, at_most(bound));
    } else {
        let front = insert_by(sorted.drop_last(), item, value_key());
        lemma_count_after_insert(sorted.drop_last(), item, bound);
        front.lemma_filter_push(sorted.last(), at_most(bound));
        lemma_count_with_one_more(sorted, bound);
    }
}

/// Ordering the values does not change how many of them are not greater than a bound.
proof fn lemma_count_of_sorted(values: Seq<i64>, bound: i64)
    ensures
        count_at_most(sorted_by(values, value_key()), bound) == count_at_most(values, bound),
    decreases values.len(),
{
    if values.len() == 0 {
    } else {
        lemma_count_of_sorted(values.drop_last(), bound);
        lemma_count_after_insert(sorted_by(values.drop_last(), value_key()), values.last(), bound);
        lemma_count_with_one_more(values, bound);
    }
}

/// Where no value is greater than the bound, all are counted.
proof fn lemma_count_of_all(values: Seq<i64>, bound: i64)
    requires
        forall|i: int| 0 <= i < values.len() ==> values[i] <= bound,
    ensures
        count_at_most(values, bound) == values.len(),
    decreases values.len(),
{
    if values.len() > 0 {
        lemma_count_of_all(values.drop_last(), bound);
        lemma_count_with_one_more(values, bound);
    } else {
        values.lemma_filter_len(at_most(bound));
    }
}

/// The front of values in ascending order is in ascending order.
proof fn lemma_front_ascends(sorted: Seq<i64>)
    requires
        ascending(sorted, value_key()),
        sorted.len() > 0,
    ensures
        ascending(sorted.drop_last(), value_key()),
{
    let front = sorted.drop_last();
    assert forall|i: int, j: int| 0 <= i <= j < front.len() implies value_key()(front[i])
        <= value_key()(front[j]) by {
        assert(value_key()(sorted[i]) <= value_key()(sorted[j]));
    }
}

/// Among values in ascending order, the values up to a place are not greater
/// than the value at that place.
proof fn lemma_count_covers_place(sorted: Seq<i64>, index: int)
    requires
        ascending(sorted, value_key()),
        0 <= index < sorted.len(),
    ensures
        count_at_most(sorted, sorted[index]) >= index + 1,
    decreases sorted.len(),
{
    let front = sorted.drop_last();
    lemma_count_with_one_more(sorted, sorted[index]);
    lemma_front_ascends(sorted);
    if index == sorted.len() - 1 {
        assert forall|i: int| 0 <= i < front.len() implies front[i] <= sorted[index] by {
            assert(value_key()(sorted[i]) <= value_key()(sorted[index]));
        }
        lemma_count_of_all(front, sorted[index]);
    } else {
        lemma_count_covers_place(front, index);
    }
}

/// Among values in ascending order, only values before a place can be less
/// than the value at that place.
proof fn lemma_count_stops_before_place(sorted: Seq<i64>, index: int, below: i64)
    requires
        ascending(sorted, value_key()),
        0 <= index < sorted.len(),
        below < sorted[index],
    ensures
        count_at_most(sorted, below) <= index,
    decreases sorted.len(),
{
    let front = sorted.drop_last();
    lemma_count_with_one_more(sorted, below);
    lemma_front_ascends(sorted);
    assert(value_key()(sorted[index]) <= value_key()(sorted.last()));
    if index == sorted.len() - 1 {
        front.lemma_filter_len(at_most(below));
    } else {
        lemma_count_stops_before_place(front, index, below);
    }
}

/// A percentile is the nearest rank: at least `rank` hundredths of the values
/// are not greater than it, and of no lesser bound can that be said.
pub proof fn lemma_percentile_is_nearest_rank(values: Seq<i64>, rank: int, below: i64)
    requires
        values.len() > 0,
        1 <= rank <= 100,
        below < percentile_of(values, rank),
    ensures
        100 * count_at_most(values, percentile_of(values, rank)) >= rank * values.len(),
        100 * count_at_most(values, below) < rank * values.len(),
{
    let sorted = sorted_by(values, value_key());
    let count = values.len() as int;
    let index = rank_index(count, rank);
    lemma_sorted_by(values, value_key());
    lemma_rank_index(count, rank, rank);
    assert(1 <= rank * count <= 100 * count) by (nonlinear_arith)
        requires
            count >= 1,
            1 <= rank <= 100,
    ;
    lemma_count_covers_place(sorted, index);
    lemma_count_stops_before_place(sorted, index, below);
    lemma_count_of_sorted(values, sorted[index]);
    lemma_count_of_sorted(values, below);
}

/// A percentile is one of the values.
pub proof fn lemma_percentile_is_a_value(values: Seq<i64>, rank: int)
    requires
        values.len() > 0,
    ensures
        values.contains(percentile_of(values, rank)),
{
    broadcast use vstd::seq_lib::group_to_multiset_ensures;

    lemma_sorted_by(values, value_key());
    lemma_rank_index(values.len() as int, rank, rank);
    let sorted = sorted_by(values, value_key());
    let found = sorted[rank_index(values.len() as int, rank)];
    assert(sorted.contains(found));
    assert(sorted.to_multiset().count(found) > 0);
}

/// In a summary the least value, the three percentiles in the order of their
/// ranks, and the greatest value ascend.
pub proof fn lemma_summary_ascends(summary: Summary, values: Seq<i64>)
    requires
        summary.summarizes(values),
    ensures
        summary.min <= summary.percentile.p90 <= summary.percentile.p95 <= summary.percentile.p99
            <= summary.max,
{
    assert(values.len() > 0);
    lemma_percentiles_ascend(values, 90, 95);
    lemma_percentiles_ascend(values, 95, 99);
    lemma_percentile_is_a_value(values, 90);
    lemma_percentile_is_a_value(values, 99);
    let low = choose|i: int| 0 <= i < values.len() && values[i] == summary.percentile.p90;
    let high = choose|i: int| 0 <= i < values.len() && values[i] == summary.percentile.p99;
    assert(summary.min <= values[low]);
    assert(values[high] <= summary.max);
}

/// The values have one summary only.
pub proof fn lemma_summary_is_unique(first: Summary, second: Summary, values: Seq<i64>)
    requires
        first.summarizes(values),
        second.summarizes(values),
    ensures
        first == second,
{
    let a = choose|i: int| 0 <= i < values.len() && values[i] == first.min;
    let b = choose|i: int| 0 <= i < values.len() && values[i] == second.min;
    assert(first.min <= values[b] && second.min <= values[a]);
    let c = choose|i: int| 0 <= i < values.len() && values[i] == first.max;
    let d = choose|i: int| 0 <= i < values.len() && values[i] == second.max;
    assert(values[d] <= first.max && values[c] <= second.max);
}

fn place_of_rank(count: usize, rank: u8) -> (index: usize)
    requires
        count > 0,
    ensures
        index == rank_index(count as int, rank as int),
        index < count,
{
    assert(0 <= rank as int * count as int <= 255 * 0xFFFF_FFFF_FFFF_FFFF) by (nonlinear_arith)
        requires
            0 <= rank as int <= 255,
            0 <= count as int <= 0xFFFF_FFFF_FFFF_FFFF,
    ;
    let place: u128 = (rank as u128 * count as u128 + 99) / 100;
    if place < 1 {
        0
    } else if place > count as u128 {
        count - 1
    } else {
        (place - 1) as usize
    }
}

/// The percentiles of the given ranks among the values, one for each rank and
/// in the order of the ranks; none where there are no values.
pub fn percentiles(values: &Vec<i64>, ranks: &Vec<u8>) -> (found: Option<Vec<i64>>)
    ensures
        found is Some <==> values@.len() > 0,
        found matches Some(list) ==> {
            &&& list@.len() == ranks@.len()
            &&& forall|i: int|
                0 <= i < ranks@.len() ==> list@[i] == percentile_of(values@, ranks@[i] as int)
        },
{
    if values.len() == 0 {
        return None;
    }
    let sorted = sort_values(values);
    proof {
        lemma_sorted_by(values@, value_key());
    }
    let mut list: Vec<i64> = Vec::new();
    let mut i: usize = 0;
    while i < ranks.len()
        invariant
            i <= ranks@.len(),
            list@.len() == i,
            sorted@ == sorted_by(values@, value_key()),
            sorted@.len() == values@.len(),
            values@.len() > 0,
            forall|j: int| 0 <= j < i ==> list@[j] == percentile_of(values@, ranks@[j] as int),
        decreases ranks@.len() - i,
    {
        let index = place_of_rank(sorted.len(), ranks[i]);
        list.push(sorted[index]);
        i = i + 1;
    }
    Some(list)
}

/// The ranks of the percentiles of a summary, in the order in which they are asked for.
pub fn ranks_of_summary() -> (ranks: Vec<u8>)
    ensures
        ranks@ == summary_ranks(),
{
    let mut ranks: Vec<u8> = Vec::new();
    ranks.push(90);
    ranks.push(95);
    ranks.push(99);
    ranks
}

/// The summary of the values; none where there are no values.
pub fn summarize(values: &Vec<i64>) -> (summary: Option<Summary>)
    ensures
        summary is Some <==> values@.len() > 0,
        summary matches Some(s) ==> s.summarizes(values@),
        summary matches Some(s) ==> s.min <= s.percentile.p90 <= s.percentile.p95
            <= s.percentile.p99 <= s.max,
{
    if values.len() == 0 {
        return None;
    }
    let mut total: i128 = values[0] as i128;
    let mut min: i64 = values[0];
    let mut max: i64 = values[0];
    let mut i: usize = 1;
    assert(values@.subrange(0, 1).drop_last() =~= Seq::<i64>::empty());
    assert(total_of(values@.subrange(0, 1)) == values@[0]) by {
        reveal_with_fuel(total_of, 2);
    }
    while i < values.len()
        invariant
            1 <= i <= values@.len(),
            total == total_of(values@.subrange(0, i as int)),
            -0x8000_0000_0000_0000 * i <= total <= 0x8000_0000_0000_0000 * i,
            exists|j: int| 0 <= j < i && values@[j] == min,
            exists|j: int| 0 <= j < i && values@[j] == max,
            forall|j: int| 0 <= j < i ==> min <= #[trigger] values@[j] && values@[j] <= max,
        decreases values@.len() - i,
    {
        let value: i64 = values[i];
        assert(values@.subrange(0, i + 1).drop_last() =~= values@.subrange(0, i as int));
        total = total + value as i128;
        if value < min {
            min = value;
        }
        if value > max {
            max = value;
        }
        i = i + 1;
    }
    assert(values@.subrange(0, i as int) =~= values@);
    match percentiles(values, &ranks_of_summary()) {
        Some(list) => {
            let summary = Summary {
                usage: Mean { total, count: values.len() as u64 },
                min,
                max,
                percentile: Percentiles { p90: list[0], p95: list[1], p99: list[2] },
            };
            proof {
                lemma_summary_ascends(summary, values@);
            }
            Some(summary)
        },
        None => None,
    }
}

} // verus!
