//! The report pipeline, evaluated over samples held in memory.
//!
//! The store runs the pipeline on its own documents. What it is asked to
//! compute is said here, stage by stage, on plain samples: select, order by
//! time, group by container and window, summarize each group into a report
//! record, and collect the records into one grouping document. Measures are
//! whole numbers, means are kept as sum and count, and percentiles are taken
//! by nearest rank, which is one of the estimates the store may give.

use vstd::prelude::*;
use crate::error::ReportError;
use crate::report::{ReportGroup, ReportRecord};
use crate::sample::{cpu_of, memory_of, selection, time_key, Sample};
use crate::sorting::{ascending, lemma_insert_place, lemma_sorted_by, sorted_by};
use crate::summary::summarize;
use crate::text::same_text;
use crate::window::{lemma_windows_nest, WindowUnit};

verus! {

/// Two samples fall into one group: same account, namespace and container,
/// and their timestamps lie in the same window of the unit.
pub open spec fn same_bucket(a: Sample, b: Sample, unit: WindowUnit) -> bool {
    &&& a.account@ == b.account@
    &&& a.namespace@ == b.namespace@
    &&& a.container_name@ == b.container_name@
    &&& unit.window_start(a.timestamp as int) == unit.window_start(b.timestamp as int)
}

/// The test by which the samples of the group of `first` are told from the others.
pub open spec fn bucket_test(first: Sample, unit: WindowUnit) -> spec_fn(Sample) -> bool {
    |sample: Sample| same_bucket(first, sample, unit)
}

/// No sample before the one at `index` falls into its group.
pub open spec fn leads_bucket(samples: Seq<Sample>, index: int, unit: WindowUnit) -> bool {
    forall|j: int| 0 <= j < index ==> !same_bucket(#[trigger] samples[j], samples[index], unit)
}

/// The places of the samples that are the first of their group, in ascending order.
pub open spec fn bucket_heads(samples: Seq<Sample>, unit: WindowUnit) -> Seq<int>
    decreases samples.len(),
{
    if samples.len() == 0 {
        Seq::empty()
    } else {
        let before = bucket_heads(samples.drop_last(), unit);
        if leads_bucket(samples, samples.len() - 1, unit) {
            before.push(samples.len() - 1)
        } else {
            before
        }
    }
}

/// The samples of the group of the sample at `index`, in their order.
pub open spec fn bucket_of(samples: Seq<Sample>, index: int, unit: WindowUnit) -> Seq<Sample> {
    samples.filter(bucket_test(samples[index], unit))
}

/// The samples of an account and a namespace, in ascending order of time;
/// samples of one moment stay in the order in which they were given.
pub open spec fn ordered_selection(
    samples: Seq<Sample>,
    account: Seq<char>,
    namespace: Seq<char>,
) -> Seq<Sample> {
    sorted_by(samples.filter(selection(account, namespace)), time_key())
}

/// A timestamp can hold the start of the window and the start of the day of `timestamp`.
pub open spec fn fits(timestamp: int, unit: WindowUnit) -> bool {
    &&& unit.window_start(timestamp) >= i64::MIN
    &&& WindowUnit::Day.window_start(timestamp) >= i64::MIN
}

/// A timestamp can hold the starts of the window and of the day of each of the samples.
pub open spec fn all_fit(samples: Seq<Sample>, unit: WindowUnit) -> bool {
    forall|i: int| 0 <= i < samples.len() ==> fits((#[trigger] samples[i]).timestamp as int, unit)
}

/// There is one record for each of the places in `heads`, in their order, and
/// each is the record of the group of the sample at its place.
pub open spec fn records_follow(
    records: Seq<ReportRecord>,
    samples: Seq<Sample>,
    heads: Seq<int>,
    unit: WindowUnit,
) -> bool {
    &&& records.len() == heads.len()
    &&& forall|k: int|
        0 <= k < heads.len() ==> (#[trigger] records[k]).reports(
            samples[heads[k]],
            bucket_of(samples, heads[k], unit),
            unit,
        )
}

/// There is one record for each group of the samples, in the order in which
/// the groups begin, and each is the record of its group.
pub open spec fn records_report(
    records: Seq<ReportRecord>,
    samples: Seq<Sample>,
    unit: WindowUnit,
) -> bool {
    records_follow(records, samples, bucket_heads(samples, unit), unit)
}

/// Without samples there is no grouping document. Otherwise there is one, for
/// the account, the namespace and the unit, and it holds the records of the samples.
pub open spec fn groups_report(
    groups: Seq<ReportGroup>,
    samples: Seq<Sample>,
    account: Seq<char>,
    namespace: Seq<char>,
    unit: WindowUnit,
) -> bool {
    if samples.len() == 0 {
        groups.len() == 0
    } else {
        &&& groups.len() == 1
        &&& groups[0].account@ == account
        &&& groups[0].namespace@ == namespace
        &&& groups[0].aggregation_type@ == unit.name_spec()
        &&& records_report(groups[0].data@, samples, unit)
    }
}

/// The window starts that go with the samples, one for each.
pub open spec fn starts_of(windows: Seq<i64>, samples: Seq<Sample>, unit: WindowUnit) -> bool {
    &&& windows.len() == samples.len()
    &&& forall|i: int|
        0 <= i < samples.len() ==> #[trigger] windows[i] == unit.window_start(
            samples[i].timestamp as int,
        )
}

/// Stage one: the samples of the account and the namespace, in the order given.
pub fn select(samples: &Vec<Sample>, account: &str, namespace: &str) -> (chosen: Vec<Sample>)
    ensures
        chosen@ == samples@.filter(selection(account@, namespace@)),
{
    let mut chosen: Vec<Sample> = Vec::new();
    let mut i: usize = 0;
    assert(samples@.subrange(0, 0).filter(selection(account@, namespace@)) =~= Seq::empty()) by {
        reveal(Seq::filter);
    }
    while i < samples.len()
        invariant
            i <= samples@.len(),
            chosen@ == samples@.subrange(0, i as int).filter(selection(account@, namespace@)),
        decreases samples@.len() - i,
    {
        proof {
            assert(samples@.subrange(0, i + 1) =~= samples@.subrange(0, i as int).push(samples@[i as int]));
            samples@.subrange(0, i as int).lemma_filter_push(
                samples@[i as int],
                selection(account@, namespace@),
            );
        }
        if same_text(samples[i].account.as_str(), account) && same_text(
            samples[i].namespace.as_str(),
            namespace,
        ) {
            chosen.push(samples[i].clone());
        }
        i = i + 1;
    }
    assert(samples@.subrange(0, i as int) =~= samples@);
    chosen
}

/// Stage two: the samples in ascending order of time.
pub fn sort_by_time(samples: &Vec<Sample>) -> (sorted: Vec<Sample>)
    ensures
        sorted@ == sorted_by(samples@, time_key()),
        ascending(sorted@, time_key()),
        sorted@.to_multiset() == samples@.to_multiset(),
{
    let mut sorted: Vec<Sample> = Vec::new();
    let mut i: usize = 0;
    while i < samples.len()
        invariant
            i <= samples@.len(),
            sorted@ == sorted_by(samples@.subrange(0, i as int), time_key()),
            sorted@.len() == i,
        decreases samples@.len() - i,
    {
        let timestamp: i64 = samples[i].timestamp;
        let mut place: usize = sorted.len();
        while place > 0 && sorted[place - 1].timestamp > timestamp
            invariant
                place <= sorted@.len(),
                forall|j: int| place <= j < sorted@.len() ==> sorted@[j].timestamp > timestamp,
            decreases place,
        {
            place = place - 1;
        }
        proof {
            lemma_insert_place(sorted@, samples@[i as int], time_key(), place as int);
            assert(samples@.subrange(0, i + 1).drop_last() =~= samples@.subrange(0, i as int));
        }
        sorted.insert(place, samples[i].clone());
        i = i + 1;
    }
    assert(samples@.subrange(0, i as int) =~= samples@);
    proof {
        lemma_sorted_by(samples@, time_key());
    }
    sorted
}

/// The starts of the windows and of the days of the samples, one of each for
/// each sample; none where one of them cannot be held.
fn window_starts(samples: &Vec<Sample>, unit: WindowUnit) -> (starts: Option<(Vec<i64>, Vec<i64>)>)
    ensures
        starts is Some <==> all_fit(samples@, unit),
        starts matches Some(pair) ==> starts_of(pair.0@, samples@, unit) && starts_of(
            pair.1@,
            samples@,
            WindowUnit::Day,
        ),
{
    let mut windows: Vec<i64> = Vec::new();
    let mut days: Vec<i64> = Vec::new();
    let mut i: usize = 0;
    while i < samples.len()
        invariant
            i <= samples@.len(),
            all_fit(samples@.subrange(0, i as int), unit),
            starts_of(windows@, samples@.subrange(0, i as int), unit),
            starts_of(days@, samples@.subrange(0, i as int), WindowUnit::Day),
        decreases samples@.len() - i,
    {
        let window = unit.truncate(samples[i].timestamp);
        let day = WindowUnit::Day.truncate(samples[i].timestamp);
        match (window, day) {
            (Some(w), Some(d)) => {
                windows.push(w);
                days.push(d);
            },
            _ => {
                assert(!fits(samples@[i as int].timestamp as int, unit));
                return None;
            },
        }
        assert(samples@.subrange(0, i + 1) =~= samples@.subrange(0, i as int).push(
            samples@[i as int],
        ));
        i = i + 1;
    }
    assert(samples@.subrange(0, i as int) =~= samples@);
    Some((windows, days))
}

fn in_same_bucket(
    a: &Sample,
    a_start: i64,
    b: &Sample,
    b_start: i64,
    Ghost(unit): Ghost<WindowUnit>,
) -> (same: bool)
    requires
        a_start == unit.window_start(a.timestamp as int),
        b_start == unit.window_start(b.timestamp as int),
    ensures
        same == same_bucket(*a, *b, unit),
{
    a.account == b.account && a.namespace == b.namespace && a.container_name == b.container_name
        && a_start == b_start
}

fn leads(samples: &Vec<Sample>, windows: &Vec<i64>, index: usize, Ghost(unit): Ghost<WindowUnit>) -> (first:
    bool)
    requires
        index < samples@.len(),
        starts_of(windows@, samples@, unit),
    ensures
        first == leads_bucket(samples@, index as int, unit),
{
    let mut j: usize = 0;
    while j < index
        invariant
            j <= index < samples@.len(),
            starts_of(windows@, samples@, unit),
            forall|k: int| 0 <= k < j ==> !same_bucket(#[trigger] samples@[k], samples@[index as int], unit),
        decreases index - j,
    {
        if in_same_bucket(&samples[j], windows[j], &samples[index], windows[index], Ghost(unit)) {
            return false;
        }
        j = j + 1;
    }
    true
}

/// The CPU and the memory usage of the samples in the group of the sample at `index`.
fn bucket_values(
    samples: &Vec<Sample>,
    windows: &Vec<i64>,
    index: usize,
    Ghost(unit): Ghost<WindowUnit>,
) -> (values: (Vec<i64>, Vec<i64>))
    requires
        index < samples@.len(),
        starts_of(windows@, samples@, unit),
    ensures
        values.0@ == bucket_of(samples@, index as int, unit).map_values(cpu_of()),
        values.1@ == bucket_of(samples@, index as int, unit).map_values(memory_of()),
        values.0@.len() > 0,
        values.1@.len() > 0,
{
    let mut cpu: Vec<i64> = Vec::new();
    let mut memory: Vec<i64> = Vec::new();
    let ghost test = bucket_test(samples@[index as int], unit);
    let mut k: usize = 0;
    proof {
        reveal(Seq::filter);
        assert(samples@.subrange(0, 0).filter(test) =~= Seq::empty());
        assert(Seq::<Sample>::empty().map_values(cpu_of()) =~= Seq::empty());
        assert(Seq::<Sample>::empty().map_values(memory_of()) =~= Seq::empty());
    }
    while k < samples.len()
        invariant
            k <= samples@.len(),
            index < samples@.len(),
            starts_of(windows@, samples@, unit),
            test == bucket_test(samples@[index as int], unit),
            cpu@ == samples@.subrange(0, k as int).filter(test).map_values(cpu_of()),
            memory@ == samples@.subrange(0, k as int).filter(test).map_values(memory_of()),
            k > index ==> cpu@.len() > 0 && memory@.len() > 0,
        decreases samples@.len() - k,
    {
        let ghost before = samples@.subrange(0, k as int).filter(test);
        proof {
            assert(samples@.subrange(0, k + 1) =~= samples@.subrange(0, k as int).push(
                samples@[k as int],
            ));
            samples@.subrange(0, k as int).lemma_filter_push(samples@[k as int], test);
        }
        if in_same_bucket(&samples[index], windows[index], &samples[k], windows[k], Ghost(unit)) {
            cpu.push(samples[k].cpu_usage);
            memory.push(samples[k].memory_usage);
            proof {
                assert(before.push(samples@[k as int]).map_values(cpu_of()) =~= before.map_values(
                    cpu_of(),
                ).push(samples@[k as int].cpu_usage));
                assert(before.push(samples@[k as int]).map_values(memory_of())
                    =~= before.map_values(memory_of()).push(samples@[k as int].memory_usage));
            }
        }
        k = k + 1;
    }
    assert(samples@.subrange(0, k as int) =~= samples@);
    (cpu, memory)
}

/// Stages three and four: one record for each group of the samples, in the
/// order in which the groups begin.
fn report_records(samples: &Vec<Sample>, windows: &Vec<i64>, days: &Vec<i64>, unit: WindowUnit) -> (records:
    Vec<ReportRecord>)
    requires
        starts_of(windows@, samples@, unit),
        starts_of(days@, samples@, WindowUnit::Day),
    ensures
        records_report(records@, samples@, unit),
{
    let mut records: Vec<ReportRecord> = Vec::new();
    let mut i: usize = 0;
    while i < samples.len()
        invariant
            i <= samples@.len(),
            starts_of(windows@, samples@, unit),
            starts_of(days@, samples@, WindowUnit::Day),
            records_follow(
                records@,
                samples@,
                bucket_heads(samples@.subrange(0, i as int), unit),
                unit,
            ),
        decreases samples@.len() - i,
    {
        let ghost before = bucket_heads(samples@.subrange(0, i as int), unit);
        let ghost upto = samples@.subrange(0, i + 1);
        let ghost earlier = records@;
        proof {
            assert(upto.drop_last() =~= samples@.subrange(0, i as int));
            lemma_leads_in_prefix(samples@, i + 1, i as int, unit);
        }
        if leads(samples, windows, i, Ghost(unit)) {
            let values = bucket_values(samples, windows, i, Ghost(unit));
            // The group holds the sample at `i`, so both summaries exist.
            if let (Some(cpu), Some(memory)) = (summarize(&values.0), summarize(&values.1)) {
                records.push(
                    ReportRecord {
                        account: samples[i].account.clone(),
                        namespace: samples[i].namespace.clone(),
                        container_name: samples[i].container_name.clone(),
                        cpu,
                        memory,
                        timestamp: days[i],
                        aggregation_type: String::from_str(unit.name()),
                    },
                );
            }
            proof {
                let heads = bucket_heads(upto, unit);
                assert(heads == before.push(i as int));
                assert forall|k: int| 0 <= k < heads.len() implies (#[trigger] records@[k]).reports(
                    samples@[heads[k]],
                    bucket_of(samples@, heads[k], unit),
                    unit,
                ) by {
                    if k < earlier.len() {
                        assert(records@[k] == earlier[k]);
                        assert(heads[k] == before[k]);
                    } else {
                        assert(heads[k] == i);
                        assert(records@[k].timestamp == days@[i as int]);
                    }
                }
                assert(records_follow(records@, samples@, heads, unit));
            }
        } else {
            assert(bucket_heads(upto, unit) == before);
        }
        assert(records_follow(records@, samples@, bucket_heads(upto, unit), unit));
        i = i + 1;
    }
    assert(samples@.subrange(0, i as int) =~= samples@);
    records
}

/// Whether a sample leads its group does not depend on the samples behind it.
proof fn lemma_leads_in_prefix(samples: Seq<Sample>, length: int, index: int, unit: WindowUnit)
    requires
        0 <= index < length <= samples.len(),
    ensures
        leads_bucket(samples.subrange(0, length), index, unit) == leads_bucket(
            samples,
            index,
            unit,
        ),
{
    let front = samples.subrange(0, length);
    if leads_bucket(samples, index, unit) {
        assert forall|j: int| 0 <= j < index implies !same_bucket(
            #[trigger] front[j],
            front[index],
            unit,
        ) by {
            assert(front[j] == samples[j]);
        }
    }
    if leads_bucket(front, index, unit) {
        assert forall|j: int| 0 <= j < index implies !same_bucket(
            #[trigger] samples[j],
            samples[index],
            unit,
        ) by {
            assert(front[j] == samples[j]);
        }
    }
}

/// The heads are the places of the samples that lead their group, each once
/// and in ascending order.
pub proof fn lemma_heads_lead(samples: Seq<Sample>, unit: WindowUnit)
    ensures
        forall|k: int|
            0 <= k < bucket_heads(samples, unit).len() ==> {
                &&& 0 <= #[trigger] bucket_heads(samples, unit)[k] < samples.len()
                &&& leads_bucket(samples, bucket_heads(samples, unit)[k], unit)
            },
        forall|k: int, l: int|
            0 <= k < l < bucket_heads(samples, unit).len() ==> bucket_heads(samples, unit)[k]
                < bucket_heads(samples, unit)[l],
        forall|i: int|
            0 <= i < samples.len() && leads_bucket(samples, i, unit) ==> bucket_heads(
                samples,
                unit,
            ).contains(i),
        bucket_heads(samples, unit).len() <= samples.len(),
    decreases samples.len(),
{
    if samples.len() > 0 {
        let front = samples.drop_last();
        let before = bucket_heads(front, unit);
        let heads = bucket_heads(samples, unit);
        let last = samples.len() - 1;
        lemma_heads_lead(front, unit);
        assert forall|k: int| 0 <= k < heads.len() implies {
            &&& 0 <= #[trigger] heads[k] < samples.len()
            &&& leads_bucket(samples, heads[k], unit)
        } by {
            if k < before.len() {
                assert(heads[k] == before[k]);
                lemma_leads_in_prefix(samples, last, before[k], unit);
            }
        }
        assert forall|k: int, l: int| 0 <= k < l < heads.len() implies heads[k] < heads[l] by {
            assert(heads[k] == before[k]);
            if l < before.len() {
                assert(heads[l] == before[l]);
            }
        }
        assert forall|i: int| 0 <= i < samples.len() && leads_bucket(
            samples,
            i,
            unit,
        ) implies heads.contains(i) by {
            if i < last {
                lemma_leads_in_prefix(samples, last, i, unit);
                assert(before.contains(i));
                let k = choose|k: int| 0 <= k < before.len() && before[k] == i;
                assert(heads[k] == i);
            } else {
                assert(heads[before.len() as int] == i);
            }
        }
    }
}

/// Every sample falls into the group of one of the heads: no sample is left out of the report.
pub proof fn lemma_every_sample_is_reported(samples: Seq<Sample>, index: int, unit: WindowUnit)
    requires
        0 <= index < samples.len(),
    ensures
        exists|k: int|
            0 <= k < bucket_heads(samples, unit).len() && same_bucket(
                samples[#[trigger] bucket_heads(samples, unit)[k]],
                samples[index],
                unit,
            ),
    decreases index,
{
    let heads = bucket_heads(samples, unit);
    lemma_heads_lead(samples, unit);
    if leads_bucket(samples, index, unit) {
        assert(heads.contains(index));
        let k = choose|k: int| 0 <= k < heads.len() && heads[k] == index;
        assert(same_bucket(samples[heads[k]], samples[index], unit));
    } else {
        let j = choose|j: int| 0 <= j < index && same_bucket(samples[j], samples[index], unit);
        lemma_every_sample_is_reported(samples, j, unit);
        let k = choose|k: int|
            0 <= k < heads.len() && same_bucket(samples[#[trigger] heads[k]], samples[j], unit);
        assert(same_bucket(samples[heads[k]], samples[index], unit));
    }
}

/// Two records stand for two groups: no container has two records for one window.
pub proof fn lemma_groups_are_apart(samples: Seq<Sample>, first: int, second: int, unit: WindowUnit)
    requires
        0 <= first < bucket_heads(samples, unit).len(),
        0 <= second < bucket_heads(samples, unit).len(),
        first != second,
    ensures
        !same_bucket(
            samples[bucket_heads(samples, unit)[first]],
            samples[bucket_heads(samples, unit)[second]],
            unit,
        ),
{
    lemma_heads_lead(samples, unit);
    let heads = bucket_heads(samples, unit);
    if first < second {
        assert(heads[first] < heads[second]);
        assert(leads_bucket(samples, heads[second], unit));
    } else {
        assert(heads[second] < heads[first]);
        assert(leads_bucket(samples, heads[first], unit));
    }
}

/// Among samples in ascending order of time, the first sample of a group is
/// its earliest: this is what the ordering is for.
pub proof fn lemma_first_sample_is_earliest(
    samples: Seq<Sample>,
    head: int,
    index: int,
    unit: WindowUnit,
)
    requires
        ascending(samples, time_key()),
        0 <= head < samples.len(),
        0 <= index < samples.len(),
        leads_bucket(samples, head, unit),
        same_bucket(samples[head], samples[index], unit),
    ensures
        samples[head].timestamp <= samples[index].timestamp,
{
    if index < head {
        assert(same_bucket(samples[index], samples[head], unit));
    } else {
        assert(time_key()(samples[head]) <= time_key()(samples[index]));
    }
}

/// Every sample is summarized, and once: there is a record that summarizes
/// exactly the samples of its container in its window, over both measures.
pub proof fn lemma_sample_has_its_record(
    records: Seq<ReportRecord>,
    samples: Seq<Sample>,
    index: int,
    unit: WindowUnit,
)
    requires
        records_report(records, samples, unit),
        0 <= index < samples.len(),
    ensures
        exists|k: int|
            0 <= k < records.len() && {
                &&& (#[trigger] records[k]).container_name@ == samples[index].container_name@
                &&& records[k].cpu.summarizes(bucket_of(samples, index, unit).map_values(cpu_of()))
                &&& records[k].memory.summarizes(
                    bucket_of(samples, index, unit).map_values(memory_of()),
                )
            },
{
    let heads = bucket_heads(samples, unit);
    lemma_every_sample_is_reported(samples, index, unit);
    let k = choose|k: int|
        0 <= k < heads.len() && same_bucket(samples[#[trigger] heads[k]], samples[index], unit);
    assert(bucket_test(samples[heads[k]], unit) =~= bucket_test(samples[index], unit));
    assert(records[k].reports(samples[heads[k]], bucket_of(samples, heads[k], unit), unit));
}

/// With samples there are records, without them none.
pub proof fn lemma_samples_make_records(samples: Seq<Sample>, unit: WindowUnit)
    ensures
        (bucket_heads(samples, unit).len() == 0) == (samples.len() == 0),
{
    if samples.len() > 0 {
        lemma_every_sample_is_reported(samples, 0, unit);
    }
}

/// A unit with wider windows gives no more records: where the windows of
/// `fine` lie inside those of `coarse`, the samples make at most as many
/// groups by `coarse` as by `fine`.
pub proof fn lemma_coarser_unit_fewer_records(
    samples: Seq<Sample>,
    fine: WindowUnit,
    coarse: WindowUnit,
)
    requires
        fine.nests_in(coarse),
    ensures
        bucket_heads(samples, coarse).len() <= bucket_heads(samples, fine).len(),
    decreases samples.len(),
{
    if samples.len() > 0 {
        lemma_coarser_unit_fewer_records(samples.drop_last(), fine, coarse);
        let last = samples.len() - 1;
        if leads_bucket(samples, last, coarse) {
            assert forall|j: int| 0 <= j < last implies !same_bucket(
                #[trigger] samples[j],
                samples[last],
                fine,
            ) by {
                if same_bucket(samples[j], samples[last], fine) {
                    lemma_windows_nest(
                        fine,
                        coarse,
                        samples[j].timestamp as int,
                        samples[last].timestamp as int,
                    );
                    assert(same_bucket(samples[j], samples[last], coarse));
                }
            }
        }
    }
}

/// Whatever the unit of the windows, a record is dated to the start of a day:
/// the day of the first sample of its group.
pub proof fn lemma_record_is_dated_to_a_day(
    record: ReportRecord,
    first: Sample,
    members: Seq<Sample>,
    unit: WindowUnit,
)
    requires
        record.reports(first, members, unit),
    ensures
        record.timestamp % 86_400_000 == 0,
        record.timestamp <= first.timestamp < record.timestamp + 86_400_000,
{
}

/// The members of a group are the samples of its container in its window, and no others.
pub proof fn lemma_group_members(samples: Seq<Sample>, head: int, unit: WindowUnit)
    requires
        0 <= head < samples.len(),
    ensures
        forall|i: int|
            0 <= i < bucket_of(samples, head, unit).len() ==> same_bucket(
                samples[head],
                #[trigger] bucket_of(samples, head, unit)[i],
                unit,
            ) && samples.contains(bucket_of(samples, head, unit)[i]),
        forall|i: int|
            0 <= i < samples.len() && same_bucket(samples[head], samples[i], unit)
                ==> bucket_of(samples, head, unit).contains(#[trigger] samples[i]),
        bucket_of(samples, head, unit).len() > 0,
{
    let test = bucket_test(samples[head], unit);
    let members = bucket_of(samples, head, unit);
    broadcast use vstd::seq_lib::group_filter_ensures;

    assert(test(samples[head]));
    assert(members.contains(samples[head]));
    assert forall|i: int| 0 <= i < members.len() implies same_bucket(
        samples[head],
        #[trigger] members[i],
        unit,
    ) && samples.contains(members[i]) by {
        assert(test(members[i]));
        assert(members.contains(members[i]));
        samples.lemma_filter_contains_rev(test, members[i]);
    }
}

/// The report of one account and namespace over windows of `unit`: what the
/// pipeline computes from `samples`.
///
/// The samples of the account and namespace are taken in order of time and
/// grouped by container and window; each group gives one record, and the
/// records, in the order in which their groups begin, make up the one
/// grouping document. Without such samples there is no document. The sorting
/// is what makes the first sample of a group its earliest one.
///
/// It fails only where the start of a window or of a day lies before the
/// earliest timestamp that can be held.
pub fn aggregate(samples: &Vec<Sample>, account: &str, namespace: &str, unit: WindowUnit) -> (report:
    Result<Vec<ReportGroup>, ReportError>)
    ensures
        report is Ok <==> all_fit(ordered_selection(samples@, account@, namespace@), unit),
        report matches Ok(groups) ==> groups_report(
            groups@,
            ordered_selection(samples@, account@, namespace@),
            account@,
            namespace@,
            unit,
        ),
        report matches Err(e) ==> e == ReportError::TimestampOutOfRange,
{
    let chosen = select(samples, account, namespace);
    let sorted = sort_by_time(&chosen);
    let mut groups: Vec<ReportGroup> = Vec::new();
    match window_starts(&sorted, unit) {
        Some((windows, days)) => {
            if sorted.len() > 0 {
                let data = report_records(&sorted, &windows, &days, unit);
                groups.push(
                    ReportGroup {
                        account: String::from_str(account),
                        namespace: String::from_str(namespace),
                        aggregation_type: String::from_str(unit.name()),
                        data,
                    },
                );
            }
            Ok(groups)
        },
        None => Err(ReportError::TimestampOutOfRange),
    }
}

} // verus!
