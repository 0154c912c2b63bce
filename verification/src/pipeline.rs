//! The aggregation pipeline that the store runs for one account and namespace.
//!
//! Six stages, each consuming the documents of the one before: select the
//! samples of the account and namespace, order them by time, reduce them per
//! container and window, reshape each group into a report record, collect the
//! records into one grouping document, and drop the grouping key.

use vstd::prelude::*;
use crate::document::{Array, Document, DocumentView, Value, ValueView};
use crate::summary::summary_ranks;
use crate::window::WindowUnit;

verus! {

/// The measure of a sample that holds its memory usage.
pub open spec fn memory_measure() -> Seq<char> {
    "memory_usage"@
}

/// The measure of a sample that holds its CPU usage.
pub open spec fn cpu_measure() -> Seq<char> {
    "cpu_usage"@
}

/// The path of a measure inside a sample.
pub open spec fn measure_path(measure: Seq<char>) -> Seq<char> {
    "$metrics."@ + measure
}

/// No fields: where every document begins.
pub open spec fn fields() -> DocumentView {
    Seq::empty()
}

/// No items: where every array begins.
pub open spec fn items() -> Seq<ValueView> {
    Seq::empty()
}

/// A string value.
pub open spec fn text(characters: Seq<char>) -> ValueView {
    ValueView::Text(characters)
}

/// An embedded document.
pub open spec fn nested(document: DocumentView) -> ValueView {
    ValueView::Document(document)
}

/// An embedded document with the single field `name`.
pub open spec fn single(name: Seq<char>, value: ValueView) -> ValueView {
    nested(fields().push((name, value)))
}

/// The percentiles asked of the store, as an array: 0.90, 0.95 and 0.99, in this order.
pub open spec fn requested_percentiles() -> ValueView {
    ValueView::Array(
        items()
            .push(ValueView::Hundredths(90))
            .push(ValueView::Hundredths(95))
            .push(ValueView::Hundredths(99)),
    )
}

/// The element of the array field `source` at `index`.
pub open spec fn element_at(source: Seq<char>, index: int) -> ValueView {
    single("$arrayElemAt"@, ValueView::Array(items().push(text(source)).push(ValueView::Int(index))))
}

/// The percentile fields of a summary: each label takes the element of the
/// percentile array at the position at which its percentile was asked for.
pub open spec fn percentile_fields(source: Seq<char>) -> ValueView {
    nested(
        fields()
            .push(("p90"@, element_at(source, 0)))
            .push(("p95"@, element_at(source, 1)))
            .push(("p99"@, element_at(source, 2))),
    )
}

/// Stage one: the samples whose account and namespace are the given ones.
pub open spec fn match_stage(account: Seq<char>, namespace: Seq<char>) -> DocumentView {
    fields().push(
        (
            "$match"@,
            nested(
                fields()
                    .push(("info.account"@, text(account)))
                    .push(("info.namespace"@, text(namespace))),
            ),
        ),
    )
}

/// Stage two: ascending by timestamp.
pub open spec fn sort_stage() -> DocumentView {
    fields().push(("$sort"@, single("timestamp"@, ValueView::Int(1))))
}

/// The start of the window of `unit`, one unit wide, in which the timestamp lies.
pub open spec fn window_of_timestamp(unit: Seq<char>) -> ValueView {
    single(
        "$dateTrunc"@,
        nested(
            fields()
                .push(("date"@, text("$timestamp"@)))
                .push(("unit"@, text(unit)))
                .push(("binSize"@, ValueView::Int(1))),
        ),
    )
}

/// The key of a group: account, namespace, container, and window.
pub open spec fn bucket_key(unit: Seq<char>) -> ValueView {
    nested(
        fields()
            .push(("account"@, text("$info.account"@)))
            .push(("namespace"@, text("$info.namespace"@)))
            .push(("container_name"@, text("$info.container_name"@)))
            .push(("timestamp"@, window_of_timestamp(unit))),
    )
}

/// The approximate percentiles of a measure, in the order of `requested_percentiles`.
pub open spec fn percentile_reducer(measure: Seq<char>) -> ValueView {
    single(
        "$percentile"@,
        nested(
            fields()
                .push(("input"@, text(measure_path(measure))))
                .push(("p"@, requested_percentiles()))
                .push(("method"@, text("approximate"@))),
        ),
    )
}

/// `group` followed by the four reducers of a measure: mean, minimum, maximum, percentiles.
pub open spec fn with_reducers(group: DocumentView, measure: Seq<char>) -> DocumentView {
    group
        .push(("avg_"@ + measure, single("$avg"@, text(measure_path(measure)))))
        .push(("min_"@ + measure, single("$min"@, text(measure_path(measure)))))
        .push(("max_"@ + measure, single("$max"@, text(measure_path(measure)))))
        .push(("percentile_"@ + measure, percentile_reducer(measure)))
}

/// Stage three: one group per container and window, with the reducers of both
/// measures and the first timestamp that the group met.
pub open spec fn group_stage(unit: Seq<char>) -> DocumentView {
    fields().push(
        (
            "$group"@,
            nested(
                with_reducers(
                    with_reducers(fields().push(("_id"@, bucket_key(unit))), memory_measure()),
                    cpu_measure(),
                ).push(("timestamp"@, single("$first"@, text("$timestamp"@)))),
            ),
        ),
    )
}

/// The summary of a measure in a report record.
pub open spec fn summary_shape(measure: Seq<char>) -> ValueView {
    nested(
        fields()
            .push(("usage"@, text("$avg_"@ + measure)))
            .push(("min"@, text("$min_"@ + measure)))
            .push(("max"@, text("$max_"@ + measure)))
            .push(("percentile"@, percentile_fields("$percentile_"@ + measure))),
    )
}

/// The start of the day on which the timestamp lies.
pub open spec fn day_of_timestamp() -> ValueView {
    single(
        "$dateTrunc"@,
        nested(fields().push(("date"@, text("$timestamp"@))).push(("unit"@, text("day"@)))),
    )
}

/// Stage four: the report record of a group. Its timestamp is the start of the
/// day of the group's first timestamp, whatever the window; the window's unit
/// is its label.
pub open spec fn project_stage(unit: Seq<char>) -> DocumentView {
    fields().push(
        (
            "$project"@,
            nested(
                fields()
                    .push(("account"@, text("$_id.account"@)))
                    .push(("namespace"@, text("$_id.namespace"@)))
                    .push(("container_name"@, text("$_id.container_name"@)))
                    .push(("cpu"@, summary_shape(cpu_measure())))
                    .push(("memory"@, summary_shape(memory_measure())))
                    .push(("timestamp"@, day_of_timestamp()))
                    .push(("aggregation_type"@, text(unit))),
            ),
        ),
    )
}

/// The key by which records are collected: account, namespace and label.
pub open spec fn collect_key() -> ValueView {
    nested(
        fields()
            .push(("account"@, text("$account"@)))
            .push(("namespace"@, text("$namespace"@)))
            .push(("aggregation_type"@, text("$aggregation_type"@))),
    )
}

/// What is kept of each record in the `data` of its grouping document.
pub open spec fn collected_record() -> ValueView {
    nested(
        fields()
            .push(("account"@, text("$account"@)))
            .push(("namespace"@, text("$namespace"@)))
            .push(("container_name"@, text("$container_name"@)))
            .push(("cpu"@, text("$cpu"@)))
            .push(("memory"@, text("$memory"@)))
            .push(("timestamp"@, text("$timestamp"@))),
    )
}

/// Stage five: the records of one account, namespace and label, in the order
/// in which they arrive, as the `data` of one grouping document.
pub open spec fn collect_stage() -> DocumentView {
    fields().push(
        (
            "$group"@,
            nested(
                fields()
                    .push(("_id"@, collect_key()))
                    .push(("data"@, single("$push"@, collected_record()))),
            ),
        ),
    )
}

/// Stage six: the grouping key is no part of what is emitted.
pub open spec fn drop_key_stage() -> DocumentView {
    fields().push(("$project"@, single("_id"@, ValueView::Int(0))))
}

/// The whole pipeline for one account, namespace and window unit.
pub open spec fn report_pipeline_spec(
    account: Seq<char>,
    namespace: Seq<char>,
    unit: Seq<char>,
) -> Seq<DocumentView> {
    Seq::empty()
        .push(match_stage(account, namespace))
        .push(sort_stage())
        .push(group_stage(unit))
        .push(project_stage(unit))
        .push(collect_stage())
        .push(drop_key_stage())
}

/// What the stages of a pipeline hold, in order.
pub open spec fn stages_view(stages: Seq<Document>) -> Seq<DocumentView> {
    stages.map_values(|stage: Document| stage@)
}

/// The percentiles are asked for in the order of their ranks in a summary, and
/// each field of a summary is fed from the position of the rank it is named
/// after: 90 at 0, 95 at 1, 99 at 2.
pub proof fn lemma_percentiles_by_position(source: Seq<char>)
    ensures
        requested_percentiles() == ValueView::Array(
            summary_ranks().map_values(|rank: u8| ValueView::Hundredths(rank as int)),
        ),
        percentile_fields(source) == nested(
            Seq::new(
                3,
                |i: int|
                    (
                        if i == 0 {
                            "p90"@
                        } else if i == 1 {
                            "p95"@
                        } else {
                            "p99"@
                        },
                        element_at(source, i),
                    ),
            ),
        ),
{
    assert(summary_ranks().map_values(|rank: u8| ValueView::Hundredths(rank as int)) =~= items()
        .push(ValueView::Hundredths(90))
        .push(ValueView::Hundredths(95))
        .push(ValueView::Hundredths(99)));
    assert(Seq::new(
        3,
        |i: int|
            (
                if i == 0 {
                    "p90"@
                } else if i == 1 {
                    "p95"@
                } else {
                    "p99"@
                },
                element_at(source, i),
            ),
    ) =~= fields()
        .push(("p90"@, element_at(source, 0)))
        .push(("p95"@, element_at(source, 1)))
        .push(("p99"@, element_at(source, 2))));
}

/// `prefix` followed by `rest`.
fn joined(prefix: &str, rest: &str) -> (text: String)
    ensures
        text@ == prefix@ + rest@,
{
    let mut text = String::from_str(prefix);
    text.append(rest);
    text
}

/// The string value `prefix` followed by `rest`.
fn joined_text(prefix: &str, rest: &str) -> (value: Value)
    ensures
        value@ == text(prefix@ + rest@),
{
    Value::Text(joined(prefix, rest))
}

fn single_value(name: &str, value: Value) -> (document: Value)
    ensures
        document@ == single(name@, value@),
{
    Document::new().with(name, value).into_value()
}

fn requested_percentiles_value() -> (value: Value)
    ensures
        value@ == requested_percentiles(),
{
    Array::new()
        .with(Value::Hundredths(90))
        .with(Value::Hundredths(95))
        .with(Value::Hundredths(99))
        .into_value()
}

fn element_at_value(source: &str, index: i32) -> (value: Value)
    ensures
        value@ == element_at(source@, index as int),
{
    single_value(
        "$arrayElemAt",
        Array::new().with(Value::text(source)).with(Value::Int(index)).into_value(),
    )
}

fn percentile_fields_value(source: &str) -> (value: Value)
    ensures
        value@ == percentile_fields(source@),
{
    Document::new()
        .with("p90", element_at_value(source, 0))
        .with("p95", element_at_value(source, 1))
        .with("p99", element_at_value(source, 2))
        .into_value()
}

/// Stage one of the pipeline.
pub fn build_match_stage(account: &str, namespace: &str) -> (stage: Document)
    ensures
        stage@ == match_stage(account@, namespace@),
{
    Document::new().with(
        "$match",
        Document::new()
            .with("info.account", Value::text(account))
            .with("info.namespace", Value::text(namespace))
            .into_value(),
    )
}

/// Stage two of the pipeline.
pub fn build_sort_stage() -> (stage: Document)
    ensures
        stage@ == sort_stage(),
{
    Document::new().with("$sort", single_value("timestamp", Value::Int(1)))
}

fn window_of_timestamp_value(unit: &str) -> (value: Value)
    ensures
        value@ == window_of_timestamp(unit@),
{
    single_value(
        "$dateTrunc",
        Document::new()
            .with("date", Value::text("$timestamp"))
            .with("unit", Value::text(unit))
            .with("binSize", Value::Int(1))
            .into_value(),
    )
}

fn bucket_key_value(unit: &str) -> (value: Value)
    ensures
        value@ == bucket_key(unit@),
{
    Document::new()
        .with("account", Value::text("$info.account"))
        .with("namespace", Value::text("$info.namespace"))
        .with("container_name", Value::text("$info.container_name"))
        .with("timestamp", window_of_timestamp_value(unit))
        .into_value()
}

fn percentile_reducer_value(measure: &str) -> (value: Value)
    ensures
        value@ == percentile_reducer(measure@),
{
    single_value(
        "$percentile",
        Document::new()
            .with("input", joined_text("$metrics.", measure))
            .with("p", requested_percentiles_value())
            .with("method", Value::text("approximate"))
            .into_value(),
    )
}

fn add_reducers(group: Document, measure: &str) -> (extended: Document)
    ensures
        extended@ == with_reducers(group@, measure@),
{
    let mean = joined("avg_", measure);
    let least = joined("min_", measure);
    let most = joined("max_", measure);
    let percentiles = joined("percentile_", measure);
    group
        .with(mean.as_str(), single_value("$avg", joined_text("$metrics.", measure)))
        .with(least.as_str(), single_value("$min", joined_text("$metrics.", measure)))
        .with(most.as_str(), single_value("$max", joined_text("$metrics.", measure)))
        .with(percentiles.as_str(), percentile_reducer_value(measure))
}

/// Stage three of the pipeline, for windows of `unit`.
pub fn build_group_stage(unit: WindowUnit) -> (stage: Document)
    ensures
        stage@ == group_stage(unit.name_spec()),
{
    let keyed = Document::new().with("_id", bucket_key_value(unit.name()));
    let reduced = add_reducers(add_reducers(keyed, "memory_usage"), "cpu_usage");
    Document::new().with(
        "$group",
        reduced.with("timestamp", single_value("$first", Value::text("$timestamp"))).into_value(),
    )
}

fn summary_shape_value(measure: &str) -> (value: Value)
    ensures
        value@ == summary_shape(measure@),
{
    let percentiles = joined("$percentile_", measure);
    Document::new()
        .with("usage", joined_text("$avg_", measure))
        .with("min", joined_text("$min_", measure))
        .with("max", joined_text("$max_", measure))
        .with("percentile", percentile_fields_value(percentiles.as_str()))
        .into_value()
}

fn day_of_timestamp_value() -> (value: Value)
    ensures
        value@ == day_of_timestamp(),
{
    single_value(
        "$dateTrunc",
        Document::new()
            .with("date", Value::text("$timestamp"))
            .with("unit", Value::text("day"))
            .into_value(),
    )
}

/// Stage four of the pipeline, for windows of `unit`.
pub fn build_project_stage(unit: WindowUnit) -> (stage: Document)
    ensures
        stage@ == project_stage(unit.name_spec()),
{
    Document::new().with(
        "$project",
        Document::new()
            .with("account", Value::text("$_id.account"))
            .with("namespace", Value::text("$_id.namespace"))
            .with("container_name", Value::text("$_id.container_name"))
            .with("cpu", summary_shape_value("cpu_usage"))
            .with("memory", summary_shape_value("memory_usage"))
            .with("timestamp", day_of_timestamp_value())
            .with("aggregation_type", Value::text(unit.name()))
            .into_value(),
    )
}

fn collect_key_value() -> (value: Value)
    ensures
        value@ == collect_key(),
{
    Document::new()
        .with("account", Value::text("$account"))
        .with("namespace", Value::text("$namespace"))
        .with("aggregation_type", Value::text("$aggregation_type"))
        .into_value()
}

fn collected_record_value() -> (value: Value)
    ensures
        value@ == collected_record(),
{
    Document::new()
        .with("account", Value::text("$account"))
        .with("namespace", Value::text("$namespace"))
        .with("container_name", Value::text("$container_name"))
        .with("cpu", Value::text("$cpu"))
        .with("memory", Value::text("$memory"))
        .with("timestamp", Value::text("$timestamp"))
        .into_value()
}

/// Stage five of the pipeline.
pub fn build_collect_stage() -> (stage: Document)
    ensures
        stage@ == collect_stage(),
{
    Document::new().with(
        "$group",
        Document::new()
            .with("_id", collect_key_value())
            .with("data", single_value("$push", collected_record_value()))
            .into_value(),
    )
}

/// Stage six of the pipeline.
pub fn build_drop_key_stage() -> (stage: Document)
    ensures
        stage@ == drop_key_stage(),
{
    Document::new().with("$project", single_value("_id", Value::Int(0)))
}

/// The pipeline for one account, namespace and window unit: its six stages, in order.
pub fn report_pipeline(account: &str, namespace: &str, unit: WindowUnit) -> (stages: Vec<Document>)
    ensures
        stages_view(stages@) == report_pipeline_spec(account@, namespace@, unit.name_spec()),
{
    let mut stages: Vec<Document> = Vec::new();
    stages.push(build_match_stage(account, namespace));
    stages.push(build_sort_stage());
    stages.push(build_group_stage(unit));
    stages.push(build_project_stage(unit));
    stages.push(build_collect_stage());
    stages.push(build_drop_key_stage());
    assert(stages_view(stages@) =~= report_pipeline_spec(account@, namespace@, unit.name_spec()));
    stages
}

} // verus!
