use metrics_aggregator::error::ReportError;
use metrics_aggregator::namespace_model::{lookup_namespaces, Namespace};
use metrics_aggregator::aggregate::aggregate;
use metrics_aggregator::orchestrator::{
    evaluate_report_view, update_report_view, AggregationTask, Batch,
};
use metrics_aggregator::report_repository::{DatabaseClient, ReportRepository};
use metrics_aggregator::sample::Sample;
use metrics_aggregator::secret::Secret;
use metrics_aggregator::window::WindowUnit;

fn entry(account: &str, namespaces: &[&str]) -> Namespace {
    Namespace {
        account: account.to_string(),
        namespaces: namespaces.iter().map(|n| n.to_string()).collect(),
    }
}

fn repository() -> ReportRepository {
    let secret = Secret::new(
        "localhost".to_string(),
        "user".to_string(),
        "SECRET-REDACTED".to_string(),
        "metrics".to_string(),
    );
    ReportRepository::init(DatabaseClient::init(&secret))
}

fn names(list: &[&str]) -> Vec<String> {
    list.iter().map(|n| n.to_string()).collect()
}

#[test]
fn get_namespaces_missing_account_is_not_found() {
    let registry = vec![entry("acct-with-entry", &["ns1", "ns2"])];
    assert_eq!(
        repository().get_namespaces("missing-account", &registry),
        Err(ReportError::LookupNotFound)
    );
    assert_eq!(
        repository().get_namespaces("missing-account", &vec![]),
        Err(ReportError::LookupNotFound)
    );
}

#[test]
fn get_namespaces_yields_the_registered_sequence() {
    let registry = vec![
        entry("other", &["x"]),
        entry("acct-with-entry", &["zeta", "alpha", "zeta", "mid"]),
    ];
    assert_eq!(
        repository().get_namespaces("acct-with-entry", &registry),
        Ok(names(&["zeta", "alpha", "zeta", "mid"]))
    );
}

#[test]
fn get_namespaces_entry_without_namespaces_is_found() {
    let registry = vec![entry("empty", &[])];
    assert_eq!(repository().get_namespaces("empty", &registry), Ok(vec![]));
}

#[test]
fn get_namespaces_takes_the_first_of_several_entries() {
    let registry = vec![entry("twice", &["first"]), entry("twice", &["second"])];
    assert_eq!(lookup_namespaces(&registry, "twice"), Ok(names(&["first"])));
}

#[test]
fn get_namespaces_compares_the_whole_account() {
    let registry = vec![entry("acct", &["ns"])];
    for account in ["acc", "acct1", "Acct", ""] {
        assert_eq!(lookup_namespaces(&registry, account), Err(ReportError::LookupNotFound));
    }
}

#[test]
fn update_report_view_without_namespaces_is_done() {
    let batch = update_report_view("acct1", &vec![], "hour").unwrap();
    assert_eq!(batch.tasks.len(), 0);
    assert_eq!(batch.pending(), 0);
    assert_eq!(batch.conclude(), Some(Ok(())));
}

#[test]
fn update_report_view_without_namespaces_ignores_the_window() {
    let batch = update_report_view("acct1", &vec![], "no-such-unit").unwrap();
    assert_eq!(batch.tasks.len(), 0);
    assert_eq!(batch.conclude(), Some(Ok(())));
}

#[test]
fn update_report_view_schedules_one_task_per_namespace() {
    let namespaces = names(&["ns2", "ns1", "ns2"]);
    let batch = update_report_view("acct1", &namespaces, "day").unwrap();
    assert_eq!(
        batch.tasks,
        vec![
            AggregationTask {
                account: "acct1".to_string(),
                namespace: "ns2".to_string(),
                unit: WindowUnit::Day
            },
            AggregationTask {
                account: "acct1".to_string(),
                namespace: "ns1".to_string(),
                unit: WindowUnit::Day
            },
            AggregationTask {
                account: "acct1".to_string(),
                namespace: "ns2".to_string(),
                unit: WindowUnit::Day
            },
        ]
    );
    assert_eq!(batch.finished, 0);
    assert_eq!(batch.failed, 0);
    assert_eq!(batch.pending(), 3);
    assert_eq!(batch.conclude(), None);
}

#[test]
fn update_report_view_refuses_unknown_window_before_scheduling() {
    let namespaces = names(&["ns1", "ns2"]);
    assert_eq!(
        update_report_view("acct1", &namespaces, "fortnight"),
        Err(ReportError::UnsupportedWindowUnit)
    );
}

#[test]
fn batch_waits_for_every_task() {
    let mut batch = update_report_view("acct1", &names(&["a", "b", "c"]), "hour").unwrap();
    batch.record(Ok(()));
    assert_eq!(batch.conclude(), None);
    batch.record(Ok(()));
    assert_eq!(batch.conclude(), None);
    assert_eq!(batch.pending(), 1);
    batch.record(Ok(()));
    assert_eq!(batch.pending(), 0);
    assert_eq!(batch.conclude(), Some(Ok(())));
    assert_eq!(batch.failed, 0);
}

#[test]
fn batch_swallows_failures() {
    let mut batch = update_report_view("acct1", &names(&["a", "b", "c"]), "hour").unwrap();
    let tasks = batch.tasks.clone();
    batch.record(Err(ReportError::PipelineExecution));
    assert_eq!(batch.tasks, tasks);
    assert_eq!(batch.pending(), 2);
    assert_eq!(batch.conclude(), None);
    batch.record(Ok(()));
    batch.record(Err(ReportError::UnsupportedWindowUnit));
    assert_eq!(batch.finished, 3);
    assert_eq!(batch.failed, 2);
    assert_eq!(batch.conclude(), Some(Ok(())));
}

#[test]
fn batch_succeeds_when_every_task_fails() {
    let mut batch = update_report_view("acct1", &names(&["a", "b"]), "week").unwrap();
    batch.record(Err(ReportError::PipelineExecution));
    batch.record(Err(ReportError::PipelineExecution));
    assert_eq!(batch.conclude(), Some(Ok(())));
}

#[test]
fn batch_ignores_reports_after_the_last_task() {
    let mut batch = update_report_view("acct1", &names(&["a"]), "week").unwrap();
    batch.record(Ok(()));
    let done = batch.clone();
    batch.record(Err(ReportError::PipelineExecution));
    assert_eq!(batch, done);
    let mut empty = Batch { tasks: vec![], finished: 0, failed: 0 };
    empty.record(Ok(()));
    assert_eq!(empty, Batch { tasks: vec![], finished: 0, failed: 0 });
}

#[test]
fn error_messages() {
    assert_eq!(ReportError::LookupNotFound.message(), "no namespace entry for the account");
    assert_eq!(ReportError::PipelineExecution.message(), "error on aggregate");
    assert_eq!(ReportError::UnsupportedWindowUnit.message(), "unsupported aggregation window");
    assert_eq!(ReportError::TimestampOutOfRange.message(), "timestamp out of range");
}

#[test]
fn failing_namespace_leaves_nothing_and_the_others_their_records() {
    let at = |namespace: &str, timestamp: i64, cpu: i64| Sample {
        account: "acct1".to_string(),
        namespace: namespace.to_string(),
        container_name: "c".to_string(),
        timestamp,
        cpu_usage: cpu,
        memory_usage: 10 * cpu,
    };
    let samples = vec![
        at("good", 1_705_276_800_000, 1),
        at("broken", i64::MIN, 2),
        at("broken", 1_705_276_800_000, 3),
        at("also-good", 1_705_280_400_000, 4),
        at("good", 1_705_280_400_000, 5),
    ];
    let namespaces = names(&["good", "broken", "also-good", "unknown"]);
    assert_eq!(
        aggregate(&samples, "acct1", "broken", WindowUnit::Hour),
        Err(ReportError::TimestampOutOfRange)
    );
    let written = evaluate_report_view(&samples, "acct1", &namespaces, "hour").unwrap();
    assert_eq!(written.len(), 4);
    assert_eq!(written[0], aggregate(&samples, "acct1", "good", WindowUnit::Hour).unwrap());
    assert_eq!(written[0][0].data.len(), 2);
    assert_eq!(written[1], vec![]);
    assert_eq!(written[2], aggregate(&samples, "acct1", "also-good", WindowUnit::Hour).unwrap());
    assert_eq!(written[2][0].data.len(), 1);
    assert_eq!(written[2][0].data[0].cpu.usage.total, 4);
    assert_eq!(written[3], vec![]);
}

#[test]
fn evaluate_report_view_fails_only_before_the_batch() {
    assert_eq!(
        evaluate_report_view(&vec![], "acct1", &names(&["ns1"]), "fortnight"),
        Err(ReportError::UnsupportedWindowUnit)
    );
    assert_eq!(evaluate_report_view(&vec![], "acct1", &vec![], "fortnight"), Ok(vec![]));
    assert_eq!(evaluate_report_view(&vec![], "acct1", &names(&["ns1"]), "day"), Ok(vec![vec![]]));
}
