use metrics_aggregator::error::ReportError;
use metrics_aggregator::execution::{Execution, Progress};

fn run(steps: &[Progress]) -> Execution {
    let mut state = Execution::submitted();
    for step in steps {
        state = state.advance(*step);
    }
    state
}

#[test]
fn submitted_run_has_no_outcome() {
    assert_eq!(Execution::submitted(), Execution::Reading { read: 0 });
    assert_eq!(Execution::submitted().outcome(), None);
}

#[test]
fn run_is_complete_only_at_the_end_of_the_output() {
    assert_eq!(run(&[Progress::Document]).outcome(), None);
    assert_eq!(run(&[Progress::Document, Progress::Document]), Execution::Reading { read: 2 });
    assert_eq!(
        run(&[Progress::Document, Progress::Document, Progress::End]),
        Execution::Complete { read: 2 }
    );
    assert_eq!(
        run(&[Progress::Document, Progress::Document, Progress::End]).outcome(),
        Some(Ok(2))
    );
    assert_eq!(run(&[Progress::End]).outcome(), Some(Ok(0)));
}

#[test]
fn failure_of_the_store_fails_the_run() {
    assert_eq!(run(&[Progress::Failure]), Execution::Failed);
    assert_eq!(
        run(&[Progress::Document, Progress::Failure]).outcome(),
        Some(Err(ReportError::PipelineExecution))
    );
}

#[test]
fn ended_run_stays_as_it_is() {
    for step in [Progress::Document, Progress::End, Progress::Failure] {
        assert_eq!(
            run(&[Progress::Document, Progress::End, step]),
            Execution::Complete { read: 1 }
        );
        assert_eq!(run(&[Progress::Failure, step]), Execution::Failed);
    }
}

#[test]
fn count_of_documents_stops_at_the_greatest_number() {
    let full = Execution::Reading { read: u64::MAX };
    assert_eq!(full.advance(Progress::Document), full);
    assert_eq!(full.advance(Progress::End), Execution::Complete { read: u64::MAX });
    assert_eq!(
        (Execution::Reading { read: u64::MAX - 1 }).advance(Progress::Document),
        full
    );
}
