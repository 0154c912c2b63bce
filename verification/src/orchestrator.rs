//! The fan-out of one aggregation per namespace of an account.
//!
//! The caller runs the tasks of a batch concurrently and reports each one as it
//! ends, in whatever order they end. A task that fails is counted and otherwise
//! left alone: it neither stops the others nor fails the batch.

use vstd::prelude::*;
use crate::aggregate::{aggregate, all_fit, groups_report, ordered_selection};
use crate::error::ReportError;
use crate::report::ReportGroup;
use crate::sample::Sample;
use crate::window::{lemma_unit_names_differ, WindowUnit};

verus! {

/// One aggregation to run: the samples of `namespace` in `account`, in windows of `unit`.
#[derive(Clone, Debug, PartialEq, Eq)]
pub struct AggregationTask {
    pub account: String,
    pub namespace: String,
    pub unit: WindowUnit,
}

/// A batch of aggregations and how far it has come.
#[derive(Clone, Debug, PartialEq, Eq)]
pub struct Batch {
    pub tasks: Vec<AggregationTask>,
    pub finished: usize,
    pub failed: usize,
}

impl Batch {
    /// No more tasks have ended than were scheduled, and no more have failed than have ended.
    pub open spec fn well_formed(&self) -> bool {
        self.failed <= self.finished <= self.tasks@.len()
    }

    /// The batch schedules, for each of `namespaces` and in their order, one
    /// aggregation of that namespace in `account` with windows of `window`, and
    /// none of them has ended.
    pub open spec fn schedules(
        &self,
        account: Seq<char>,
        namespaces: Seq<String>,
        window: Seq<char>,
    ) -> bool {
        &&& self.finished == 0
        &&& self.failed == 0
        &&& self.tasks@.len() == namespaces.len()
        &&& forall|i: int|
            0 <= i < namespaces.len() ==> {
                &&& (#[trigger] self.tasks@[i]).account@ == account
                &&& self.tasks@[i].namespace@ == namespaces[i]@
                &&& self.tasks@[i].unit.name_spec() == window
            }
    }

    /// Every task has ended.
    pub open spec fn is_done(&self) -> bool {
        self.finished >= self.tasks@.len()
    }

    /// The batch after one more task has ended with `outcome`: one more has
    /// ended, one more has failed where the outcome is an error, and the
    /// tasks are what they were. A batch that is done stays as it is.
    pub open spec fn recorded(self, outcome: Result<(), ReportError>) -> Batch {
        if self.finished < self.tasks@.len() {
            Batch {
                tasks: self.tasks,
                finished: (self.finished + 1) as usize,
                failed: (if outcome is Err {
                    self.failed + 1
                } else {
                    self.failed as int
                }) as usize,
            }
        } else {
            self
        }
    }

    /// The batch after tasks have ended with `outcomes`, in this order.
    pub open spec fn recorded_all(self, outcomes: Seq<Result<(), ReportError>>) -> Batch
        decreases outcomes.len(),
    {
        if outcomes.len() == 0 {
            self
        } else {
            self.recorded_all(outcomes.drop_last()).recorded(outcomes.last())
        }
    }

    /// How many tasks have not ended yet.
    pub fn pending(&self) -> (count: usize)
        ensures
            count == (if self.is_done() {
                0
            } else {
                self.tasks@.len() - self.finished
            }),
    {
        if self.finished >= self.tasks.len() {
            0
        } else {
            self.tasks.len() - self.finished
        }
    }

    /// Takes note that one more task has ended, with `outcome`.
    ///
    /// A failure is counted and changes nothing else: the tasks that are still
    /// running stay scheduled. Once every task has ended, further reports are ignored.
    pub fn record(&mut self, outcome: Result<(), ReportError>)
        requires
            old(self).well_formed(),
        ensures
            final(self).well_formed(),
            *final(self) == old(self).recorded(outcome),
    {
        if self.finished < self.tasks.len() {
            self.finished = self.finished + 1;
            if outcome.is_err() {
                self.failed = self.failed + 1;
            }
        }
    }

    /// The result of the batch: none while a task is still running, success
    /// once all have ended, however many of them failed.
    pub fn conclude(&self) -> (result: Option<Result<(), ReportError>>)
        ensures
            result is Some <==> self.is_done(),
            result matches Some(r) ==> r is Ok,
    {
        if self.finished >= self.tasks.len() {
            Some(Ok(()))
        } else {
            None
        }
    }
}

/// However the tasks of a batch end, failures among them or not, the batch is
/// done when as many have ended as were scheduled and not before, and the
/// tasks are still the ones that were scheduled.
pub proof fn lemma_failures_do_not_stop_a_batch(
    batch: Batch,
    outcomes: Seq<Result<(), ReportError>>,
)
    requires
        batch.well_formed(),
        batch.finished == 0,
        outcomes.len() <= batch.tasks@.len(),
    ensures
        batch.recorded_all(outcomes).well_formed(),
        batch.recorded_all(outcomes).tasks == batch.tasks,
        batch.recorded_all(outcomes).finished == outcomes.len(),
        batch.recorded_all(outcomes).is_done() <==> outcomes.len() == batch.tasks@.len(),
    decreases outcomes.len(),
{
    assert(batch.tasks@.len() == batch.tasks.len());
    if outcomes.len() > 0 {
        lemma_failures_do_not_stop_a_batch(batch, outcomes.drop_last());
    }
}

/// A batch without namespaces is done at once.
pub proof fn lemma_empty_batch_is_done(batch: Batch, account: Seq<char>, window: Seq<char>)
    requires
        batch.schedules(account, Seq::empty(), window),
    ensures
        batch.tasks@.len() == 0,
        batch.is_done(),
{
}

/// The batch for the namespaces of one account.
///
/// Without namespaces there is nothing to schedule and nothing to refuse: the
/// batch is empty and already done. Otherwise the window is looked at once,
/// before anything is scheduled, and a word that is no unit of truncation
/// fails the whole batch.
pub fn update_report_view(account: &str, namespaces: &Vec<String>, aggregation_window: &str) -> (planned:
    Result<Batch, ReportError>)
    ensures
        planned is Err <==> namespaces@.len() > 0 && !WindowUnit::is_supported(aggregation_window@),
        planned matches Ok(batch) ==> batch.well_formed() && batch.schedules(
            account@,
            namespaces@,
            aggregation_window@,
        ),
        planned matches Err(e) ==> e == ReportError::UnsupportedWindowUnit,
{
    let mut tasks: Vec<AggregationTask> = Vec::new();
    if namespaces.len() == 0 {
        return Ok(Batch { tasks, finished: 0, failed: 0 });
    }
    let unit = match WindowUnit::parse(aggregation_window) {
        Ok(unit) => unit,
        Err(e) => {
            return Err(e);
        },
    };
    let mut i: usize = 0;
    while i < namespaces.len()
        invariant
            i <= namespaces@.len(),
            tasks@.len() == i,
            unit.name_spec() == aggregation_window@,
            forall|j: int|
                0 <= j < i ==> {
                    &&& (#[trigger] tasks@[j]).account@ == account@
                    &&& tasks@[j].namespace@ == namespaces@[j]@
                    &&& tasks@[j].unit == unit
                },
        decreases namespaces@.len() - i,
    {
        tasks.push(
            AggregationTask {
                account: String::from_str(account),
                namespace: namespaces[i].clone(),
                unit,
            },
        );
        i += 1;
    }
    Ok(Batch { tasks, finished: 0, failed: 0 })
}

/// What the aggregation of one namespace leaves behind: its grouping
/// documents where it succeeds, nothing where it fails.
pub open spec fn namespace_outcome(
    written: Seq<ReportGroup>,
    samples: Seq<Sample>,
    account: Seq<char>,
    namespace: Seq<char>,
    unit: WindowUnit,
) -> bool {
    let ordered = ordered_selection(samples, account, namespace);
    if all_fit(ordered, unit) {
        groups_report(written, ordered, account, namespace, unit)
    } else {
        written.len() == 0
    }
}

/// A whole batch, evaluated over samples held in memory: for each namespace,
/// in the order given, what its aggregation leaves behind.
///
/// The batch fails as `update_report_view` does, before any aggregation is
/// run. After that no failure is reported: a namespace whose aggregation fails
/// leaves nothing, and the others are not touched by it.
pub fn evaluate_report_view(
    samples: &Vec<Sample>,
    account: &str,
    namespaces: &Vec<String>,
    aggregation_window: &str,
) -> (written: Result<Vec<Vec<ReportGroup>>, ReportError>)
    ensures
        written is Err <==> namespaces@.len() > 0 && !WindowUnit::is_supported(aggregation_window@),
        written matches Err(e) ==> e == ReportError::UnsupportedWindowUnit,
        written matches Ok(lists) ==> {
            &&& lists@.len() == namespaces@.len()
            &&& forall|i: int, unit: WindowUnit|
                0 <= i < namespaces@.len() && #[trigger] unit.name_spec() == aggregation_window@
                    ==> namespace_outcome(
                    (#[trigger] lists@[i])@,
                    samples@,
                    account@,
                    namespaces@[i]@,
                    unit,
                )
        },
{
    let mut batch = match update_report_view(account, namespaces, aggregation_window) {
        Ok(batch) => batch,
        Err(e) => {
            return Err(e);
        },
    };
    let ghost scheduled = batch;
    let mut lists: Vec<Vec<ReportGroup>> = Vec::new();
    let mut i: usize = 0;
    while i < batch.tasks.len()
        invariant
            batch.well_formed(),
            batch.tasks == scheduled.tasks,
            batch.finished == i,
            scheduled.schedules(account@, namespaces@, aggregation_window@),
            i <= batch.tasks@.len(),
            lists@.len() == i,
            forall|j: int|
                0 <= j < i ==> namespace_outcome(
                    (#[trigger] lists@[j])@,
                    samples@,
                    account@,
                    namespaces@[j]@,
                    batch.tasks@[j].unit,
                ),
        decreases batch.tasks@.len() - i,
    {
        let ghost task = batch.tasks@[i as int];
        assert(task.account@ == account@ && task.namespace@ == namespaces@[i as int]@);
        let outcome = aggregate(
            samples,
            batch.tasks[i].account.as_str(),
            batch.tasks[i].namespace.as_str(),
            batch.tasks[i].unit,
        );
        match outcome {
            Ok(groups) => {
                lists.push(groups);
                batch.record(Ok(()));
            },
            Err(e) => {
                lists.push(Vec::new());
                batch.record(Err(e));
            },
        }
        i = i + 1;
    }
    proof {
        assert forall|j: int, unit: WindowUnit|
            0 <= j < namespaces@.len() && #[trigger] unit.name_spec()
                == aggregation_window@ implies namespace_outcome(
            (#[trigger] lists@[j])@,
            samples@,
            account@,
            namespaces@[j]@,
            unit,
        ) by {
            if batch.tasks@[j].unit != unit {
                lemma_unit_names_differ(batch.tasks@[j].unit, unit);
            }
        }
    }
    Ok(lists)
}

} // verus!
