//! The run of one pipeline, as its caller sees it.
//!
//! The store hands the output of a pipeline out lazily, document by document.
//! A run counts as complete only when its output has been read to the end:
//! until then it has neither succeeded nor failed.

use vstd::prelude::*;
use crate::error::ReportError;

verus! {

/// How far the reading of the output of a pipeline has come.
#[derive(Clone, Copy, Debug, PartialEq, Eq, Structural)]
pub enum Execution {
    /// The output is being read; `read` documents have come so far.
    Reading { read: u64 },
    /// The output was read to its end and held `read` documents.
    Complete { read: u64 },
    /// The store failed before the end of the output.
    Failed,
}

/// What the output of a pipeline gives when it is asked for more.
#[derive(Clone, Copy, Debug, PartialEq, Eq, Structural)]
pub enum Progress {
    /// One more document.
    Document,
    /// No more documents.
    End,
    /// An error of the store.
    Failure,
}

impl Execution {
    /// The run after the output gave `step`. While the output is being read, a
    /// document is counted, the end completes the run and a failure fails it.
    /// A run that is complete or has failed stays as it is.
    pub open spec fn after(self, step: Progress) -> Execution {
        match self {
            Execution::Reading { read } => match step {
                Progress::Document => Execution::Reading {
                    read: if read < u64::MAX {
                        (read + 1) as u64
                    } else {
                        read
                    },
                },
                Progress::End => Execution::Complete { read },
                Progress::Failure => Execution::Failed,
            },
            _ => self,
        }
    }

    /// The run after the output gave `steps`, in this order.
    pub open spec fn after_all(self, steps: Seq<Progress>) -> Execution
        decreases steps.len(),
    {
        if steps.len() == 0 {
            self
        } else {
            self.after_all(steps.drop_last()).after(steps.last())
        }
    }

    /// A run whose pipeline was handed to the store and whose output has not been touched.
    pub fn submitted() -> (run: Execution)
        ensures
            run == (Execution::Reading { read: 0 }),
    {
        Execution::Reading { read: 0 }
    }

    /// The run after the output gave `step`.
    pub fn advance(self, step: Progress) -> (next: Execution)
        ensures
            next == self.after(step),
    {
        match self {
            Execution::Reading { read } => match step {
                Progress::Document => Execution::Reading {
                    read: if read < u64::MAX {
                        read + 1
                    } else {
                        read
                    },
                },
                Progress::End => Execution::Complete { read },
                Progress::Failure => Execution::Failed,
            },
            _ => self,
        }
    }

    /// The result of the run: none while the output is being read, the number
    /// of documents read once it was read to its end, and the error of a
    /// failed execution where the store failed.
    pub fn outcome(&self) -> (result: Option<Result<u64, ReportError>>)
        ensures
            result == (match *self {
                Execution::Reading { read } => None::<Result<u64, ReportError>>,
                Execution::Complete { read } => Some(Ok::<u64, ReportError>(read)),
                Execution::Failed => Some(Err::<u64, ReportError>(ReportError::PipelineExecution)),
            }),
    {
        match self {
            Execution::Reading { read: _ } => None,
            Execution::Complete { read } => Some(Ok(*read)),
            Execution::Failed => Some(Err(ReportError::PipelineExecution)),
        }
    }
}

/// A run is complete only if its output was read to the end: the end came,
/// and before it nothing but documents.
pub proof fn lemma_complete_means_read_to_the_end(steps: Seq<Progress>)
    requires
        (Execution::Reading { read: 0 }).after_all(steps) is Complete,
    ensures
        exists|end: int|
            0 <= end < steps.len() && steps[end] == Progress::End && forall|i: int|
                0 <= i < end ==> steps[i] == Progress::Document,
    decreases steps.len(),
{
    let start = Execution::Reading { read: 0 };
    if steps.len() > 0 {
        let front = steps.drop_last();
        if start.after_all(front) is Complete {
            lemma_complete_means_read_to_the_end(front);
            let end = choose|end: int|
                0 <= end < front.len() && front[end] == Progress::End && forall|i: int|
                    0 <= i < end ==> front[i] == Progress::Document;
            assert(steps[end] == Progress::End);
            assert forall|i: int| 0 <= i < end implies steps[i] == Progress::Document by {
                assert(front[i] == Progress::Document);
            }
        } else {
            lemma_reading_means_documents(front);
            let end = steps.len() - 1;
            assert(steps[end] == Progress::End);
            assert forall|i: int| 0 <= i < end implies steps[i] == Progress::Document by {
                assert(front[i] == Progress::Document);
            }
        }
    }
}

/// While a run is reading, its output has given nothing but documents.
pub proof fn lemma_reading_means_documents(steps: Seq<Progress>)
    requires
        (Execution::Reading { read: 0 }).after_all(steps) is Reading,
    ensures
        forall|i: int| 0 <= i < steps.len() ==> steps[i] == Progress::Document,
    decreases steps.len(),
{
    if steps.len() > 0 {
        let front = steps.drop_last();
        lemma_reading_means_documents(front);
        assert forall|i: int| 0 <= i < steps.len() implies steps[i] == Progress::Document by {
            if i < front.len() {
                assert(front[i] == Progress::Document);
            }
        }
    }
}

} // verus!
