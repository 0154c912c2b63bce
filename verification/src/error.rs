use vstd::prelude::*;

verus! {

/// What can go wrong while reports are looked up or updated. Whether the store
/// can be reached at all is known where the session is opened, not here.
#[derive(Clone, Copy, Debug, PartialEq, Eq, Structural)]
pub enum ReportError {
    /// The namespace registry holds no entry for the account.
    LookupNotFound,
    /// The store failed while it ran the pipeline of one namespace.
    PipelineExecution,
    /// The aggregation window is none of the units by which a date can be truncated.
    UnsupportedWindowUnit,
    /// A sample's timestamp is so early that the start of its window cannot be represented.
    TimestampOutOfRange,
}

impl ReportError {
    /// A message for each error, for callers that print or log it.
    pub fn message(&self) -> (text: String)
        ensures
            text@ == self.message_spec(),
    {
        match self {
            ReportError::LookupNotFound => String::from_str("no namespace entry for the account"),
            ReportError::PipelineExecution => String::from_str("error on aggregate"),
            ReportError::UnsupportedWindowUnit => String::from_str("unsupported aggregation window"),
            ReportError::TimestampOutOfRange => String::from_str("timestamp out of range"),
        }
    }

    pub open spec fn message_spec(&self) -> Seq<char> {
        match self {
            ReportError::LookupNotFound => "no namespace entry for the account"@,
            ReportError::PipelineExecution => "error on aggregate"@,
            ReportError::UnsupportedWindowUnit => "unsupported aggregation window"@,
            ReportError::TimestampOutOfRange => "timestamp out of range"@,
        }
    }
}

} // verus!
