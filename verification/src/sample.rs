use vstd::prelude::*;

verus! {

/// One raw metric sample: what a container used at one moment.
///
/// The timestamp counts milliseconds from the start of 1 January 1970, UTC.
/// The two measures are whole numbers in units of the caller's choice.
#[derive(Debug, PartialEq, Eq)]
pub struct Sample {
    pub account: String,
    pub namespace: String,
    pub container_name: String,
    pub timestamp: i64,
    pub cpu_usage: i64,
    pub memory_usage: i64,
}

impl Clone for Sample {
    fn clone(&self) -> (copy: Sample)
        ensures
            copy == *self,
    {
        Sample {
            account: self.account.clone(),
            namespace: self.namespace.clone(),
            container_name: self.container_name.clone(),
            timestamp: self.timestamp,
            cpu_usage: self.cpu_usage,
            memory_usage: self.memory_usage,
        }
    }
}

/// The sample belongs to the account and the namespace.
pub open spec fn is_selected(sample: Sample, account: Seq<char>, namespace: Seq<char>) -> bool {
    sample.account@ == account && sample.namespace@ == namespace
}

/// The test by which samples are selected for an account and a namespace.
pub open spec fn selection(account: Seq<char>, namespace: Seq<char>) -> spec_fn(Sample) -> bool {
    |sample: Sample| is_selected(sample, account, namespace)
}

/// The key by which samples are ordered: their timestamp.
pub open spec fn time_key() -> spec_fn(Sample) -> int {
    |sample: Sample| sample.timestamp as int
}

/// The CPU usage of a sample.
pub open spec fn cpu_of() -> spec_fn(Sample) -> i64 {
    |sample: Sample| sample.cpu_usage
}

/// The memory usage of a sample.
pub open spec fn memory_of() -> spec_fn(Sample) -> i64 {
    |sample: Sample| sample.memory_usage
}

} // verus!
