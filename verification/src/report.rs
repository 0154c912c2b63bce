use vstd::prelude::*;
use crate::sample::{cpu_of, memory_of, Sample};
use crate::summary::Summary;
use crate::window::WindowUnit;

verus! {

/// The summary of one container in one window.
#[derive(Clone, Debug, PartialEq, Eq)]
pub struct ReportRecord {
    pub account: String,
    pub namespace: String,
    pub container_name: String,
    pub cpu: Summary,
    pub memory: Summary,
    /// The start of the day of the first sample of the window.
    pub timestamp: i64,
    /// The unit of the window.
    pub aggregation_type: String,
}

/// The records of one account and namespace for one unit of window.
#[derive(Clone, Debug, PartialEq, Eq)]
pub struct ReportGroup {
    pub account: String,
    pub namespace: String,
    pub aggregation_type: String,
    pub data: Vec<ReportRecord>,
}

impl ReportRecord {
    /// This is the record of a group of samples whose first one, in order of
    /// time, is `first`: it names the container of the group, summarizes both
    /// measures over all `members`, is dated to the start of the day of
    /// `first`, whatever the unit, and is labelled with the unit.
    pub open spec fn reports(&self, first: Sample, members: Seq<Sample>, unit: WindowUnit) -> bool {
        &&& self.account@ == first.account@
        &&& self.namespace@ == first.namespace@
        &&& self.container_name@ == first.container_name@
        &&& self.cpu.summarizes(members.map_values(cpu_of()))
        &&& self.memory.summarizes(members.map_values(memory_of()))
        &&& self.timestamp == WindowUnit::Day.window_start(first.timestamp as int)
        &&& self.aggregation_type@ == unit.name_spec()
    }
}

} // verus!
