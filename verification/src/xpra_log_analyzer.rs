//! Handle for the historical log analyzer.
//!
//! Reading, parsing and aggregating the on-disk logs is reporting work the
//! surrounding process does; the core only owns the analyzer's identity —
//! which directory it reads — and the hourly-distribution record the
//! reports are built from.

use vstd::prelude::*;

verus! {

/// How many sessions were created in one hour of the day.
#[derive(Clone, Copy, Debug, PartialEq, Eq, Structural)]
pub struct HourlyStats {
    /// Hour of the day, 0 through 23.
    pub hour: u32,
    /// Sessions created in that hour.
    pub session_count: u32,
}

/// Aggregates historical session statistics from the event logs in one
/// directory.
pub struct LogAnalyzer {
    log_dir: String,
}

impl LogAnalyzer {
    /// An analyzer over the logs in the given directory.
    pub fn new(log_dir: String) -> (r: Self)
        ensures
            r.log_dir_spec() == log_dir@,
    {
        LogAnalyzer { log_dir }
    }

    /// The directory the analyzer reads.
    pub closed spec fn log_dir_spec(self) -> Seq<char> {
        self.log_dir@
    }

    /// The directory the analyzer reads.
    pub fn log_dir(&self) -> (r: &String)
        ensures
            r@ == self.log_dir_spec(),
    {
        &self.log_dir
    }
}

} // verus!
