//! Handle for the log rotator.
//!
//! Rotating, compressing and expiring the on-disk logs is retention work
//! the surrounding process does on a timer; the core only owns the
//! rotator's identity — which directory it tends.

use vstd::prelude::*;

verus! {

/// Rotates and expires the log files in one directory.
pub struct LogRotator {
    log_dir: String,
}

impl LogRotator {
    /// A rotator over the logs in the given directory.
    pub fn new(log_dir: String) -> (r: Self)
        ensures
            r.log_dir_spec() == log_dir@,
    {
        LogRotator { log_dir }
    }

    /// The directory the rotator tends.
    pub closed spec fn log_dir_spec(self) -> Seq<char> {
        self.log_dir@
    }

    /// The directory the rotator tends.
    pub fn log_dir(&self) -> (r: &String)
        ensures
            r@ == self.log_dir_spec(),
    {
        &self.log_dir
    }
}

} // verus!
