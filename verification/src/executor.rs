//! Running a plan: what to do with each operation and how the outcome is tallied.
//!
//! The file system work itself is done by the caller, one operation at a time; these
//! functions decide each step and keep the count.
use vstd::prelude::*;

use crate::text::{concat, copy_str, decimal, usize_to_string};

verus! {

/// What running the operations came to.
#[derive(Debug)]
pub struct ExecutionResult {
    pub succeeded: usize,
    pub failed: usize,
    pub skipped: usize,
    pub failures: Vec<String>,
}

impl Default for ExecutionResult {
    fn default() -> (r: Self)
        ensures
            r.succeeded == 0,
            r.failed == 0,
            r.skipped == 0,
            r.failures@.len() == 0,
    {
        ExecutionResult { succeeded: 0, failed: 0, skipped: 0, failures: Vec::new() }
    }
}

pub open spec fn partial_failure_message(failed: nat) -> Seq<char> {
    "partial failure: "@ + decimal(failed) + " operations failed"@
}

/// The next step for one operation.
#[derive(Debug, Clone, Copy, PartialEq, Eq)]
pub enum OperationStep {
    /// Leave the existing destination alone.
    Skip,
    /// Make the destination folder, remove what is in the way when `remove_existing`,
    /// then perform the operation.
    Perform { remove_existing: bool },
}

/// An existing destination is skipped unless overwriting, and then removed first.
pub fn plan_step(destination_exists: bool, overwrite: bool) -> (r: OperationStep)
    ensures
        r == (if destination_exists && !overwrite {
            OperationStep::Skip
        } else {
            OperationStep::Perform { remove_existing: overwrite && destination_exists }
        }),
{
    if destination_exists && !overwrite {
        OperationStep::Skip
    } else {
        OperationStep::Perform { remove_existing: overwrite && destination_exists }
    }
}

/// `source -> destination: error`.
pub fn failure_detail(source: &str, destination: &str, error: &str) -> (r: String)
    ensures
        r@ == source@ + " -> "@ + destination@ + ": "@ + error@,
{
    let mut out = concat(source, " -> ");
    out.append(destination);
    out.append(": ");
    out.append(error);
    out
}

impl ExecutionResult {
    pub fn record_skipped(&mut self)
        requires
            old(self).skipped < usize::MAX,
        ensures
            final(self).skipped == old(self).skipped + 1,
            final(self).succeeded == old(self).succeeded,
            final(self).failed == old(self).failed,
            final(self).failures@ == old(self).failures@,
    {
        self.skipped = self.skipped + 1;
    }

    pub fn record_success(&mut self)
        requires
            old(self).succeeded < usize::MAX,
        ensures
            final(self).succeeded == old(self).succeeded + 1,
            final(self).skipped == old(self).skipped,
            final(self).failed == old(self).failed,
            final(self).failures@ == old(self).failures@,
    {
        self.succeeded = self.succeeded + 1;
    }

    pub fn record_failure(&mut self, detail: String)
        requires
            old(self).failed < usize::MAX,
        ensures
            final(self).failed == old(self).failed + 1,
            final(self).succeeded == old(self).succeeded,
            final(self).skipped == old(self).skipped,
            final(self).failures@ == old(self).failures@.push(detail),
    {
        self.failed = self.failed + 1;
        self.failures.push(detail);
    }

    /// Success when nothing failed; else a complete failure when nothing succeeded, and a
    /// partial failure naming the count otherwise.
    pub fn into_exit_result(self) -> (r: Result<(), String>)
        ensures
            r is Ok <==> self.failed == 0,
            r matches Err(m) ==> m@ == if self.succeeded == 0 {
                "complete failure: all operations failed"@
            } else {
                partial_failure_message(self.failed as nat)
            },
    {
        if self.succeeded == 0 && self.failed > 0 {
            return Err(copy_str("complete failure: all operations failed"));
        }
        if self.failed > 0 {
            let mut msg = copy_str("partial failure: ");
            let n = usize_to_string(self.failed);
            msg.append(n.as_str());
            msg.append(" operations failed");
            return Err(msg);
        }
        Ok(())
    }
}

} // verus!
