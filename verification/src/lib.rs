//! Reconciles a declared set of source files against target locations by
//! maintaining them as hardlinks. The library classifies the on-disk
//! relationship of each (source, target) pair into a status, decides what
//! action a command with its flags must take, and describes the resulting
//! records, backups and journal entries; the surrounding binary performs the
//! filesystem reads and writes.

pub mod cli;
pub mod config;
pub mod engine;
pub mod logging;
pub mod pathing;
pub mod safe_fs;
pub mod model;

use vstd::prelude::*;

use crate::cli::{command_counts_inconsistency, command_name, counts_inconsistency, produces_records, spec_command_name, Command};
use crate::model::{exit_code, spec_exit_code, summary_matches, Record, Report, Summary};

verus! {

/// Aggregate the records that processing one record-producing command
/// produced into its report, and compute the process exit code for it.
pub fn run(command: &Command, records: Vec<Record>) -> (r: (Report, i32))
    requires
        produces_records(*command),
    ensures
        r.0.command@ == spec_command_name(*command),
        summary_matches(records@, r.0.summary),
        r.0.records == records,
        r.1 == spec_exit_code(r.0.summary, counts_inconsistency(*command)),
{
    let summary = Summary::from_records(&records);
    let code = exit_code(&summary, command_counts_inconsistency(command));
    let report = Report { command: command_name(command), summary, records };
    (report, code)
}

} // verus!
