//! The operation journal: one entry per attempted replace action, appended to
//! a JSON array file in the backup directory, with size-based rotation.

use vstd::prelude::*;

use crate::model::Message;
use crate::pathing::{path_join, spec_path_join};

verus! {

/// A journal entry grows the log file; past this size the file is rotated
/// before the next append.
pub const LOG_SIZE_LIMIT: u64 = 1048576;

/// The kind of mutation a journal entry records.
#[derive(Clone, Copy, PartialEq, Eq, Structural, Debug)]
pub enum Action {
    Replace,
    Backup,
}

impl Action {
    /// The action's name as written in the journal.
    pub fn as_str(&self) -> (r: &'static str)
        ensures
            *self == Action::Replace ==> r@ == "replace"@,
            *self == Action::Backup ==> r@ == "backup"@,
    {
        match self {
            Action::Replace => "replace",
            Action::Backup => "backup",
        }
    }
}

/// Whether a journal entry records a completed or a failed mutation.
#[derive(Clone, Copy, PartialEq, Eq, Structural, Debug)]
pub enum LogStatus {
    Success,
    Failed,
}

impl LogStatus {
    /// The outcome's name as written in the journal.
    pub fn as_str(&self) -> (r: &'static str)
        ensures
            *self == LogStatus::Success ==> r@ == "success"@,
            *self == LogStatus::Failed ==> r@ == "failed"@,
    {
        match self {
            LogStatus::Success => "success",
            LogStatus::Failed => "failed",
        }
    }
}

/// One journal record: what was attempted on which mapping, how it ended, and
/// whatever had been captured when it ended — the pre-replace content hash and
/// the backup location, where they exist.
#[derive(Debug, PartialEq)]
pub struct LogEntry {
    pub action: Action,
    pub source: String,
    pub target: String,
    pub status: LogStatus,
    pub error: Option<Message>,
    pub hash_before: Option<String>,
    pub backup_location: Option<String>,
}

/// The journal file of one backup directory.
pub struct OperationLog {
    pub log_path: String,
}

impl OperationLog {
    /// The journal lives under a fixed name inside the backup directory.
    pub fn new(backup_dir: &str) -> (r: OperationLog)
        ensures
            r.log_path@ == spec_path_join(backup_dir@, ".operations.log"@),
    {
        OperationLog { log_path: path_join(backup_dir, ".operations.log") }
    }

    /// Where the journal is moved when it is rotated.
    pub fn rotated_path(&self) -> (r: String)
        ensures
            r@ == self.log_path@ + ".1"@,
    {
        let mut r = self.log_path.clone();
        r.append(".1");
        r
    }
}

/// Whether the journal must be rotated before the next append.
pub fn should_rotate(log_size: u64) -> (r: bool)
    ensures
        r == (log_size > LOG_SIZE_LIMIT),
{
    log_size > LOG_SIZE_LIMIT
}

} // verus!
