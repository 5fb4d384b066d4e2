//! Core data model: mappings, on-disk probe results, statuses, records and
//! per-run summaries.

use vstd::prelude::*;

verus! {

/// Origin of a mapping: declared directly in the configuration, or discovered
/// by walking a skills directory tree.
#[derive(Clone, Copy, PartialEq, Eq, Structural, Debug)]
pub enum MappingKind {
    ConfigFile,
    SkillFile,
}

/// One declared (source, target) pair of absolute paths to be kept
/// hardlink-identical.
#[derive(Debug)]
pub struct Mapping {
    pub kind: MappingKind,
    pub source: String,
    pub target: String,
}

/// Mathematical view of a `Mapping`: the paths as character sequences.
pub struct MappingView {
    pub kind: MappingKind,
    pub source: Seq<char>,
    pub target: Seq<char>,
}

impl View for Mapping {
    type V = MappingView;

    open spec fn view(&self) -> MappingView {
        MappingView { kind: self.kind, source: self.source@, target: self.target@ }
    }
}

/// Everything path templates resolve against: the configuration file's
/// directory, the repository root's textual form, and the home directory
/// (as a path and as text), when one is known.
pub struct ResolveContext {
    pub config_dir: String,
    pub repo_root_text: String,
    pub home_dir: Option<String>,
    pub home_dir_text: Option<String>,
}

/// What kind of directory entry a metadata probe saw (without following
/// symbolic links).
#[derive(Clone, Copy, PartialEq, Eq, Structural, Debug)]
pub enum FileKind {
    Regular,
    Directory,
    Symlink,
    Special,
}

/// Link-aware file metadata, as plain values: entry kind, device and inode
/// numbers, hardlink count and byte size.
#[derive(Clone, Copy, PartialEq, Eq, Structural, Debug)]
pub struct FileMeta {
    pub kind: FileKind,
    pub dev: u64,
    pub ino: u64,
    pub nlink: u64,
    pub size: u64,
}

/// Result of reading a path's metadata: present with its metadata, absent,
/// or unreadable for another reason. The `Missing` and `Denied` payloads carry
/// the operating system's error text.
#[derive(Debug, PartialEq)]
pub enum MetaProbe {
    Present(FileMeta),
    Missing(String),
    Denied(String),
}

/// The classified or resulting state of one mapping.
#[derive(Clone, Copy, PartialEq, Eq, Structural, Debug)]
pub enum Status {
    Okay,
    Missing,
    Broken,
    Conflict,
    Created,
    Replaced,
    WouldCreate,
    WouldReplace,
    Skipped,
    Error,
}

/// Holds exactly for the statuses that classification alone may produce;
/// the remaining statuses are action outcomes.
pub open spec fn is_classification(s: Status) -> bool {
    ||| s == Status::Okay
    ||| s == Status::Missing
    ||| s == Status::Broken
    ||| s == Status::Conflict
    ||| s == Status::Error
}

/// The human-readable annotation attached to a record or a journal entry.
/// Variants with a `String` payload carry an operating system error text or,
/// for configuration errors, the offending configured path template.
#[derive(Debug, PartialEq)]
pub enum Message {
    SourceMetadataError(String),
    TargetMissing,
    TargetMetadataError(String),
    SourceNotRegular,
    TargetNotRegular,
    InodeMatch,
    TargetLinkedElsewhere,
    TargetDiffers,
    AlreadyLinked,
    AlreadyHealthy,
    SkippedOnlyMissing,
    ForceRequired,
    ConflictSkipped,
    UnexpectedState,
    WouldCreateLink,
    WouldReplaceTarget,
    CreatedLink,
    ReplacedTarget,
    ParentDirFailed(String),
    SourceInspectFailed(String),
    ParentInspectFailed(String),
    CrossFilesystem { source_dev: u64, parent_dev: u64 },
    LinkFailed(String),
    TargetInspectFailed(String),
    RefusingDirectory,
    RemoveFailed(String),
    BackupCopyFailed(String),
    InsufficientSpace { required: u64, available: u64 },
    SourceRootNotDirectory(String),
    WalkFailed { root: String, error: String },
    BootstrapSourceInspectFailed(String),
    BootstrapSourceNotRegular(String),
    BootstrapRootNotDirectory(String),
}

/// The result of processing one mapping: its identity, the final status and
/// an optional annotation.
#[derive(Debug, PartialEq)]
pub struct Record {
    pub kind: MappingKind,
    pub source: String,
    pub target: String,
    pub status: Status,
    pub message: Option<Message>,
}

/// Per-run tally of record statuses.
#[derive(Debug, PartialEq, Eq, Structural)]
pub struct Summary {
    pub total: usize,
    pub ok: usize,
    pub missing: usize,
    pub broken: usize,
    pub conflict: usize,
    pub created: usize,
    pub replaced: usize,
    pub would_create: usize,
    pub would_replace: usize,
    pub skipped: usize,
    pub errors: usize,
}

/// A whole run's outcome: the command name, the tally and the ordered records.
pub struct Report {
    pub command: String,
    pub summary: Summary,
    pub records: Vec<Record>,
}

/// How many of the records carry the given status.
pub open spec fn count_with_status(records: Seq<Record>, s: Status) -> nat
    decreases records.len(),
{
    if records.len() == 0 {
        0
    } else {
        count_with_status(records.drop_last(), s) + if records.last().status == s {
            1nat
        } else {
            0nat
        }
    }
}

/// The summary is exactly the status tally of the records.
pub open spec fn summary_matches(records: Seq<Record>, s: Summary) -> bool {
    &&& s.total == records.len()
    &&& s.ok == count_with_status(records, Status::Okay)
    &&& s.missing == count_with_status(records, Status::Missing)
    &&& s.broken == count_with_status(records, Status::Broken)
    &&& s.conflict == count_with_status(records, Status::Conflict)
    &&& s.created == count_with_status(records, Status::Created)
    &&& s.replaced == count_with_status(records, Status::Replaced)
    &&& s.would_create == count_with_status(records, Status::WouldCreate)
    &&& s.would_replace == count_with_status(records, Status::WouldReplace)
    &&& s.skipped == count_with_status(records, Status::Skipped)
    &&& s.errors == count_with_status(records, Status::Error)
}

proof fn lemma_count_bounded(records: Seq<Record>, s: Status)
    ensures
        count_with_status(records, s) <= records.len(),
    decreases records.len(),
{
    if records.len() > 0 {
        lemma_count_bounded(records.drop_last(), s);
    }
}

impl Summary {
    /// Tally the statuses of the given records.
    pub fn from_records(records: &Vec<Record>) -> (s: Summary)
        ensures
            summary_matches(records@, s),
    {
        let mut s = Summary {
            total: records.len(),
            ok: 0,
            missing: 0,
            broken: 0,
            conflict: 0,
            created: 0,
            replaced: 0,
            would_create: 0,
            would_replace: 0,
            skipped: 0,
            errors: 0,
        };
        let mut i: usize = 0;
        while i < records.len()
            invariant
                i <= records.len(),
                s.total == records.len(),
                s.ok == count_with_status(records@.take(i as int), Status::Okay),
                s.missing == count_with_status(records@.take(i as int), Status::Missing),
                s.broken == count_with_status(records@.take(i as int), Status::Broken),
                s.conflict == count_with_status(records@.take(i as int), Status::Conflict),
                s.created == count_with_status(records@.take(i as int), Status::Created),
                s.replaced == count_with_status(records@.take(i as int), Status::Replaced),
                s.would_create == count_with_status(records@.take(i as int), Status::WouldCreate),
                s.would_replace == count_with_status(
                    records@.take(i as int),
                    Status::WouldReplace,
                ),
                s.skipped == count_with_status(records@.take(i as int), Status::Skipped),
                s.errors == count_with_status(records@.take(i as int), Status::Error),
            decreases records.len() - i,
        {
            proof {
                assert(records@.take(i + 1).drop_last() =~= records@.take(i as int));
                assert(records@.take(i + 1).last() == records@[i as int]);
                lemma_count_bounded(records@.take(i as int), records@[i as int].status);
            }
            match records[i].status {
                Status::Okay => s.ok = s.ok + 1,
                Status::Missing => s.missing = s.missing + 1,
                Status::Broken => s.broken = s.broken + 1,
                Status::Conflict => s.conflict = s.conflict + 1,
                Status::Created => s.created = s.created + 1,
                Status::Replaced => s.replaced = s.replaced + 1,
                Status::WouldCreate => s.would_create = s.would_create + 1,
                Status::WouldReplace => s.would_replace = s.would_replace + 1,
                Status::Skipped => s.skipped = s.skipped + 1,
                Status::Error => s.errors = s.errors + 1,
            }
            i = i + 1;
        }
        proof {
            assert(records@.take(records@.len() as int) =~= records@);
        }
        s
    }

    /// Whether the run found any benign inconsistency.
    pub fn has_inconsistency(&self) -> (r: bool)
        ensures
            r == (self.missing > 0 || self.broken > 0 || self.conflict > 0),
    {
        self.missing > 0 || self.broken > 0 || self.conflict > 0
    }

    /// Whether any mapping ended in an error.
    pub fn has_error(&self) -> (r: bool)
        ensures
            r == (self.errors > 0),
    {
        self.errors > 0
    }
}

/// The process exit code a summary maps to.
pub open spec fn spec_exit_code(s: Summary, include_inconsistency: bool) -> i32 {
    if s.errors > 0 {
        2
    } else if include_inconsistency && (s.missing > 0 || s.broken > 0 || s.conflict > 0) {
        1
    } else {
        0
    }
}

/// Exit-code policy: 2 when any record is an error; otherwise 1 when the
/// command reports inconsistencies and one was found; otherwise 0.
pub fn exit_code(summary: &Summary, include_inconsistency: bool) -> (r: i32)
    ensures
        r == spec_exit_code(*summary, include_inconsistency),
{
    if summary.has_error() {
        2
    } else if include_inconsistency && summary.has_inconsistency() {
        1
    } else {
        0
    }
}

} // verus!
