//! The reconciliation engine: the status classifier, the per-command decision
//! table over classified statuses, and the conclusion of each attempted
//! filesystem action into a record (and, for replaces, a journal entry).

use vstd::prelude::*;

use crate::config::{ConfigFile, LinkRule, SkillsSet};
use crate::logging::{Action, LogEntry, LogStatus};
use crate::model::{
    is_classification, FileKind, Mapping, MappingKind, MappingView, Message, MetaProbe, Record,
    ResolveContext, Status,
};
use crate::pathing::{
    hardlink_count, path_join, resolve_path, same_file, spec_path_join, spec_resolve,
    spec_same_file,
};

verus! {

/// A record for the mapping with the given status and annotation.
pub open spec fn make_record(m: Mapping, status: Status, message: Message) -> Record {
    Record {
        kind: m.kind,
        source: m.source,
        target: m.target,
        status,
        message: Some(message),
    }
}

/// The classified status of a source/target pair, together with its
/// annotation, from the two link-aware metadata probes. First matching rule
/// wins: unreadable source; absent target; unreadable target; irregular
/// source; irregular target; identical file identity; target hardlinked
/// elsewhere; independent conflicting file.
pub open spec fn spec_classify(source: MetaProbe, target: MetaProbe) -> (Status, Message) {
    match source {
        MetaProbe::Missing(e) => (Status::Error, Message::SourceMetadataError(e)),
        MetaProbe::Denied(e) => (Status::Error, Message::SourceMetadataError(e)),
        MetaProbe::Present(smeta) => match target {
            MetaProbe::Missing(_) => (Status::Missing, Message::TargetMissing),
            MetaProbe::Denied(e) => (Status::Error, Message::TargetMetadataError(e)),
            MetaProbe::Present(tmeta) => {
                if smeta.kind != FileKind::Regular {
                    (Status::Error, Message::SourceNotRegular)
                } else if tmeta.kind != FileKind::Regular {
                    (Status::Conflict, Message::TargetNotRegular)
                } else if spec_same_file(smeta, tmeta) {
                    (Status::Okay, Message::InodeMatch)
                } else if tmeta.nlink > 1 {
                    (Status::Broken, Message::TargetLinkedElsewhere)
                } else {
                    (Status::Conflict, Message::TargetDiffers)
                }
            },
        },
    }
}

/// A record for the mapping before any outcome is known.
pub fn base_record(mapping: &Mapping) -> (r: Record)
    ensures
        r.kind == mapping.kind,
        r.source == mapping.source,
        r.target == mapping.target,
        r.status == Status::Error,
        r.message is None,
{
    Record {
        kind: mapping.kind,
        source: mapping.source.clone(),
        target: mapping.target.clone(),
        status: Status::Error,
        message: None,
    }
}

/// Classify the current on-disk relationship of the mapping from the two
/// probes. Read-only; produces only classification statuses.
pub fn inspect_mapping(mapping: &Mapping, source: &MetaProbe, target: &MetaProbe) -> (r: Record)
    ensures
        r.kind == mapping.kind,
        r.source == mapping.source,
        r.target == mapping.target,
        r.status == spec_classify(*source, *target).0,
        r.message == Some(spec_classify(*source, *target).1),
        is_classification(r.status),
{
    let mut r = base_record(mapping);
    match source {
        MetaProbe::Missing(e) => {
            r.status = Status::Error;
            r.message = Some(Message::SourceMetadataError(e.clone()));
        },
        MetaProbe::Denied(e) => {
            r.status = Status::Error;
            r.message = Some(Message::SourceMetadataError(e.clone()));
        },
        MetaProbe::Present(smeta) => {
            match target {
                MetaProbe::Missing(_) => {
                    r.status = Status::Missing;
                    r.message = Some(Message::TargetMissing);
                },
                MetaProbe::Denied(e) => {
                    r.status = Status::Error;
                    r.message = Some(Message::TargetMetadataError(e.clone()));
                },
                MetaProbe::Present(tmeta) => {
                    if smeta.kind != FileKind::Regular {
                        r.status = Status::Error;
                        r.message = Some(Message::SourceNotRegular);
                    } else if tmeta.kind != FileKind::Regular {
                        r.status = Status::Conflict;
                        r.message = Some(Message::TargetNotRegular);
                    } else if same_file(smeta, tmeta) {
                        r.status = Status::Okay;
                        r.message = Some(Message::InodeMatch);
                    } else if hardlink_count(tmeta) > 1 {
                        r.status = Status::Broken;
                        r.message = Some(Message::TargetLinkedElsewhere);
                    } else {
                        r.status = Status::Conflict;
                        r.message = Some(Message::TargetDiffers);
                    }
                },
            }
        },
    }
    r
}

/// What the engine decides for one mapping: a finished record, or a
/// filesystem action that still has to be executed.
#[derive(Debug, PartialEq)]
pub enum Plan {
    Done(Record),
    Create,
    Replace,
}

/// The `link` command's decision table over the classified status.
pub open spec fn spec_apply_link(
    m: Mapping,
    source: MetaProbe,
    target: MetaProbe,
    force: bool,
    only_missing: bool,
    dry_run: bool,
) -> Plan {
    let st = spec_classify(source, target).0;
    let msg = spec_classify(source, target).1;
    if st == Status::Okay {
        Plan::Done(make_record(m, Status::Skipped, Message::AlreadyLinked))
    } else if st == Status::Missing {
        if dry_run {
            Plan::Done(make_record(m, Status::WouldCreate, Message::WouldCreateLink))
        } else {
            Plan::Create
        }
    } else if st == Status::Broken || st == Status::Conflict {
        if only_missing {
            Plan::Done(make_record(m, Status::Skipped, Message::SkippedOnlyMissing))
        } else if !force {
            Plan::Done(make_record(m, Status::Error, Message::ForceRequired))
        } else if dry_run {
            Plan::Done(make_record(m, Status::WouldReplace, Message::WouldReplaceTarget))
        } else {
            Plan::Replace
        }
    } else {
        Plan::Done(make_record(m, Status::Error, msg))
    }
}

/// The `repair` command's decision table over the classified status. Broken
/// targets are replaced without force; conflicting ones only with it.
pub open spec fn spec_apply_repair(
    m: Mapping,
    source: MetaProbe,
    target: MetaProbe,
    force_conflict: bool,
    dry_run: bool,
) -> Plan {
    let st = spec_classify(source, target).0;
    let msg = spec_classify(source, target).1;
    if st == Status::Okay {
        Plan::Done(make_record(m, Status::Skipped, Message::AlreadyHealthy))
    } else if st == Status::Missing {
        if dry_run {
            Plan::Done(make_record(m, Status::WouldCreate, Message::WouldCreateLink))
        } else {
            Plan::Create
        }
    } else if st == Status::Broken {
        if dry_run {
            Plan::Done(make_record(m, Status::WouldReplace, Message::WouldReplaceTarget))
        } else {
            Plan::Replace
        }
    } else if st == Status::Conflict {
        if force_conflict {
            if dry_run {
                Plan::Done(make_record(m, Status::WouldReplace, Message::WouldReplaceTarget))
            } else {
                Plan::Replace
            }
        } else {
            Plan::Done(make_record(m, Status::Skipped, Message::ConflictSkipped))
        }
    } else {
        Plan::Done(make_record(m, Status::Error, msg))
    }
}

/// Decide what `link` does with the mapping: classify, then apply the
/// transition table under the given flags.
pub fn apply_link(
    mapping: &Mapping,
    source: &MetaProbe,
    target: &MetaProbe,
    force: bool,
    only_missing: bool,
    dry_run: bool,
) -> (p: Plan)
    ensures
        p == spec_apply_link(*mapping, *source, *target, force, only_missing, dry_run),
{
    let mut current = inspect_mapping(mapping, source, target);
    match current.status {
        Status::Okay => {
            current.status = Status::Skipped;
            current.message = Some(Message::AlreadyLinked);
            Plan::Done(current)
        },
        Status::Missing => {
            if dry_run {
                current.status = Status::WouldCreate;
                current.message = Some(Message::WouldCreateLink);
                Plan::Done(current)
            } else {
                Plan::Create
            }
        },
        Status::Broken | Status::Conflict => {
            if only_missing {
                current.status = Status::Skipped;
                current.message = Some(Message::SkippedOnlyMissing);
                Plan::Done(current)
            } else if !force {
                current.status = Status::Error;
                current.message = Some(Message::ForceRequired);
                Plan::Done(current)
            } else if dry_run {
                current.status = Status::WouldReplace;
                current.message = Some(Message::WouldReplaceTarget);
                Plan::Done(current)
            } else {
                Plan::Replace
            }
        },
        Status::Error => Plan::Done(current),
        _ => {
            // classification never yields an action status
            proof {
                assert(false);
            }
            Plan::Done(current)
        },
    }
}

/// Decide what `repair` does with the mapping: classify, then apply the
/// transition table; `force_conflict` gates only conflicting targets.
pub fn apply_repair(
    mapping: &Mapping,
    source: &MetaProbe,
    target: &MetaProbe,
    force_conflict: bool,
    dry_run: bool,
) -> (p: Plan)
    ensures
        p == spec_apply_repair(*mapping, *source, *target, force_conflict, dry_run),
{
    let mut current = inspect_mapping(mapping, source, target);
    match current.status {
        Status::Okay => {
            current.status = Status::Skipped;
            current.message = Some(Message::AlreadyHealthy);
            Plan::Done(current)
        },
        Status::Missing => {
            if dry_run {
                current.status = Status::WouldCreate;
                current.message = Some(Message::WouldCreateLink);
                Plan::Done(current)
            } else {
                Plan::Create
            }
        },
        Status::Broken => {
            if dry_run {
                current.status = Status::WouldReplace;
                current.message = Some(Message::WouldReplaceTarget);
                Plan::Done(current)
            } else {
                Plan::Replace
            }
        },
        Status::Conflict => {
            if force_conflict {
                if dry_run {
                    current.status = Status::WouldReplace;
                    current.message = Some(Message::WouldReplaceTarget);
                    Plan::Done(current)
                } else {
                    Plan::Replace
                }
            } else {
                current.status = Status::Skipped;
                current.message = Some(Message::ConflictSkipped);
                Plan::Done(current)
            }
        },
        Status::Error => Plan::Done(current),
        _ => {
            // classification never yields an action status
            proof {
                assert(false);
            }
            Plan::Done(current)
        },
    }
}

/// Conclude a planned create action from how its filesystem steps ended.
pub fn link_create(mapping: &Mapping, outcome: Result<(), Message>) -> (r: Record)
    ensures
        outcome is Ok ==> r == make_record(*mapping, Status::Created, Message::CreatedLink),
        outcome matches Err(e) ==> r == make_record(*mapping, Status::Error, e),
{
    let mut r = base_record(mapping);
    match outcome {
        Ok(()) => {
            r.status = Status::Created;
            r.message = Some(Message::CreatedLink);
        },
        Err(e) => {
            r.status = Status::Error;
            r.message = Some(e);
        },
    }
    r
}

/// How far a planned replace action came before it ended, with whatever had
/// been captured by then: the pre-replace content hash (only computed when a
/// backup directory is configured) and the backup's location.
#[derive(Debug, PartialEq)]
pub enum ReplaceExec {
    ParentDirFailed { error: String },
    RemoveFailed { hash_before: Option<String>, error: Message },
    LinkFailed { hash_before: Option<String>, backup_path: Option<String>, error: Message },
    Replaced { hash_before: Option<String>, backup_path: Option<String> },
}

/// The record a replace outcome concludes to.
pub open spec fn spec_replace_record(m: Mapping, outcome: ReplaceExec) -> Record {
    match outcome {
        ReplaceExec::ParentDirFailed { error } => make_record(
            m,
            Status::Error,
            Message::ParentDirFailed(error),
        ),
        ReplaceExec::RemoveFailed { error, .. } => make_record(m, Status::Error, error),
        ReplaceExec::LinkFailed { error, .. } => make_record(m, Status::Error, error),
        ReplaceExec::Replaced { .. } => make_record(m, Status::Replaced, Message::ReplacedTarget),
    }
}

/// The journal entry a replace outcome must append when a backup directory is
/// configured: failed attempts carry the step's error and whatever partial
/// information had been captured; successes carry hash and backup location.
pub open spec fn spec_replace_log_entry(m: Mapping, outcome: ReplaceExec) -> LogEntry {
    match outcome {
        ReplaceExec::ParentDirFailed { error } => LogEntry {
            action: Action::Replace,
            source: m.source,
            target: m.target,
            status: LogStatus::Failed,
            error: Some(Message::ParentDirFailed(error)),
            hash_before: None,
            backup_location: None,
        },
        ReplaceExec::RemoveFailed { hash_before, error } => LogEntry {
            action: Action::Replace,
            source: m.source,
            target: m.target,
            status: LogStatus::Failed,
            error: Some(error),
            hash_before,
            backup_location: None,
        },
        ReplaceExec::LinkFailed { hash_before, backup_path, error } => LogEntry {
            action: Action::Replace,
            source: m.source,
            target: m.target,
            status: LogStatus::Failed,
            error: Some(error),
            hash_before,
            backup_location: backup_path,
        },
        ReplaceExec::Replaced { hash_before, backup_path } => LogEntry {
            action: Action::Replace,
            source: m.source,
            target: m.target,
            status: LogStatus::Success,
            error: None,
            hash_before,
            backup_location: backup_path,
        },
    }
}

/// Duplicate an annotation, preserving its value.
fn copy_message(m: &Message) -> (r: Message)
    ensures
        r == *m,
{
    match m {
        Message::SourceMetadataError(e) => Message::SourceMetadataError(e.clone()),
        Message::TargetMissing => Message::TargetMissing,
        Message::TargetMetadataError(e) => Message::TargetMetadataError(e.clone()),
        Message::SourceNotRegular => Message::SourceNotRegular,
        Message::TargetNotRegular => Message::TargetNotRegular,
        Message::InodeMatch => Message::InodeMatch,
        Message::TargetLinkedElsewhere => Message::TargetLinkedElsewhere,
        Message::TargetDiffers => Message::TargetDiffers,
        Message::AlreadyLinked => Message::AlreadyLinked,
        Message::AlreadyHealthy => Message::AlreadyHealthy,
        Message::SkippedOnlyMissing => Message::SkippedOnlyMissing,
        Message::ForceRequired => Message::ForceRequired,
        Message::ConflictSkipped => Message::ConflictSkipped,
        Message::UnexpectedState => Message::UnexpectedState,
        Message::WouldCreateLink => Message::WouldCreateLink,
        Message::WouldReplaceTarget => Message::WouldReplaceTarget,
        Message::CreatedLink => Message::CreatedLink,
        Message::ReplacedTarget => Message::ReplacedTarget,
        Message::ParentDirFailed(e) => Message::ParentDirFailed(e.clone()),
        Message::SourceInspectFailed(e) => Message::SourceInspectFailed(e.clone()),
        Message::ParentInspectFailed(e) => Message::ParentInspectFailed(e.clone()),
        Message::CrossFilesystem { source_dev, parent_dev } => Message::CrossFilesystem {
            source_dev: *source_dev,
            parent_dev: *parent_dev,
        },
        Message::LinkFailed(e) => Message::LinkFailed(e.clone()),
        Message::TargetInspectFailed(e) => Message::TargetInspectFailed(e.clone()),
        Message::RefusingDirectory => Message::RefusingDirectory,
        Message::RemoveFailed(e) => Message::RemoveFailed(e.clone()),
        Message::BackupCopyFailed(e) => Message::BackupCopyFailed(e.clone()),
        Message::InsufficientSpace { required, available } => Message::InsufficientSpace {
            required: *required,
            available: *available,
        },
        Message::SourceRootNotDirectory(e) => Message::SourceRootNotDirectory(e.clone()),
        Message::WalkFailed { root, error } => Message::WalkFailed {
            root: root.clone(),
            error: error.clone(),
        },
        Message::BootstrapSourceInspectFailed(e) => Message::BootstrapSourceInspectFailed(
            e.clone(),
        ),
        Message::BootstrapSourceNotRegular(e) => Message::BootstrapSourceNotRegular(e.clone()),
        Message::BootstrapRootNotDirectory(e) => Message::BootstrapRootNotDirectory(e.clone()),
    }
}

/// Duplicate an optional string, preserving its value.
fn copy_opt_string(o: &Option<String>) -> (r: Option<String>)
    ensures
        r == *o,
{
    match o {
        Some(s) => Some(s.clone()),
        None => None,
    }
}

/// Conclude a planned replace action from how far its filesystem steps came:
/// the mapping's record, and — exactly when a backup directory is configured —
/// the journal entry that must be appended, on failures as well as successes.
pub fn link_replace(mapping: &Mapping, outcome: ReplaceExec, backup_configured: bool) -> (r: (
    Record,
    Option<LogEntry>,
))
    ensures
        r.0 == spec_replace_record(*mapping, outcome),
        backup_configured ==> r.1 == Some(spec_replace_log_entry(*mapping, outcome)),
        !backup_configured ==> r.1 is None,
{
    let mut record = base_record(mapping);
    let entry: Option<LogEntry>;
    match &outcome {
        ReplaceExec::ParentDirFailed { error } => {
            record.status = Status::Error;
            record.message = Some(Message::ParentDirFailed(error.clone()));
            entry = if backup_configured {
                Some(LogEntry {
                    action: Action::Replace,
                    source: mapping.source.clone(),
                    target: mapping.target.clone(),
                    status: LogStatus::Failed,
                    error: Some(Message::ParentDirFailed(error.clone())),
                    hash_before: None,
                    backup_location: None,
                })
            } else {
                None
            };
        },
        ReplaceExec::RemoveFailed { hash_before, error } => {
            record.status = Status::Error;
            record.message = Some(copy_message(error));
            entry = if backup_configured {
                Some(LogEntry {
                    action: Action::Replace,
                    source: mapping.source.clone(),
                    target: mapping.target.clone(),
                    status: LogStatus::Failed,
                    error: Some(copy_message(error)),
                    hash_before: copy_opt_string(hash_before),
                    backup_location: None,
                })
            } else {
                None
            };
        },
        ReplaceExec::LinkFailed { hash_before, backup_path, error } => {
            record.status = Status::Error;
            record.message = Some(copy_message(error));
            entry = if backup_configured {
                Some(LogEntry {
                    action: Action::Replace,
                    source: mapping.source.clone(),
                    target: mapping.target.clone(),
                    status: LogStatus::Failed,
                    error: Some(copy_message(error)),
                    hash_before: copy_opt_string(hash_before),
                    backup_location: copy_opt_string(backup_path),
                })
            } else {
                None
            };
        },
        ReplaceExec::Replaced { hash_before, backup_path } => {
            record.status = Status::Replaced;
            record.message = Some(Message::ReplacedTarget);
            entry = if backup_configured {
                Some(LogEntry {
                    action: Action::Replace,
                    source: mapping.source.clone(),
                    target: mapping.target.clone(),
                    status: LogStatus::Success,
                    error: None,
                    hash_before: copy_opt_string(hash_before),
                    backup_location: copy_opt_string(backup_path),
                })
            } else {
                None
            };
        },
    }
    (record, entry)
}

/// What probing (and walking) one skills source root produced: it is absent,
/// it is no directory, the walk failed with the given error text, or the
/// relative paths of every regular file under it, in walk order.
#[derive(Debug, PartialEq)]
pub enum RootProbe {
    Missing,
    NotDirectory,
    WalkFailed(String),
    Tree(Vec<String>),
}

/// The views of a sequence of mappings.
pub open spec fn mappings_view(s: Seq<Mapping>) -> Seq<MappingView> {
    s.map_values(|m: Mapping| m@)
}

/// Whether some mapping in the sequence already pairs this source with this
/// target.
pub open spec fn has_pair(s: Seq<MappingView>, source: Seq<char>, target: Seq<char>) -> bool {
    exists|k: int| 0 <= k < s.len() && s[k].source == source && s[k].target == target
}

/// Append a mapping unless its (source, target) pair is already present.
pub open spec fn dedup_push(s: Seq<MappingView>, m: MappingView) -> Seq<MappingView> {
    if has_pair(s, m.source, m.target) {
        s
    } else {
        s.push(m)
    }
}

/// The candidate mappings with every later duplicate (source, target) pair
/// dropped: the first occurrence wins.
pub open spec fn spec_dedup(s: Seq<MappingView>) -> Seq<MappingView>
    decreases s.len(),
{
    if s.len() == 0 {
        Seq::empty()
    } else {
        dedup_push(spec_dedup(s.drop_last()), s.last())
    }
}

/// The candidate mappings one link rule declares: its resolved source paired
/// with each resolved target, in order.
pub open spec fn spec_rule_candidates(
    rule: LinkRule,
    ctx: ResolveContext,
) -> Seq<MappingView> {
    Seq::new(
        rule.targets@.len(),
        |j: int|
            MappingView {
                kind: MappingKind::ConfigFile,
                source: spec_resolve(rule.source@, ctx),
                target: spec_resolve(rule.targets@[j]@, ctx),
            },
    )
}

/// The candidate mappings all link rules declare, in rule order.
pub open spec fn spec_link_candidates(
    links: Seq<LinkRule>,
    ctx: ResolveContext,
) -> Seq<MappingView>
    decreases links.len(),
{
    if links.len() == 0 {
        Seq::empty()
    } else {
        spec_link_candidates(links.drop_last(), ctx) + spec_rule_candidates(links.last(), ctx)
    }
}

/// The candidate mappings one discovered file yields: the file under the
/// resolved source root, paired with the same relative path under each
/// resolved target root.
pub open spec fn spec_file_candidates(
    set: SkillsSet,
    file: Seq<char>,
    ctx: ResolveContext,
) -> Seq<MappingView> {
    Seq::new(
        set.target_roots@.len(),
        |j: int|
            MappingView {
                kind: MappingKind::SkillFile,
                source: spec_path_join(spec_resolve(set.source_root@, ctx), file),
                target: spec_path_join(spec_resolve(set.target_roots@[j]@, ctx), file),
            },
    )
}

/// The candidate mappings one skills set yields for the given discovered
/// files, in walk order.
pub open spec fn spec_set_candidates(
    set: SkillsSet,
    files: Seq<Seq<char>>,
    ctx: ResolveContext,
) -> Seq<MappingView>
    decreases files.len(),
{
    if files.len() == 0 {
        Seq::empty()
    } else {
        spec_set_candidates(set, files.drop_last(), ctx) + spec_file_candidates(
            set,
            files.last(),
            ctx,
        )
    }
}

/// The candidate mappings all skills sets yield, in set order: absent roots
/// contribute nothing, a root that is no directory or whose walk failed is a
/// configuration error that aborts (the first such error wins).
pub open spec fn spec_skill_candidates(
    sets: Seq<SkillsSet>,
    probes: Seq<RootProbe>,
    ctx: ResolveContext,
) -> Result<Seq<MappingView>, Message>
    decreases sets.len(),
{
    if sets.len() == 0 {
        Ok(Seq::empty())
    } else {
        match spec_skill_candidates(sets.drop_last(), probes.drop_last(), ctx) {
            Err(e) => Err(e),
            Ok(pre) => match probes.last() {
                RootProbe::Missing => Ok(pre),
                RootProbe::NotDirectory => Err(
                    Message::SourceRootNotDirectory(sets.last().source_root),
                ),
                RootProbe::WalkFailed(e) => Err(
                    Message::WalkFailed { root: sets.last().source_root, error: e },
                ),
                RootProbe::Tree(files) => Ok(
                    pre + spec_set_candidates(
                        sets.last(),
                        files@.map_values(|f: String| f@),
                        ctx,
                    ),
                ),
            },
        }
    }
}

/// Every candidate mapping the configuration declares, in declaration order:
/// the link rules' candidates, then the skills sets'.
pub open spec fn spec_all_candidates(
    config: ConfigFile,
    probes: Seq<RootProbe>,
    ctx: ResolveContext,
) -> Result<Seq<MappingView>, Message> {
    match spec_skill_candidates(config.skills_sets@, probes, ctx) {
        Err(e) => Err(e),
        Ok(s) => Ok(spec_link_candidates(config.links@, ctx) + s),
    }
}

proof fn lemma_skill_error_extends(
    sets: Seq<SkillsSet>,
    probes: Seq<RootProbe>,
    ctx: ResolveContext,
    i: int,
)
    requires
        0 <= i <= sets.len(),
        probes.len() == sets.len(),
        spec_skill_candidates(sets.take(i), probes.take(i), ctx) is Err,
    ensures
        spec_skill_candidates(sets, probes, ctx) == spec_skill_candidates(
            sets.take(i),
            probes.take(i),
            ctx,
        ),
    decreases sets.len() - i,
{
    if i == sets.len() {
        assert(sets.take(i) =~= sets);
        assert(probes.take(i) =~= probes);
    } else {
        assert(sets.take(i + 1).drop_last() =~= sets.take(i));
        assert(probes.take(i + 1).drop_last() =~= probes.take(i));
        lemma_skill_error_extends(sets, probes, ctx, i + 1);
    }
}

/// Append the mapping unless its (source, target) pair is already present.
fn push_mapping(out: &mut Vec<Mapping>, kind: MappingKind, source: String, target: String)
    ensures
        mappings_view(final(out)@) == dedup_push(
            mappings_view(old(out)@),
            MappingView { kind, source: source@, target: target@ },
        ),
{
    let ghost mv = MappingView { kind, source: source@, target: target@ };
    let mut k: usize = 0;
    while k < out.len()
        invariant
            k <= out@.len(),
            forall|t: int|
                0 <= t < k ==> !(out@[t].source@ == source@ && out@[t].target@ == target@),
        decreases out@.len() - k,
    {
        if out[k].source.eq(&source) && out[k].target.eq(&target) {
            proof {
                assert(mappings_view(out@)[k as int] == out@[k as int]@);
                assert(has_pair(mappings_view(out@), source@, target@));
            }
            return ;
        }
        k = k + 1;
    }
    proof {
        assert forall|t: int| 0 <= t < mappings_view(out@).len() implies !(mappings_view(out@)[
        t].source == source@ && mappings_view(out@)[t].target == target@) by {
            assert(mappings_view(out@)[t] == out@[t]@);
        }
        assert(!has_pair(mappings_view(out@), source@, target@));
    }
    let ghost before = out@;
    out.push(Mapping { kind, source, target });
    proof {
        assert(mappings_view(out@) =~= mappings_view(before).push(mv));
    }
}

/// Expand the configuration into the mappings to process: each link rule's
/// resolved source paired with each resolved target, then each skills set's
/// discovered files mirrored under each resolved target root, with duplicate
/// (source, target) pairs dropped (the first occurrence wins). Absent source
/// roots are skipped; a root that is no directory or could not be walked is a
/// configuration error.
pub fn build_mappings(config: &ConfigFile, ctx: &ResolveContext, roots: &Vec<RootProbe>) -> (r:
    Result<Vec<Mapping>, Message>)
    requires
        roots@.len() == config.skills_sets@.len(),
    ensures
        (r is Ok) == (spec_all_candidates(*config, roots@, *ctx) is Ok),
        r matches Ok(ms) ==> spec_all_candidates(*config, roots@, *ctx) matches Ok(cands)
            && mappings_view(ms@) == spec_dedup(cands),
        r matches Err(m) ==> spec_all_candidates(*config, roots@, *ctx) == Err::<
            Seq<MappingView>,
            Message,
        >(m),
{
    let mut out: Vec<Mapping> = Vec::new();

    let mut i: usize = 0;
    proof {
        assert(config.links@.take(0) =~= Seq::<LinkRule>::empty());
        assert(mappings_view(out@) =~= Seq::<MappingView>::empty());
        assert(spec_dedup(spec_link_candidates(config.links@.take(0), *ctx))
            == Seq::<MappingView>::empty());
    }
    while i < config.links.len()
        invariant
            i <= config.links@.len(),
            mappings_view(out@) == spec_dedup(
                spec_link_candidates(config.links@.take(i as int), *ctx),
            ),
        decreases config.links@.len() - i,
    {
        let source = resolve_path(config.links[i].source.as_str(), ctx);
        let ghost rule_cands = spec_rule_candidates(config.links@[i as int], *ctx);
        let ghost pre_cands = spec_link_candidates(config.links@.take(i as int), *ctx);
        let mut j: usize = 0;
        proof {
            assert(pre_cands + rule_cands.take(0) =~= pre_cands);
        }
        while j < config.links[i].targets.len()
            invariant
                i < config.links@.len(),
                j <= config.links@[i as int].targets@.len(),
                source@ == spec_resolve(config.links@[i as int].source@, *ctx),
                rule_cands == spec_rule_candidates(config.links@[i as int], *ctx),
                pre_cands == spec_link_candidates(config.links@.take(i as int), *ctx),
                mappings_view(out@) == spec_dedup(pre_cands + rule_cands.take(j as int)),
            decreases config.links@[i as int].targets@.len() - j,
        {
            let target = resolve_path(config.links[i].targets[j].as_str(), ctx);
            let ghost cands = pre_cands + rule_cands.take(j as int);
            push_mapping(&mut out, MappingKind::ConfigFile, source.clone(), target);
            proof {
                assert(cands.push(rule_cands[j as int]) =~= pre_cands + rule_cands.take(j + 1));
                assert(spec_dedup(cands.push(rule_cands[j as int])) == dedup_push(
                    spec_dedup(cands),
                    rule_cands[j as int],
                )) by {
                    assert(cands.push(rule_cands[j as int]).drop_last() =~= cands);
                }
            }
            j = j + 1;
        }
        proof {
            assert(config.links@.take(i + 1).drop_last() =~= config.links@.take(i as int));
            assert(config.links@.take(i + 1).last() == config.links@[i as int]);
            assert(rule_cands.take(rule_cands.len() as int) =~= rule_cands);
            assert(spec_link_candidates(config.links@.take(i + 1), *ctx) == pre_cands
                + rule_cands);
        }
        i = i + 1;
    }
    proof {
        assert(config.links@.take(config.links@.len() as int) =~= config.links@);
    }

    let ghost link_cands = spec_link_candidates(config.links@, *ctx);
    let mut s: usize = 0;
    proof {
        assert(config.skills_sets@.take(0) =~= Seq::<SkillsSet>::empty());
        assert(roots@.take(0) =~= Seq::<RootProbe>::empty());
        assert(link_cands + Seq::<MappingView>::empty() =~= link_cands);
    }
    while s < config.skills_sets.len()
        invariant
            s <= config.skills_sets@.len(),
            roots@.len() == config.skills_sets@.len(),
            link_cands == spec_link_candidates(config.links@, *ctx),
            spec_skill_candidates(
                config.skills_sets@.take(s as int),
                roots@.take(s as int),
                *ctx,
            ) matches Ok(pre) && mappings_view(out@) == spec_dedup(link_cands + pre),
        decreases config.skills_sets@.len() - s,
    {
        proof {
            assert(config.skills_sets@.take(s + 1).drop_last() =~= config.skills_sets@.take(
                s as int,
            ));
            assert(roots@.take(s + 1).drop_last() =~= roots@.take(s as int));
            assert(config.skills_sets@.take(s + 1).last() == config.skills_sets@[s as int]);
            assert(roots@.take(s + 1).last() == roots@[s as int]);
        }
        let ghost skill_pre = spec_skill_candidates(
            config.skills_sets@.take(s as int),
            roots@.take(s as int),
            *ctx,
        )->Ok_0;
        match &roots[s] {
            RootProbe::Missing => {},
            RootProbe::NotDirectory => {
                proof {
                    lemma_skill_error_extends(config.skills_sets@, roots@, *ctx, s + 1);
                }
                return Err(
                    Message::SourceRootNotDirectory(config.skills_sets[s].source_root.clone()),
                );
            },
            RootProbe::WalkFailed(e) => {
                proof {
                    lemma_skill_error_extends(config.skills_sets@, roots@, *ctx, s + 1);
                }
                return Err(
                    Message::WalkFailed {
                        root: config.skills_sets[s].source_root.clone(),
                        error: e.clone(),
                    },
                );
            },
            RootProbe::Tree(files) => {
                let root_path = resolve_path(config.skills_sets[s].source_root.as_str(), ctx);
                let ghost fviews = files@.map_values(|f: String| f@);
                let ghost set = config.skills_sets@[s as int];
                let mut f: usize = 0;
                proof {
                    assert(fviews.take(0) =~= Seq::<Seq<char>>::empty());
                    assert((link_cands + skill_pre) + Seq::<MappingView>::empty() =~= link_cands
                        + skill_pre);
                }
                while f < files.len()
                    invariant
                        s < config.skills_sets@.len(),
                        f <= files@.len(),
                        set == config.skills_sets@[s as int],
                        fviews == files@.map_values(|fl: String| fl@),
                        root_path@ == spec_resolve(set.source_root@, *ctx),
                        mappings_view(out@) == spec_dedup(
                            (link_cands + skill_pre) + spec_set_candidates(
                                set,
                                fviews.take(f as int),
                                *ctx,
                            ),
                        ),
                    decreases files@.len() - f,
                {
                    let file_source = path_join(root_path.as_str(), files[f].as_str());
                    let ghost file_cands = spec_file_candidates(set, fviews[f as int], *ctx);
                    let ghost set_pre = spec_set_candidates(set, fviews.take(f as int), *ctx);
                    let mut t: usize = 0;
                    proof {
                        assert(((link_cands + skill_pre) + set_pre) + file_cands.take(0) =~= (
                        link_cands + skill_pre) + set_pre);
                    }
                    while t < config.skills_sets[s].target_roots.len()
                        invariant
                            s < config.skills_sets@.len(),
                            f < files@.len(),
                            t <= set.target_roots@.len(),
                            set == config.skills_sets@[s as int],
                            fviews == files@.map_values(|fl: String| fl@),
                            file_source@ == spec_path_join(
                                spec_resolve(set.source_root@, *ctx),
                                fviews[f as int],
                            ),
                            file_cands == spec_file_candidates(set, fviews[f as int], *ctx),
                            set_pre == spec_set_candidates(set, fviews.take(f as int), *ctx),
                            mappings_view(out@) == spec_dedup(
                                ((link_cands + skill_pre) + set_pre) + file_cands.take(t as int),
                            ),
                        decreases set.target_roots@.len() - t,
                    {
                        let target_root = resolve_path(
                            config.skills_sets[s].target_roots[t].as_str(),
                            ctx,
                        );
                        let target = path_join(target_root.as_str(), files[f].as_str());
                        let ghost cands = ((link_cands + skill_pre) + set_pre) + file_cands.take(
                            t as int,
                        );
                        push_mapping(&mut out, MappingKind::SkillFile, file_source.clone(), target);
                        proof {
                            assert(cands.push(file_cands[t as int]) =~= ((link_cands + skill_pre)
                                + set_pre) + file_cands.take(t + 1));
                            assert(spec_dedup(cands.push(file_cands[t as int])) == dedup_push(
                                spec_dedup(cands),
                                file_cands[t as int],
                            )) by {
                                assert(cands.push(file_cands[t as int]).drop_last() =~= cands);
                            }
                        }
                        t = t + 1;
                    }
                    proof {
                        assert(fviews.take(f + 1).drop_last() =~= fviews.take(f as int));
                        assert(fviews.take(f + 1).last() == fviews[f as int]);
                        assert(file_cands.take(file_cands.len() as int) =~= file_cands);
                        assert(spec_set_candidates(set, fviews.take(f + 1), *ctx) == set_pre
                            + file_cands);
                        assert(((link_cands + skill_pre) + set_pre) + file_cands =~= (link_cands
                            + skill_pre) + (set_pre + file_cands));
                    }
                    f = f + 1;
                }
                proof {
                    assert(fviews.take(fviews.len() as int) =~= fviews);
                }
            },
        }
        proof {
            assert(spec_skill_candidates(
                config.skills_sets@.take(s + 1),
                roots@.take(s + 1),
                *ctx,
            ) matches Ok(pre2) && mappings_view(out@) == spec_dedup(link_cands + pre2)) by {
                match roots@[s as int] {
                    RootProbe::Missing => {},
                    RootProbe::Tree(fs) => {
                        assert((link_cands + skill_pre) + spec_set_candidates(
                            config.skills_sets@[s as int],
                            fs@.map_values(|fl: String| fl@),
                            *ctx,
                        ) =~= link_cands + (skill_pre + spec_set_candidates(
                            config.skills_sets@[s as int],
                            fs@.map_values(|fl: String| fl@),
                            *ctx,
                        )));
                    },
                    RootProbe::NotDirectory => {
                        assert(false);
                    },
                    RootProbe::WalkFailed(_) => {
                        assert(false);
                    },
                }
            }
        }
        s = s + 1;
    }
    proof {
        assert(config.skills_sets@.take(config.skills_sets@.len() as int)
            =~= config.skills_sets@);
        assert(roots@.take(config.skills_sets@.len() as int) =~= roots@);
    }
    Ok(out)
}

/// The probes describe a healthy pair: both endpoints are regular files with
/// the same on-disk identity.
pub open spec fn link_identical(source: MetaProbe, target: MetaProbe) -> bool {
    match (source, target) {
        (MetaProbe::Present(s), MetaProbe::Present(t)) => s.kind == FileKind::Regular && t.kind
            == FileKind::Regular && spec_same_file(s, t),
        _ => false,
    }
}

/// The source probe saw a regular file.
pub open spec fn source_is_regular(source: MetaProbe) -> bool {
    match source {
        MetaProbe::Present(s) => s.kind == FileKind::Regular,
        _ => false,
    }
}

/// Law: a link-identical pair classifies as healthy, and under every flag
/// combination both commands conclude with a skipped record — neither ever
/// plans a filesystem action for it.
pub proof fn lemma_link_identical_never_acted_on(
    m: Mapping,
    source: MetaProbe,
    target: MetaProbe,
    force: bool,
    only_missing: bool,
    dry_run: bool,
)
    requires
        link_identical(source, target),
    ensures
        spec_classify(source, target).0 == Status::Okay,
        spec_apply_link(m, source, target, force, only_missing, dry_run) == Plan::Done(
            make_record(m, Status::Skipped, Message::AlreadyLinked),
        ),
        spec_apply_repair(m, source, target, force, dry_run) == Plan::Done(
            make_record(m, Status::Skipped, Message::AlreadyHealthy),
        ),
{
}

/// Law: a readable regular source with an absent target classifies as
/// missing, and outside dry runs both commands plan exactly a create.
pub proof fn lemma_missing_target_plans_create(
    m: Mapping,
    source: MetaProbe,
    target: MetaProbe,
    force: bool,
    only_missing: bool,
)
    requires
        source_is_regular(source),
        target is Missing,
    ensures
        spec_classify(source, target).0 == Status::Missing,
        spec_apply_link(m, source, target, force, only_missing, false) == Plan::Create,
        spec_apply_repair(m, source, target, force, false) == Plan::Create,
{
}

/// The probes describe an independent conflicting file: both endpoints are
/// regular files, the identities differ, and the target has no other
/// hardlink.
pub open spec fn independent_conflict(source: MetaProbe, target: MetaProbe) -> bool {
    match (source, target) {
        (MetaProbe::Present(s), MetaProbe::Present(t)) => s.kind == FileKind::Regular && t.kind
            == FileKind::Regular && !spec_same_file(s, t) && t.nlink == 1,
        _ => false,
    }
}

/// Law: an independent conflicting target classifies as a conflict, and
/// `link` without force concludes with an error record — it never plans an
/// action, so the target's contents stay untouched.
pub proof fn lemma_conflict_without_force_untouched(
    m: Mapping,
    source: MetaProbe,
    target: MetaProbe,
    dry_run: bool,
)
    requires
        independent_conflict(source, target),
    ensures
        spec_classify(source, target).0 == Status::Conflict,
        spec_apply_link(m, source, target, false, false, dry_run) == Plan::Done(
            make_record(m, Status::Error, Message::ForceRequired),
        ),
{
}

/// The probes describe a wrongly shared target: both endpoints are regular
/// files, the identities differ, and the target has more than one hardlink.
pub open spec fn broken_target(source: MetaProbe, target: MetaProbe) -> bool {
    match (source, target) {
        (MetaProbe::Present(s), MetaProbe::Present(t)) => s.kind == FileKind::Regular && t.kind
            == FileKind::Regular && !spec_same_file(s, t) && t.nlink > 1,
        _ => false,
    }
}

/// Law: a wrongly shared target classifies as broken; `repair` plans its
/// replacement without requiring force, while `link` without force refuses
/// with an error record.
pub proof fn lemma_repair_replaces_broken_without_force(
    m: Mapping,
    source: MetaProbe,
    target: MetaProbe,
)
    requires
        broken_target(source, target),
    ensures
        spec_classify(source, target).0 == Status::Broken,
        spec_apply_repair(m, source, target, false, false) == Plan::Replace,
        spec_apply_link(m, source, target, false, false, false) == Plan::Done(
            make_record(m, Status::Error, Message::ForceRequired),
        ),
{
}

/// Law (idempotence): when a first run finds the target absent it plans a
/// create; once the pair is link-identical — which a successful create leaves
/// behind, with nothing changing in between — a second run under the same
/// flags concludes skipped and plans nothing.
pub proof fn lemma_link_idempotent(
    m: Mapping,
    source_before: MetaProbe,
    target_before: MetaProbe,
    source_after: MetaProbe,
    target_after: MetaProbe,
    force: bool,
    only_missing: bool,
)
    requires
        source_is_regular(source_before),
        target_before is Missing,
        link_identical(source_after, target_after),
    ensures
        spec_apply_link(m, source_before, target_before, force, only_missing, false)
            == Plan::Create,
        spec_apply_link(m, source_after, target_after, force, only_missing, false) == Plan::Done(
            make_record(m, Status::Skipped, Message::AlreadyLinked),
        ),
{
}

/// Law: a dry run never plans a filesystem action — under every probe pair
/// and flag combination both commands conclude with a finished record, whose
/// status is never an applied mutation.
pub proof fn lemma_dry_run_plans_no_action(
    m: Mapping,
    source: MetaProbe,
    target: MetaProbe,
    force: bool,
    only_missing: bool,
)
    ensures
        spec_apply_link(m, source, target, force, only_missing, true) matches Plan::Done(r)
            && r.status != Status::Created && r.status != Status::Replaced,
        spec_apply_repair(m, source, target, force, true) matches Plan::Done(r) && r.status
            != Status::Created && r.status != Status::Replaced,
{
}

} // verus!
