//! End-to-end scenarios over probe fixtures: each drives classification, the
//! decision table, action conclusions and the run aggregation, and checks the
//! exit code the process would report.

use prompt_sync::cli::Command;
use prompt_sync::engine::{apply_link, apply_repair, inspect_mapping, link_create, link_replace, Plan, ReplaceExec};
use prompt_sync::model::{FileKind, FileMeta, Mapping, MappingKind, Message, MetaProbe, Status};
use prompt_sync::run;

fn mapping() -> Mapping {
    Mapping {
        kind: MappingKind::ConfigFile,
        source: "/tmp/w/master.md".to_string(),
        target: "/tmp/w/out/AGENTS.md".to_string(),
    }
}

fn regular(dev: u64, ino: u64, nlink: u64) -> MetaProbe {
    MetaProbe::Present(FileMeta { kind: FileKind::Regular, dev, ino, nlink, size: 18 })
}

fn absent() -> MetaProbe {
    MetaProbe::Missing("No such file or directory".to_string())
}

fn link_cmd(force: bool, dry_run: bool) -> Command {
    Command::Link { only_missing: false, force, dry_run, json: false, backup_dir: None }
}

#[test]
fn link_then_verify_success() {
    // First run: the target is absent, so link plans and performs a create.
    let plan = apply_link(&mapping(), &regular(7, 41, 1), &absent(), false, false, false);
    assert_eq!(plan, Plan::Create);
    let record = link_create(&mapping(), Ok(()));
    assert_eq!(record.status, Status::Created);
    let (report, code) = run(&link_cmd(false, false), vec![record]);
    assert_eq!(report.command, "link");
    assert_eq!(report.summary.created, 1);
    assert_eq!(code, 0);

    // After a successful create the endpoints share device and inode.
    let verify_rec = inspect_mapping(&mapping(), &regular(7, 41, 2), &regular(7, 41, 2));
    assert_eq!(verify_rec.status, Status::Okay);
    let (report, code) = run(&Command::Verify { json: false }, vec![verify_rec]);
    assert_eq!(report.command, "verify");
    assert_eq!(code, 0);
}

#[test]
fn verify_missing_returns_one() {
    let rec = inspect_mapping(&mapping(), &regular(7, 41, 1), &absent());
    assert_eq!(rec.status, Status::Missing);
    let (_, code) = run(&Command::Verify { json: false }, vec![rec]);
    assert_eq!(code, 1);
}

#[test]
fn link_conflict_without_force_returns_two() {
    // An independent file occupies the target: link without force refuses and
    // plans no mutation, so the target's contents stay as they were.
    let plan = apply_link(&mapping(), &regular(7, 41, 1), &regular(7, 99, 1), false, false, false);
    let record = match plan {
        Plan::Done(r) => r,
        _ => panic!("no action may be planned without force"),
    };
    assert_eq!(record.status, Status::Error);
    assert_eq!(record.message, Some(Message::ForceRequired));
    let (_, code) = run(&link_cmd(false, false), vec![record]);
    assert_eq!(code, 2);
}

#[test]
fn repair_conflict_with_force_replaces_target() {
    let plan = apply_repair(&mapping(), &regular(7, 41, 1), &regular(7, 99, 1), true, false);
    assert_eq!(plan, Plan::Replace);
    let (record, entry) = link_replace(
        &mapping(),
        ReplaceExec::Replaced { hash_before: None, backup_path: None },
        false,
    );
    assert_eq!(record.status, Status::Replaced);
    assert_eq!(entry, None);
    let (_, code) = run(
        &Command::Repair { force: true, dry_run: false, json: false, backup_dir: None },
        vec![record],
    );
    assert_eq!(code, 0);
}

#[test]
fn link_dry_run_does_not_create_target() {
    let plan = apply_link(&mapping(), &regular(7, 41, 1), &absent(), false, false, true);
    let record = match plan {
        Plan::Done(r) => r,
        _ => panic!("a dry run plans no filesystem action"),
    };
    assert_eq!(record.status, Status::WouldCreate);
    let (_, code) = run(&link_cmd(false, true), vec![record]);
    assert_eq!(code, 0);
}

#[test]
fn verify_symlink_target_is_conflict() {
    let sym = MetaProbe::Present(FileMeta { kind: FileKind::Symlink, dev: 7, ino: 50, nlink: 1, size: 11 });
    let rec = inspect_mapping(&mapping(), &regular(7, 41, 1), &sym);
    assert_eq!(rec.status, Status::Conflict);
    assert_eq!(rec.message, Some(Message::TargetNotRegular));
    let (_, code) = run(&Command::Verify { json: false }, vec![rec]);
    assert_eq!(code, 1);
}

#[test]
fn link_twice_is_idempotent() {
    // First run creates; with no external changes the pair is then
    // link-identical, and a second run skips it and changes nothing.
    let plan = apply_link(&mapping(), &regular(7, 41, 1), &absent(), false, false, false);
    assert_eq!(plan, Plan::Create);
    let plan = apply_link(&mapping(), &regular(7, 41, 2), &regular(7, 41, 2), false, false, false);
    match plan {
        Plan::Done(r) => {
            assert_eq!(r.status, Status::Skipped);
            assert_eq!(r.message, Some(Message::AlreadyLinked));
        },
        _ => panic!("second run must not act again"),
    }
}

#[test]
fn status_command_counts_inconsistencies() {
    let healthy = inspect_mapping(&mapping(), &regular(7, 41, 2), &regular(7, 41, 2));
    let broken = inspect_mapping(&mapping(), &regular(7, 41, 1), &regular(7, 99, 3));
    assert_eq!(broken.status, Status::Broken);
    let (report, code) = run(&Command::Status { json: false }, vec![healthy, broken]);
    assert_eq!(report.summary.total, 2);
    assert_eq!(report.summary.ok, 1);
    assert_eq!(report.summary.broken, 1);
    assert_eq!(code, 1);
}

#[test]
fn error_exit_code_overrides_inconsistency() {
    let missing = inspect_mapping(&mapping(), &regular(7, 41, 1), &absent());
    let error = inspect_mapping(
        &mapping(),
        &MetaProbe::Denied("Permission denied".to_string()),
        &absent(),
    );
    let (report, code) = run(&Command::Verify { json: false }, vec![missing, error]);
    assert_eq!(report.summary.missing, 1);
    assert_eq!(report.summary.errors, 1);
    assert_eq!(code, 2);
}

#[test]
fn bootstrap_command_ignores_inconsistency_in_exit_code() {
    let rec = inspect_mapping(&mapping(), &regular(7, 41, 1), &regular(7, 99, 1));
    assert_eq!(rec.status, Status::Conflict);
    let (_, code) = run(
        &Command::Bootstrap {
            force: false,
            dry_run: false,
            json: false,
            write_config: false,
            backup_dir: None,
        },
        vec![rec],
    );
    assert_eq!(code, 0);
}
