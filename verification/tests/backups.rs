use prompt_sync::logging::{should_rotate, OperationLog};
use prompt_sync::model::{FileKind, FileMeta, Message, MetaProbe};
use prompt_sync::safe_fs::{
    build_backup_path, build_hash_sidecar, calculate_sha256, check_disk_space,
    create_hard_link_checked, finalize_backup, plan_backup_cleanup, plan_target_removal,
    u64_to_decimal, BackupEntry, RemovalPlan,
};

fn regular(dev: u64, ino: u64, size: u64) -> MetaProbe {
    MetaProbe::Present(FileMeta { kind: FileKind::Regular, dev, ino, nlink: 1, size })
}

fn directory(dev: u64) -> MetaProbe {
    MetaProbe::Present(FileMeta { kind: FileKind::Directory, dev, ino: 2, nlink: 2, size: 0 })
}

#[test]
fn create_check_accepts_same_device_regular_source() {
    assert_eq!(create_hard_link_checked(&regular(1, 5, 10), &directory(1)), Ok(()));
}

#[test]
fn create_check_refuses_cross_device_links() {
    assert_eq!(
        create_hard_link_checked(&regular(1, 5, 10), &directory(2)),
        Err(Message::CrossFilesystem { source_dev: 1, parent_dev: 2 })
    );
}

#[test]
fn create_check_reverifies_the_source() {
    assert_eq!(
        create_hard_link_checked(&directory(1), &directory(1)),
        Err(Message::SourceNotRegular)
    );
    assert_eq!(
        create_hard_link_checked(&MetaProbe::Missing("No such file".to_string()), &directory(1)),
        Err(Message::SourceInspectFailed("No such file".to_string()))
    );
}

#[test]
fn removal_plan_refuses_directories() {
    assert_eq!(plan_target_removal(&directory(1), true), Err(Message::RefusingDirectory));
}

#[test]
fn removal_plan_backs_up_or_deletes() {
    assert_eq!(
        plan_target_removal(&regular(1, 5, 123), true),
        Ok(RemovalPlan::BackupFirst { size: 123 })
    );
    assert_eq!(plan_target_removal(&regular(1, 5, 123), false), Ok(RemovalPlan::DeleteOutright));
    assert_eq!(
        plan_target_removal(&MetaProbe::Missing("gone".to_string()), true),
        Ok(RemovalPlan::AlreadyAbsent)
    );
}

#[test]
fn disk_space_check_fails_fast_when_short() {
    assert_eq!(check_disk_space(100, 100), Ok(()));
    assert_eq!(
        check_disk_space(99, 100),
        Err(Message::InsufficientSpace { required: 100, available: 99 })
    );
}

#[test]
fn decimal_rendering_is_exact() {
    assert_eq!(u64_to_decimal(0), "0");
    assert_eq!(u64_to_decimal(7), "7");
    assert_eq!(u64_to_decimal(105), "105");
    assert_eq!(u64_to_decimal(18446744073709551615), "18446744073709551615");
}

#[test]
fn sha256_of_known_content() {
    let data = b"abc".to_vec();
    assert_eq!(
        calculate_sha256(&data),
        "ba7816bf8f01cfea414140de5dae2223b00361a396177a9cb410ff61f20015ad"
    );
    let empty: Vec<u8> = Vec::new();
    assert_eq!(
        calculate_sha256(&empty),
        "e3b0c44298fc1c149afbf4c8996fb92427ae41e4649b934ca495991b7852b855"
    );
}

#[test]
fn backup_path_prefixes_timestamp_to_file_name() {
    assert_eq!(build_backup_path("/b", "/a/x.md", 42), "/b/42-x.md");
    assert_eq!(build_backup_path("/b/", "x.md", 7), "/b/7-x.md");
    assert_eq!(build_backup_path("/b", "/a/dir/", 7), "/b/7-dir");
    assert_eq!(build_backup_path("/b", "/a/x.md/.", 7), "/b/7-x.md");
}

#[test]
fn backup_path_falls_back_when_the_target_has_no_file_name() {
    assert_eq!(build_backup_path("/b", "/", 7), "/b/7-target");
    assert_eq!(build_backup_path("/b", "/a/..", 7), "/b/7-target");
    assert_eq!(build_backup_path("/b", ".", 7), "/b/7-target");
}

#[test]
fn sidecar_records_algorithm_hash_size_and_timestamp() {
    let sc = build_hash_sidecar("/b/42-x.md", "aa11", 18, "2024-01-02T03:04:05+00:00");
    assert_eq!(sc.path, "/b/42-x.md.sha256");
    assert_eq!(
        sc.content,
        "algorithm=sha256\nhash=aa11\nsize=18\ntimestamp=2024-01-02T03:04:05+00:00\n"
    );
}

#[test]
fn finalize_backup_reports_location_and_optional_sidecar() {
    let (outcome, sidecar) = finalize_backup(
        "/b/42-x.md".to_string(),
        Some("aa11".to_string()),
        18,
        "2024-01-02T03:04:05+00:00",
    );
    assert_eq!(outcome.backup_path, Some("/b/42-x.md".to_string()));
    let sidecar = sidecar.expect("a hash yields a sidecar");
    assert_eq!(sidecar.path, "/b/42-x.md.sha256");

    let (outcome, sidecar) = finalize_backup("/b/42-x.md".to_string(), None, 18, "t");
    assert_eq!(outcome.backup_path, Some("/b/42-x.md".to_string()));
    assert_eq!(sidecar, None);
}

fn entry(path: &str, mtime: u64) -> BackupEntry {
    BackupEntry { path: path.to_string(), mtime }
}

#[test]
fn retention_deletes_oldest_down_to_the_maximum() {
    let entries = vec![
        entry("/b/5-x.bak", 50),
        entry("/b/1-x.bak", 10),
        entry("/b/4-x.bak", 40),
        entry("/b/2-x.bak", 20),
        entry("/b/3-x.bak", 30),
    ];
    let doomed = plan_backup_cleanup(&entries, 3);
    assert_eq!(doomed.len(), 2);
    assert_eq!(doomed[0].path, "/b/1-x.bak");
    assert_eq!(doomed[1].path, "/b/2-x.bak");
}

#[test]
fn retention_ignores_files_without_the_backup_extension() {
    let entries = vec![
        entry("/b/1-x.bak", 10),
        entry("/b/1-x.bak.sha256", 10),
        entry("/b/.operations.log", 5),
        entry("/b/.bak", 1),
        entry("/b/2-x.bak", 20),
    ];
    let doomed = plan_backup_cleanup(&entries, 1);
    assert_eq!(doomed.len(), 1);
    assert_eq!(doomed[0].path, "/b/1-x.bak");
}

#[test]
fn retention_within_the_limit_deletes_nothing() {
    let entries = vec![entry("/b/1-x.bak", 10), entry("/b/2-x.bak", 20)];
    assert_eq!(plan_backup_cleanup(&entries, 2).len(), 0);
    assert_eq!(plan_backup_cleanup(&entries, 100).len(), 0);
}

#[test]
fn journal_lives_under_a_fixed_name_and_rotates_by_size() {
    let log = OperationLog::new("/b");
    assert_eq!(log.log_path, "/b/.operations.log");
    assert_eq!(log.rotated_path(), "/b/.operations.log.1");
    assert!(!should_rotate(1048576));
    assert!(should_rotate(1048577));
}
