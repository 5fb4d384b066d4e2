use prompt_sync::engine::inspect_mapping;
use prompt_sync::model::{FileKind, FileMeta, Mapping, MappingKind, Message, MetaProbe, Status};

fn mapping() -> Mapping {
    Mapping {
        kind: MappingKind::ConfigFile,
        source: "/home/u/master.md".to_string(),
        target: "/home/u/out/AGENTS.md".to_string(),
    }
}

fn regular(dev: u64, ino: u64, nlink: u64, size: u64) -> MetaProbe {
    MetaProbe::Present(FileMeta { kind: FileKind::Regular, dev, ino, nlink, size })
}

#[test]
fn classify_link_identical_is_ok() {
    let r = inspect_mapping(&mapping(), &regular(1, 5, 2, 10), &regular(1, 5, 2, 10));
    assert_eq!(r.status, Status::Okay);
    assert_eq!(r.message, Some(Message::InodeMatch));
    assert_eq!(r.source, "/home/u/master.md");
    assert_eq!(r.target, "/home/u/out/AGENTS.md");
}

#[test]
fn classify_missing_target() {
    let r = inspect_mapping(
        &mapping(),
        &regular(1, 5, 1, 10),
        &MetaProbe::Missing("No such file or directory".to_string()),
    );
    assert_eq!(r.status, Status::Missing);
    assert_eq!(r.message, Some(Message::TargetMissing));
}

#[test]
fn classify_independent_file_is_conflict() {
    let r = inspect_mapping(&mapping(), &regular(1, 5, 1, 10), &regular(1, 9, 1, 14));
    assert_eq!(r.status, Status::Conflict);
    assert_eq!(r.message, Some(Message::TargetDiffers));
}

#[test]
fn classify_multiply_linked_target_is_broken() {
    let r = inspect_mapping(&mapping(), &regular(1, 5, 1, 10), &regular(1, 9, 2, 10));
    assert_eq!(r.status, Status::Broken);
    assert_eq!(r.message, Some(Message::TargetLinkedElsewhere));
}

#[test]
fn classify_same_inode_other_device_is_not_ok() {
    let r = inspect_mapping(&mapping(), &regular(1, 5, 1, 10), &regular(2, 5, 1, 10));
    assert_eq!(r.status, Status::Conflict);
}

#[test]
fn classify_symlink_target_is_conflict() {
    let sym = MetaProbe::Present(FileMeta { kind: FileKind::Symlink, dev: 1, ino: 9, nlink: 1, size: 4 });
    let r = inspect_mapping(&mapping(), &regular(1, 5, 1, 10), &sym);
    assert_eq!(r.status, Status::Conflict);
    assert_eq!(r.message, Some(Message::TargetNotRegular));
}

#[test]
fn classify_unreadable_source_is_error() {
    let r = inspect_mapping(
        &mapping(),
        &MetaProbe::Missing("No such file or directory".to_string()),
        &regular(1, 9, 1, 10),
    );
    assert_eq!(r.status, Status::Error);
    assert_eq!(
        r.message,
        Some(Message::SourceMetadataError("No such file or directory".to_string()))
    );
}

#[test]
fn classify_irregular_source_is_error() {
    let dir = MetaProbe::Present(FileMeta { kind: FileKind::Directory, dev: 1, ino: 5, nlink: 2, size: 0 });
    let r = inspect_mapping(&mapping(), &dir, &regular(1, 9, 1, 10));
    assert_eq!(r.status, Status::Error);
    assert_eq!(r.message, Some(Message::SourceNotRegular));
}

#[test]
fn classify_unreadable_target_is_error() {
    let r = inspect_mapping(
        &mapping(),
        &regular(1, 5, 1, 10),
        &MetaProbe::Denied("Permission denied".to_string()),
    );
    assert_eq!(r.status, Status::Error);
    assert_eq!(r.message, Some(Message::TargetMetadataError("Permission denied".to_string())));
}

#[test]
fn classify_source_error_wins_over_target_error() {
    let r = inspect_mapping(
        &mapping(),
        &MetaProbe::Denied("Permission denied".to_string()),
        &MetaProbe::Missing("No such file or directory".to_string()),
    );
    assert_eq!(r.status, Status::Error);
    assert_eq!(r.message, Some(Message::SourceMetadataError("Permission denied".to_string())));
}
