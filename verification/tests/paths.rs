use prompt_sync::model::{FileKind, FileMeta, ResolveContext};
use prompt_sync::pathing::{
    hardlink_count, path_join, replace_token, resolve_path, same_file, substitute_tokens,
    PathTemplate,
};

fn ctx_with_home() -> ResolveContext {
    ResolveContext {
        config_dir: "/work/project".to_string(),
        repo_root_text: "/work/project".to_string(),
        home_dir: Some("/home/u".to_string()),
        home_dir_text: Some("/home/u".to_string()),
    }
}

fn ctx_without_home() -> ResolveContext {
    ResolveContext {
        config_dir: "/work/project".to_string(),
        repo_root_text: "/work/project".to_string(),
        home_dir: None,
        home_dir_text: None,
    }
}

#[test]
fn replace_token_replaces_every_occurrence() {
    assert_eq!(replace_token("a<x>b<x>c", "<x>", "-"), "a-b-c");
    assert_eq!(replace_token("<x><x>", "<x>", "yz"), "yzyz");
    assert_eq!(replace_token("nothing here", "<x>", "-"), "nothing here");
    assert_eq!(replace_token("", "<x>", "-"), "");
}

#[test]
fn replace_token_scans_left_to_right_without_overlap() {
    assert_eq!(replace_token("aaa", "aa", "b"), "ba");
}

#[test]
fn replace_token_with_empty_token_changes_nothing() {
    assert_eq!(replace_token("abc", "", "x"), "abc");
}

#[test]
fn substitute_tokens_fills_repo_and_home() {
    let out = substitute_tokens("<repo>/docs/<home>/x", &ctx_with_home());
    assert_eq!(out, "/work/project/docs//home/u/x");
}

#[test]
fn substitute_tokens_leaves_home_token_without_home() {
    let out = substitute_tokens("<home>/x", &ctx_without_home());
    assert_eq!(out, "<home>/x");
}

#[test]
fn resolve_expands_home_relative_templates() {
    assert_eq!(resolve_path("~/notes/master.md", &ctx_with_home()), "/home/u/notes/master.md");
    assert_eq!(resolve_path("~", &ctx_with_home()), "/home/u");
}

#[test]
fn resolve_keeps_absolute_paths() {
    assert_eq!(resolve_path("/etc/hosts", &ctx_with_home()), "/etc/hosts");
}

#[test]
fn resolve_joins_relative_paths_onto_config_dir() {
    assert_eq!(resolve_path("sub/file.md", &ctx_with_home()), "/work/project/sub/file.md");
}

#[test]
fn resolve_substitutes_repo_token_first() {
    assert_eq!(resolve_path("<repo>/AGENTS.md", &ctx_with_home()), "/work/project/AGENTS.md");
}

#[test]
fn resolve_without_home_treats_tilde_as_relative() {
    assert_eq!(resolve_path("~/x", &ctx_without_home()), "/work/project/~/x");
}

#[test]
fn path_template_resolves_like_resolve_path() {
    let raw = "~/a".to_string();
    let t = PathTemplate::new(raw.as_str());
    assert_eq!(t.resolve(&ctx_with_home()), "/home/u/a");
}

#[test]
fn path_join_inserts_separator_only_when_needed() {
    assert_eq!(path_join("/a/b", "c"), "/a/b/c");
    assert_eq!(path_join("/a/b/", "c"), "/a/b/c");
    assert_eq!(path_join("", "c"), "c");
    assert_eq!(path_join("/a", ""), "/a/");
}

#[test]
fn same_file_compares_device_and_inode() {
    let a = FileMeta { kind: FileKind::Regular, dev: 1, ino: 5, nlink: 1, size: 3 };
    let b = FileMeta { kind: FileKind::Regular, dev: 1, ino: 5, nlink: 2, size: 9 };
    let c = FileMeta { kind: FileKind::Regular, dev: 2, ino: 5, nlink: 1, size: 3 };
    assert!(same_file(&a, &b));
    assert!(!same_file(&a, &c));
    assert_eq!(hardlink_count(&b), 2);
}
