use prompt_sync::config::{ConfigFile, LinkRule, SkillsSet};
use prompt_sync::engine::{build_mappings, RootProbe};
use prompt_sync::model::{MappingKind, Message, ResolveContext};

fn ctx() -> ResolveContext {
    ResolveContext {
        config_dir: "/work".to_string(),
        repo_root_text: "/work".to_string(),
        home_dir: Some("/home/u".to_string()),
        home_dir_text: Some("/home/u".to_string()),
    }
}

fn config(links: Vec<LinkRule>, skills_sets: Vec<SkillsSet>) -> ConfigFile {
    ConfigFile { master: None, links, skills_sets }
}

#[test]
fn link_rules_expand_to_one_mapping_per_target() {
    let c = config(
        vec![LinkRule {
            source: "~/m.md".to_string(),
            targets: vec!["~/.codex/AGENTS.md".to_string(), "<repo>/AGENTS.md".to_string()],
        }],
        Vec::new(),
    );
    let ms = build_mappings(&c, &ctx(), &Vec::new()).unwrap();
    assert_eq!(ms.len(), 2);
    assert_eq!(ms[0].kind, MappingKind::ConfigFile);
    assert_eq!(ms[0].source, "/home/u/m.md");
    assert_eq!(ms[0].target, "/home/u/.codex/AGENTS.md");
    assert_eq!(ms[1].target, "/work/AGENTS.md");
}

#[test]
fn duplicate_pairs_are_dropped_keeping_the_first() {
    let c = config(
        vec![
            LinkRule {
                source: "~/m.md".to_string(),
                targets: vec!["~/a".to_string(), "~/a".to_string(), "~/b".to_string()],
            },
            LinkRule { source: "~/m.md".to_string(), targets: vec!["~/b".to_string()] },
        ],
        Vec::new(),
    );
    let ms = build_mappings(&c, &ctx(), &Vec::new()).unwrap();
    assert_eq!(ms.len(), 2);
    assert_eq!(ms[0].target, "/home/u/a");
    assert_eq!(ms[1].target, "/home/u/b");
}

#[test]
fn skills_files_mirror_under_each_target_root() {
    let c = config(
        Vec::new(),
        vec![SkillsSet {
            source_root: "~/.agents/skills".to_string(),
            target_roots: vec!["~/.assistant/skills".to_string(), "~/.gemini/skills".to_string()],
        }],
    );
    let roots = vec![RootProbe::Tree(vec!["a/one.md".to_string(), "two.md".to_string()])];
    let ms = build_mappings(&c, &ctx(), &roots).unwrap();
    assert_eq!(ms.len(), 4);
    assert_eq!(ms[0].kind, MappingKind::SkillFile);
    assert_eq!(ms[0].source, "/home/u/.agents/skills/a/one.md");
    assert_eq!(ms[0].target, "/home/u/.assistant/skills/a/one.md");
    assert_eq!(ms[1].target, "/home/u/.gemini/skills/a/one.md");
    assert_eq!(ms[2].source, "/home/u/.agents/skills/two.md");
    assert_eq!(ms[3].target, "/home/u/.gemini/skills/two.md");
}

#[test]
fn absent_source_roots_are_skipped() {
    let c = config(
        Vec::new(),
        vec![
            SkillsSet {
                source_root: "~/missing".to_string(),
                target_roots: vec!["~/t".to_string()],
            },
            SkillsSet {
                source_root: "~/present".to_string(),
                target_roots: vec!["~/t".to_string()],
            },
        ],
    );
    let roots = vec![RootProbe::Missing, RootProbe::Tree(vec!["f".to_string()])];
    let ms = build_mappings(&c, &ctx(), &roots).unwrap();
    assert_eq!(ms.len(), 1);
    assert_eq!(ms[0].source, "/home/u/present/f");
}

#[test]
fn non_directory_source_root_is_a_configuration_error() {
    let c = config(
        Vec::new(),
        vec![SkillsSet { source_root: "~/notdir".to_string(), target_roots: vec!["~/t".to_string()] }],
    );
    let err = build_mappings(&c, &ctx(), &vec![RootProbe::NotDirectory]).unwrap_err();
    assert_eq!(err, Message::SourceRootNotDirectory("~/notdir".to_string()));
}

#[test]
fn failed_walk_is_a_configuration_error() {
    let c = config(
        Vec::new(),
        vec![SkillsSet { source_root: "~/deep".to_string(), target_roots: vec!["~/t".to_string()] }],
    );
    let err = build_mappings(
        &c,
        &ctx(),
        &vec![RootProbe::WalkFailed("Permission denied".to_string())],
    )
    .unwrap_err();
    assert_eq!(
        err,
        Message::WalkFailed { root: "~/deep".to_string(), error: "Permission denied".to_string() }
    );
}

#[test]
fn skill_mappings_deduplicate_against_link_rules() {
    let c = config(
        vec![LinkRule { source: "~/root/f".to_string(), targets: vec!["~/t/f".to_string()] }],
        vec![SkillsSet { source_root: "~/root".to_string(), target_roots: vec!["~/t".to_string()] }],
    );
    let roots = vec![RootProbe::Tree(vec!["f".to_string()])];
    let ms = build_mappings(&c, &ctx(), &roots).unwrap();
    assert_eq!(ms.len(), 1);
    assert_eq!(ms[0].kind, MappingKind::ConfigFile);
}
