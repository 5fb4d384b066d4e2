use prompt_sync::cli::Profile;
use prompt_sync::config::{
    bootstrap_source_template, build_bootstrap_config, build_default_config,
    default_init_profiles, prepare_bootstrap_sources, refuse_overwrite, PrepAction, RootStat,
    SourceProbe,
};
use prompt_sync::model::{FileKind, FileMeta, Message, MetaProbe, ResolveContext};

fn ctx() -> ResolveContext {
    ResolveContext {
        config_dir: "/work".to_string(),
        repo_root_text: "/work".to_string(),
        home_dir: Some("/home/u".to_string()),
        home_dir_text: Some("/home/u".to_string()),
    }
}

#[test]
fn default_config_for_all_profiles() {
    let profiles = vec![Profile::Codex, Profile::Claude, Profile::Gemini, Profile::Copilot];
    let c = build_default_config(&profiles);
    assert_eq!(c.links.len(), 1);
    assert_eq!(c.links[0].source, "~/.ai_settings/master.md");
    assert_eq!(
        c.links[0].targets,
        vec![
            "~/.codex/AGENTS.md".to_string(),
            "~/.assistant/ASSISTANT.md".to_string(),
            "~/.gemini/GEMINI.md".to_string(),
            "<repo>/.github/copilot-instructions.md".to_string(),
        ]
    );
    assert_eq!(c.skills_sets.len(), 2);
    assert_eq!(c.skills_sets[0].source_root, "~/.agents/skills");
    assert_eq!(c.skills_sets[0].target_roots.len(), 4);
    assert_eq!(c.skills_sets[1].source_root, "~/.codex/skills");
    assert_eq!(
        c.skills_sets[1].target_roots,
        vec!["~/.assistant/skills".to_string(), "~/.gemini/skills".to_string()]
    );
    assert_eq!(c.master.unwrap().root, Some("~/.ai_settings".to_string()));
}

#[test]
fn default_config_for_codex_alone_has_no_skills() {
    let c = build_default_config(&vec![Profile::Codex]);
    assert_eq!(c.links[0].targets, vec!["~/.codex/AGENTS.md".to_string()]);
    assert_eq!(c.skills_sets.len(), 0);
}

#[test]
fn default_config_for_copilot_alone_skips_legacy_set() {
    let c = build_default_config(&vec![Profile::Copilot]);
    assert_eq!(c.skills_sets.len(), 1);
    assert_eq!(
        c.skills_sets[0].target_roots,
        vec!["~/.copilot/skills".to_string(), "<repo>/.github/skills".to_string()]
    );
}

#[test]
fn init_profile_selection_defaults_to_all() {
    let all = default_init_profiles(Vec::new());
    assert_eq!(all, vec![Profile::Codex, Profile::Claude, Profile::Gemini, Profile::Copilot]);
    let chosen = default_init_profiles(vec![Profile::Gemini]);
    assert_eq!(chosen, vec![Profile::Gemini]);
}

#[test]
fn bootstrap_write_config_refuses_overwrite_without_force() {
    assert!(refuse_overwrite(true, false));
    assert!(!refuse_overwrite(true, true));
    assert!(!refuse_overwrite(false, false));
}

#[test]
fn bootstrap_config_covers_common_vendor_paths() {
    let c = build_bootstrap_config();
    assert_eq!(c.links.len(), 1);
    assert_eq!(c.links[0].targets.len(), 7);
    assert_eq!(c.links[0].targets[3], "<repo>/AGENTS.md");
    assert_eq!(c.skills_sets.len(), 2);
    assert_eq!(c.skills_sets[0].target_roots.len(), 6);
    assert_eq!(c.skills_sets[1].target_roots.len(), 4);
}

#[test]
fn bootstrap_template_names_the_master_file() {
    assert!(bootstrap_source_template().contains("master instructions"));
}

fn present_file() -> SourceProbe {
    SourceProbe {
        exists: true,
        meta: MetaProbe::Present(FileMeta {
            kind: FileKind::Regular,
            dev: 1,
            ino: 5,
            nlink: 1,
            size: 3,
        }),
    }
}

fn absent_file() -> SourceProbe {
    SourceProbe { exists: false, meta: MetaProbe::Missing("No such file".to_string()) }
}

#[test]
fn bootstrap_prepares_missing_sources_and_roots() {
    let c = build_bootstrap_config();
    let probes: Vec<SourceProbe> = vec![absent_file()];
    let stats = vec![RootStat { exists: false, is_dir: false }, RootStat { exists: true, is_dir: true }];
    let actions = prepare_bootstrap_sources(&c, &ctx(), &probes, &stats, false).unwrap();
    assert_eq!(
        actions,
        vec![
            PrepAction::WriteSourceFile { path: "/home/u/.ai_settings/master.md".to_string() },
            PrepAction::CreateSkillsRoot { path: "/home/u/.agents/skills".to_string() },
        ]
    );
}

#[test]
fn bootstrap_dry_run_prepares_nothing() {
    let c = build_bootstrap_config();
    let probes = vec![absent_file()];
    let stats = vec![RootStat { exists: false, is_dir: false }, RootStat { exists: false, is_dir: false }];
    let actions = prepare_bootstrap_sources(&c, &ctx(), &probes, &stats, true).unwrap();
    assert_eq!(actions.len(), 0);
}

#[test]
fn bootstrap_accepts_existing_regular_sources() {
    let c = build_bootstrap_config();
    let probes = vec![present_file()];
    let stats = vec![RootStat { exists: true, is_dir: true }, RootStat { exists: true, is_dir: true }];
    let actions = prepare_bootstrap_sources(&c, &ctx(), &probes, &stats, false).unwrap();
    assert_eq!(actions.len(), 0);
}

#[test]
fn bootstrap_rejects_irregular_sources() {
    let c = build_bootstrap_config();
    let probes = vec![SourceProbe {
        exists: true,
        meta: MetaProbe::Present(FileMeta {
            kind: FileKind::Directory,
            dev: 1,
            ino: 5,
            nlink: 2,
            size: 0,
        }),
    }];
    let stats = vec![RootStat { exists: true, is_dir: true }, RootStat { exists: true, is_dir: true }];
    let err = prepare_bootstrap_sources(&c, &ctx(), &probes, &stats, false).unwrap_err();
    assert_eq!(err, Message::BootstrapSourceNotRegular("~/.ai_settings/master.md".to_string()));
}

#[test]
fn bootstrap_rejects_non_directory_roots() {
    let c = build_bootstrap_config();
    let probes = vec![present_file()];
    let stats = vec![RootStat { exists: true, is_dir: false }, RootStat { exists: true, is_dir: true }];
    let err = prepare_bootstrap_sources(&c, &ctx(), &probes, &stats, false).unwrap_err();
    assert_eq!(err, Message::BootstrapRootNotDirectory("~/.agents/skills".to_string()));
}
