//! The declarative configuration: link rules and skills sets, the default
//! configuration generated per selected profile, and the fixed bootstrap
//! configuration with its source-preparation decisions.

use vstd::prelude::*;

use crate::cli::Profile;
use crate::model::{FileKind, Message, MetaProbe, ResolveContext};
use crate::pathing::{resolve_path, spec_resolve};

verus! {

/// One explicit rule: a source template and the target templates it links to.
pub struct LinkRule {
    pub source: String,
    pub targets: Vec<String>,
}

/// One directory-mirroring rule: a source root template and the target root
/// templates every discovered file is mirrored under.
pub struct SkillsSet {
    pub source_root: String,
    pub target_roots: Vec<String>,
}

/// The optional master section of the configuration.
pub struct MasterConfig {
    pub root: Option<String>,
}

/// The whole configuration file.
pub struct ConfigFile {
    pub master: Option<MasterConfig>,
    pub links: Vec<LinkRule>,
    pub skills_sets: Vec<SkillsSet>,
}

/// Mathematical view of a link rule.
pub struct LinkRuleView {
    pub source: Seq<char>,
    pub targets: Seq<Seq<char>>,
}

impl View for LinkRule {
    type V = LinkRuleView;

    open spec fn view(&self) -> LinkRuleView {
        LinkRuleView {
            source: self.source@,
            targets: self.targets@.map_values(|t: String| t@),
        }
    }
}

/// Mathematical view of a skills set.
pub struct SkillsSetView {
    pub source_root: Seq<char>,
    pub target_roots: Seq<Seq<char>>,
}

impl View for SkillsSet {
    type V = SkillsSetView;

    open spec fn view(&self) -> SkillsSetView {
        SkillsSetView {
            source_root: self.source_root@,
            target_roots: self.target_roots@.map_values(|t: String| t@),
        }
    }
}

/// Mathematical view of the master section.
pub struct MasterConfigView {
    pub root: Option<Seq<char>>,
}

impl View for MasterConfig {
    type V = MasterConfigView;

    open spec fn view(&self) -> MasterConfigView {
        MasterConfigView {
            root: match self.root {
                Some(r) => Some(r@),
                None => None,
            },
        }
    }
}

/// Mathematical view of the whole configuration.
pub struct ConfigFileView {
    pub master: Option<MasterConfigView>,
    pub links: Seq<LinkRuleView>,
    pub skills_sets: Seq<SkillsSetView>,
}

impl View for ConfigFile {
    type V = ConfigFileView;

    open spec fn view(&self) -> ConfigFileView {
        ConfigFileView {
            master: match self.master {
                Some(m) => Some(m@),
                None => None,
            },
            links: self.links@.map_values(|r: LinkRule| r@),
            skills_sets: self.skills_sets@.map_values(|s: SkillsSet| s@),
        }
    }
}

/// Whether the profile was selected.
pub fn has_profile(profiles: &Vec<Profile>, p: Profile) -> (r: bool)
    ensures
        r == profiles@.contains(p),
{
    let mut i: usize = 0;
    while i < profiles.len()
        invariant
            i <= profiles.len(),
            forall|j: int| 0 <= j < i ==> profiles@[j] != p,
        decreases profiles.len() - i,
    {
        if profiles[i] == p {
            return true;
        }
        i = i + 1;
    }
    false
}

/// The instruction-file targets the default configuration links per profile.
pub open spec fn spec_default_link_targets(ps: Seq<Profile>) -> Seq<Seq<char>> {
    (if ps.contains(Profile::Codex) {
        seq!["~/.codex/AGENTS.md"@]
    } else {
        Seq::empty()
    }) + (if ps.contains(Profile::Claude) {
        seq!["~/.assistant/ASSISTANT.md"@]
    } else {
        Seq::empty()
    }) + (if ps.contains(Profile::Gemini) {
        seq!["~/.gemini/GEMINI.md"@]
    } else {
        Seq::empty()
    }) + (if ps.contains(Profile::Copilot) {
        seq!["<repo>/.github/copilot-instructions.md"@]
    } else {
        Seq::empty()
    })
}

/// The skills target roots the default configuration mirrors under.
pub open spec fn spec_default_skill_roots(ps: Seq<Profile>) -> Seq<Seq<char>> {
    (if ps.contains(Profile::Claude) {
        seq!["~/.assistant/skills"@]
    } else {
        Seq::empty()
    }) + (if ps.contains(Profile::Gemini) {
        seq!["~/.gemini/skills"@]
    } else {
        Seq::empty()
    }) + (if ps.contains(Profile::Copilot) {
        seq!["~/.copilot/skills"@, "<repo>/.github/skills"@]
    } else {
        Seq::empty()
    })
}

/// The legacy skills target roots the default configuration also mirrors.
pub open spec fn spec_default_legacy_roots(ps: Seq<Profile>) -> Seq<Seq<char>> {
    (if ps.contains(Profile::Claude) {
        seq!["~/.assistant/skills"@]
    } else {
        Seq::empty()
    }) + (if ps.contains(Profile::Gemini) {
        seq!["~/.gemini/skills"@]
    } else {
        Seq::empty()
    })
}

/// The default configuration for the selected profiles: one master link rule,
/// plus skills sets for the profiles that mirror skills directories.
pub open spec fn spec_default_config(ps: Seq<Profile>) -> ConfigFileView {
    let roots = spec_default_skill_roots(ps);
    let legacy = spec_default_legacy_roots(ps);
    ConfigFileView {
        master: Some(MasterConfigView { root: Some("~/.ai_settings"@) }),
        links: seq![
            LinkRuleView {
                source: "~/.ai_settings/master.md"@,
                targets: spec_default_link_targets(ps),
            },
        ],
        skills_sets: (if roots.len() > 0 {
            seq![SkillsSetView { source_root: "~/.agents/skills"@, target_roots: roots }]
        } else {
            Seq::empty()
        }) + (if legacy.len() > 0 {
            seq![SkillsSetView { source_root: "~/.codex/skills"@, target_roots: legacy }]
        } else {
            Seq::empty()
        }),
    }
}

/// Build the default configuration for the selected profiles.
pub fn build_default_config(profiles: &Vec<Profile>) -> (c: ConfigFile)
    ensures
        c@ == spec_default_config(profiles@),
{
    let mut link_targets: Vec<String> = Vec::new();
    if has_profile(profiles, Profile::Codex) {
        link_targets.push("~/.codex/AGENTS.md".to_owned());
    }
    if has_profile(profiles, Profile::Claude) {
        link_targets.push("~/.assistant/ASSISTANT.md".to_owned());
    }
    if has_profile(profiles, Profile::Gemini) {
        link_targets.push("~/.gemini/GEMINI.md".to_owned());
    }
    if has_profile(profiles, Profile::Copilot) {
        link_targets.push("<repo>/.github/copilot-instructions.md".to_owned());
    }
    proof {
        assert(link_targets@.map_values(|t: String| t@) =~= spec_default_link_targets(profiles@));
    }

    let mut target_roots: Vec<String> = Vec::new();
    if has_profile(profiles, Profile::Claude) {
        target_roots.push("~/.assistant/skills".to_owned());
    }
    if has_profile(profiles, Profile::Gemini) {
        target_roots.push("~/.gemini/skills".to_owned());
    }
    if has_profile(profiles, Profile::Copilot) {
        target_roots.push("~/.copilot/skills".to_owned());
        target_roots.push("<repo>/.github/skills".to_owned());
    }
    proof {
        assert(target_roots@.map_values(|t: String| t@) =~= spec_default_skill_roots(profiles@));
    }

    let mut legacy_targets: Vec<String> = Vec::new();
    if has_profile(profiles, Profile::Claude) {
        legacy_targets.push("~/.assistant/skills".to_owned());
    }
    if has_profile(profiles, Profile::Gemini) {
        legacy_targets.push("~/.gemini/skills".to_owned());
    }
    proof {
        assert(legacy_targets@.map_values(|t: String| t@) =~= spec_default_legacy_roots(
            profiles@,
        ));
    }

    let mut skills_sets: Vec<SkillsSet> = Vec::new();
    if target_roots.len() > 0 {
        skills_sets.push(SkillsSet { source_root: "~/.agents/skills".to_owned(), target_roots });
    }
    if legacy_targets.len() > 0 {
        skills_sets.push(
            SkillsSet { source_root: "~/.codex/skills".to_owned(), target_roots: legacy_targets },
        );
    }

    let links = vec![
        LinkRule { source: "~/.ai_settings/master.md".to_owned(), targets: link_targets },
    ];

    let c = ConfigFile {
        master: Some(MasterConfig { root: Some("~/.ai_settings".to_owned()) }),
        links,
        skills_sets,
    };
    proof {
        assert(c@.links =~= spec_default_config(profiles@).links);
        assert(c@.skills_sets =~= spec_default_config(profiles@).skills_sets);
    }
    c
}

/// The profiles an initial configuration is generated for: the selected ones,
/// or every profile when none was selected.
pub fn default_init_profiles(profiles: Vec<Profile>) -> (r: Vec<Profile>)
    ensures
        profiles@.len() > 0 ==> r == profiles,
        profiles@.len() == 0 ==> r@ =~= seq![
            Profile::Codex,
            Profile::Claude,
            Profile::Gemini,
            Profile::Copilot,
        ],
{
    if profiles.len() == 0 {
        let r = vec![Profile::Codex, Profile::Claude, Profile::Gemini, Profile::Copilot];
        r
    } else {
        profiles
    }
}

/// Whether writing a file must be refused: it already exists and overwriting
/// was not forced.
pub fn refuse_overwrite(exists: bool, force: bool) -> (r: bool)
    ensures
        r == (exists && !force),
{
    exists && !force
}

/// The bootstrap configuration: every common vendor path, fixed.
pub open spec fn spec_bootstrap_config() -> ConfigFileView {
    ConfigFileView {
        master: Some(MasterConfigView { root: Some("~/.ai_settings"@) }),
        links: seq![
            LinkRuleView {
                source: "~/.ai_settings/master.md"@,
                targets: seq![
                    "~/.codex/AGENTS.md"@,
                    "~/.assistant/ASSISTANT.md"@,
                    "~/.gemini/GEMINI.md"@,
                    "<repo>/AGENTS.md"@,
                    "<repo>/ASSISTANT.md"@,
                    "<repo>/GEMINI.md"@,
                    "<repo>/.github/copilot-instructions.md"@,
                ],
            },
        ],
        skills_sets: seq![
            SkillsSetView {
                source_root: "~/.agents/skills"@,
                target_roots: seq![
                    "~/.assistant/skills"@,
                    "~/.gemini/skills"@,
                    "~/.copilot/skills"@,
                    "<repo>/.github/skills"@,
                    "<repo>/.assistant/skills"@,
                    "<repo>/.gemini/skills"@,
                ],
            },
            SkillsSetView {
                source_root: "~/.codex/skills"@,
                target_roots: seq![
                    "~/.assistant/skills"@,
                    "~/.gemini/skills"@,
                    "~/.copilot/skills"@,
                    "<repo>/.github/skills"@,
                ],
            },
        ],
    }
}

/// Build the bootstrap configuration.
pub fn build_bootstrap_config() -> (c: ConfigFile)
    ensures
        c@ == spec_bootstrap_config(),
{
    let targets = vec![
        "~/.codex/AGENTS.md".to_owned(),
        "~/.assistant/ASSISTANT.md".to_owned(),
        "~/.gemini/GEMINI.md".to_owned(),
        "<repo>/AGENTS.md".to_owned(),
        "<repo>/ASSISTANT.md".to_owned(),
        "<repo>/GEMINI.md".to_owned(),
        "<repo>/.github/copilot-instructions.md".to_owned(),
    ];
    let roots_a = vec![
        "~/.assistant/skills".to_owned(),
        "~/.gemini/skills".to_owned(),
        "~/.copilot/skills".to_owned(),
        "<repo>/.github/skills".to_owned(),
        "<repo>/.assistant/skills".to_owned(),
        "<repo>/.gemini/skills".to_owned(),
    ];
    let roots_b = vec![
        "~/.assistant/skills".to_owned(),
        "~/.gemini/skills".to_owned(),
        "~/.copilot/skills".to_owned(),
        "<repo>/.github/skills".to_owned(),
    ];
    proof {
        assert(targets@.map_values(|t: String| t@) =~= spec_bootstrap_config().links[0].targets);
        assert(roots_a@.map_values(|t: String| t@) =~= spec_bootstrap_config().skills_sets[0]
            .target_roots);
        assert(roots_b@.map_values(|t: String| t@) =~= spec_bootstrap_config().skills_sets[1]
            .target_roots);
    }
    let c = ConfigFile {
        master: Some(MasterConfig { root: Some("~/.ai_settings".to_owned()) }),
        links: vec![
            LinkRule { source: "~/.ai_settings/master.md".to_owned(), targets },
        ],
        skills_sets: vec![
            SkillsSet { source_root: "~/.agents/skills".to_owned(), target_roots: roots_a },
            SkillsSet { source_root: "~/.codex/skills".to_owned(), target_roots: roots_b },
        ],
    };
    proof {
        assert(c@.links =~= spec_bootstrap_config().links);
        assert(c@.skills_sets =~= spec_bootstrap_config().skills_sets);
    }
    c
}

/// The contents written into a bootstrap source file that does not exist yet.
pub fn bootstrap_source_template() -> (r: &'static str)
    ensures
        r@ == "# master instructions\n\nUpdate this file to sync all linked instruction files.\n"@,
{
    "# master instructions\n\nUpdate this file to sync all linked instruction files.\n"
}

/// What a probe of a bootstrap source path saw: whether anything (following
/// symbolic links) exists there, and its link-aware metadata when so.
pub struct SourceProbe {
    pub exists: bool,
    pub meta: MetaProbe,
}

/// What a probe of a skills source root saw, following symbolic links.
pub struct RootStat {
    pub exists: bool,
    pub is_dir: bool,
}

/// One filesystem write that bootstrap must perform before linking: create a
/// missing source file (with the fixed template contents), or create a
/// missing skills source root directory.
#[derive(Debug, PartialEq)]
pub enum PrepAction {
    WriteSourceFile { path: String },
    CreateSkillsRoot { path: String },
}

/// Mathematical view of a preparation action: the kind and the resolved path.
pub enum PrepStep {
    WriteSource(Seq<char>),
    CreateRoot(Seq<char>),
}

impl View for PrepAction {
    type V = PrepStep;

    open spec fn view(&self) -> PrepStep {
        match self {
            PrepAction::WriteSourceFile { path } => PrepStep::WriteSource(path@),
            PrepAction::CreateSkillsRoot { path } => PrepStep::CreateRoot(path@),
        }
    }
}

/// What one link rule's source needs: nothing when a regular file already
/// exists there, an error when something else does, a write when it is absent
/// (outside dry runs).
pub open spec fn spec_prep_link_rule(
    rule: LinkRule,
    probe: SourceProbe,
    ctx: ResolveContext,
    dry_run: bool,
) -> Result<Seq<PrepStep>, Message> {
    if probe.exists {
        match probe.meta {
            MetaProbe::Missing(e) => Err(Message::BootstrapSourceInspectFailed(e)),
            MetaProbe::Denied(e) => Err(Message::BootstrapSourceInspectFailed(e)),
            MetaProbe::Present(m) => {
                if m.kind != FileKind::Regular {
                    Err(Message::BootstrapSourceNotRegular(rule.source))
                } else {
                    Ok(Seq::empty())
                }
            },
        }
    } else if dry_run {
        Ok(Seq::empty())
    } else {
        Ok(seq![PrepStep::WriteSource(spec_resolve(rule.source@, ctx))])
    }
}

/// The writes all link rules need, in rule order; the first failing rule's
/// error aborts.
pub open spec fn spec_prep_links(
    links: Seq<LinkRule>,
    probes: Seq<SourceProbe>,
    ctx: ResolveContext,
    dry_run: bool,
) -> Result<Seq<PrepStep>, Message>
    decreases links.len(),
{
    if links.len() == 0 {
        Ok(Seq::empty())
    } else {
        match spec_prep_links(links.drop_last(), probes.drop_last(), ctx, dry_run) {
            Err(e) => Err(e),
            Ok(pre) => match spec_prep_link_rule(links.last(), probes.last(), ctx, dry_run) {
                Err(e) => Err(e),
                Ok(s) => Ok(pre + s),
            },
        }
    }
}

/// What one skills set's source root needs: nothing when a directory already
/// exists there, an error when something that is no directory does, a
/// directory creation when it is absent (outside dry runs).
pub open spec fn spec_prep_root(
    set: SkillsSet,
    stat: RootStat,
    ctx: ResolveContext,
    dry_run: bool,
) -> Result<Seq<PrepStep>, Message> {
    if stat.exists {
        if !stat.is_dir {
            Err(Message::BootstrapRootNotDirectory(set.source_root))
        } else {
            Ok(Seq::empty())
        }
    } else if dry_run {
        Ok(Seq::empty())
    } else {
        Ok(seq![PrepStep::CreateRoot(spec_resolve(set.source_root@, ctx))])
    }
}

/// The directory creations all skills sets need, in set order; the first
/// failing set's error aborts.
pub open spec fn spec_prep_roots(
    sets: Seq<SkillsSet>,
    stats: Seq<RootStat>,
    ctx: ResolveContext,
    dry_run: bool,
) -> Result<Seq<PrepStep>, Message>
    decreases sets.len(),
{
    if sets.len() == 0 {
        Ok(Seq::empty())
    } else {
        match spec_prep_roots(sets.drop_last(), stats.drop_last(), ctx, dry_run) {
            Err(e) => Err(e),
            Ok(pre) => match spec_prep_root(sets.last(), stats.last(), ctx, dry_run) {
                Err(e) => Err(e),
                Ok(s) => Ok(pre + s),
            },
        }
    }
}

/// Everything bootstrap must create before linking: the link rules' source
/// writes, then the skills sets' root creations.
pub open spec fn spec_prepare_bootstrap(
    config: ConfigFile,
    probes: Seq<SourceProbe>,
    stats: Seq<RootStat>,
    ctx: ResolveContext,
    dry_run: bool,
) -> Result<Seq<PrepStep>, Message> {
    match spec_prep_links(config.links@, probes, ctx, dry_run) {
        Err(e) => Err(e),
        Ok(a) => match spec_prep_roots(config.skills_sets@, stats, ctx, dry_run) {
            Err(e) => Err(e),
            Ok(b) => Ok(a + b),
        },
    }
}

proof fn lemma_prep_links_error_extends(
    links: Seq<LinkRule>,
    probes: Seq<SourceProbe>,
    ctx: ResolveContext,
    dry_run: bool,
    i: int,
)
    requires
        0 <= i <= links.len(),
        probes.len() == links.len(),
        spec_prep_links(links.take(i), probes.take(i), ctx, dry_run) is Err,
    ensures
        spec_prep_links(links, probes, ctx, dry_run) == spec_prep_links(
            links.take(i),
            probes.take(i),
            ctx,
            dry_run,
        ),
    decreases links.len() - i,
{
    if i == links.len() {
        assert(links.take(i) =~= links);
        assert(probes.take(i) =~= probes);
    } else {
        assert(links.take(i + 1).drop_last() =~= links.take(i));
        assert(probes.take(i + 1).drop_last() =~= probes.take(i));
        lemma_prep_links_error_extends(links, probes, ctx, dry_run, i + 1);
    }
}

proof fn lemma_prep_roots_error_extends(
    sets: Seq<SkillsSet>,
    stats: Seq<RootStat>,
    ctx: ResolveContext,
    dry_run: bool,
    i: int,
)
    requires
        0 <= i <= sets.len(),
        stats.len() == sets.len(),
        spec_prep_roots(sets.take(i), stats.take(i), ctx, dry_run) is Err,
    ensures
        spec_prep_roots(sets, stats, ctx, dry_run) == spec_prep_roots(
            sets.take(i),
            stats.take(i),
            ctx,
            dry_run,
        ),
    decreases sets.len() - i,
{
    if i == sets.len() {
        assert(sets.take(i) =~= sets);
        assert(stats.take(i) =~= stats);
    } else {
        assert(sets.take(i + 1).drop_last() =~= sets.take(i));
        assert(stats.take(i + 1).drop_last() =~= stats.take(i));
        lemma_prep_roots_error_extends(sets, stats, ctx, dry_run, i + 1);
    }
}

/// The writes the link rules need, as executable code.
fn prep_links_exec(
    links: &Vec<LinkRule>,
    probes: &Vec<SourceProbe>,
    ctx: &ResolveContext,
    dry_run: bool,
) -> (r: Result<Vec<PrepAction>, Message>)
    requires
        probes@.len() == links@.len(),
    ensures
        (r is Ok) == (spec_prep_links(links@, probes@, *ctx, dry_run) is Ok),
        r matches Ok(acts) ==> spec_prep_links(links@, probes@, *ctx, dry_run) == Ok::<
            Seq<PrepStep>,
            Message,
        >(acts@.map_values(|a: PrepAction| a@)),
        r matches Err(m) ==> spec_prep_links(links@, probes@, *ctx, dry_run) == Err::<
            Seq<PrepStep>,
            Message,
        >(m),
{
    let mut acts: Vec<PrepAction> = Vec::new();
    let mut i: usize = 0;
    proof {
        assert(links@.take(0) =~= Seq::<LinkRule>::empty());
        assert(acts@.map_values(|a: PrepAction| a@) =~= Seq::<PrepStep>::empty());
    }
    while i < links.len()
        invariant
            i <= links.len(),
            probes@.len() == links@.len(),
            spec_prep_links(links@.take(i as int), probes@.take(i as int), *ctx, dry_run) == Ok::<
                Seq<PrepStep>,
                Message,
            >(acts@.map_values(|a: PrepAction| a@)),
        decreases links.len() - i,
    {
        proof {
            assert(links@.take(i + 1).drop_last() =~= links@.take(i as int));
            assert(probes@.take(i + 1).drop_last() =~= probes@.take(i as int));
            assert(links@.take(i + 1).last() == links@[i as int]);
            assert(probes@.take(i + 1).last() == probes@[i as int]);
        }
        let ghost pre = acts@.map_values(|a: PrepAction| a@);
        let probe = &probes[i];
        if probe.exists {
            match &probe.meta {
                MetaProbe::Missing(e) => {
                    proof {
                        lemma_prep_links_error_extends(links@, probes@, *ctx, dry_run, i + 1);
                    }
                    return Err(Message::BootstrapSourceInspectFailed(e.clone()));
                },
                MetaProbe::Denied(e) => {
                    proof {
                        lemma_prep_links_error_extends(links@, probes@, *ctx, dry_run, i + 1);
                    }
                    return Err(Message::BootstrapSourceInspectFailed(e.clone()));
                },
                MetaProbe::Present(m) => {
                    if m.kind != FileKind::Regular {
                        proof {
                            lemma_prep_links_error_extends(links@, probes@, *ctx, dry_run, i + 1);
                        }
                        return Err(Message::BootstrapSourceNotRegular(links[i].source.clone()));
                    }
                    proof {
                        assert(pre + Seq::<PrepStep>::empty() =~= pre);
                    }
                },
            }
        } else if dry_run {
            proof {
                assert(pre + Seq::<PrepStep>::empty() =~= pre);
            }
        } else {
            let path = resolve_path(links[i].source.as_str(), ctx);
            acts.push(PrepAction::WriteSourceFile { path });
            proof {
                assert(acts@.map_values(|a: PrepAction| a@) =~= pre + seq![
                    PrepStep::WriteSource(spec_resolve(links@[i as int].source@, *ctx)),
                ]);
            }
        }
        i = i + 1;
    }
    proof {
        assert(links@.take(links@.len() as int) =~= links@);
        assert(probes@.take(links@.len() as int) =~= probes@);
    }
    Ok(acts)
}

/// The directory creations the skills sets need, as executable code.
fn prep_roots_exec(
    sets: &Vec<SkillsSet>,
    stats: &Vec<RootStat>,
    ctx: &ResolveContext,
    dry_run: bool,
) -> (r: Result<Vec<PrepAction>, Message>)
    requires
        stats@.len() == sets@.len(),
    ensures
        (r is Ok) == (spec_prep_roots(sets@, stats@, *ctx, dry_run) is Ok),
        r matches Ok(acts) ==> spec_prep_roots(sets@, stats@, *ctx, dry_run) == Ok::<
            Seq<PrepStep>,
            Message,
        >(acts@.map_values(|a: PrepAction| a@)),
        r matches Err(m) ==> spec_prep_roots(sets@, stats@, *ctx, dry_run) == Err::<
            Seq<PrepStep>,
            Message,
        >(m),
{
    let mut acts: Vec<PrepAction> = Vec::new();
    let mut i: usize = 0;
    proof {
        assert(sets@.take(0) =~= Seq::<SkillsSet>::empty());
        assert(acts@.map_values(|a: PrepAction| a@) =~= Seq::<PrepStep>::empty());
    }
    while i < sets.len()
        invariant
            i <= sets.len(),
            stats@.len() == sets@.len(),
            spec_prep_roots(sets@.take(i as int), stats@.take(i as int), *ctx, dry_run) == Ok::<
                Seq<PrepStep>,
                Message,
            >(acts@.map_values(|a: PrepAction| a@)),
        decreases sets.len() - i,
    {
        proof {
            assert(sets@.take(i + 1).drop_last() =~= sets@.take(i as int));
            assert(stats@.take(i + 1).drop_last() =~= stats@.take(i as int));
            assert(sets@.take(i + 1).last() == sets@[i as int]);
            assert(stats@.take(i + 1).last() == stats@[i as int]);
        }
        let ghost pre = acts@.map_values(|a: PrepAction| a@);
        let stat = &stats[i];
        if stat.exists {
            if !stat.is_dir {
                proof {
                    lemma_prep_roots_error_extends(sets@, stats@, *ctx, dry_run, i + 1);
                }
                return Err(Message::BootstrapRootNotDirectory(sets[i].source_root.clone()));
            }
            proof {
                assert(pre + Seq::<PrepStep>::empty() =~= pre);
            }
        } else if dry_run {
            proof {
                assert(pre + Seq::<PrepStep>::empty() =~= pre);
            }
        } else {
            let path = resolve_path(sets[i].source_root.as_str(), ctx);
            acts.push(PrepAction::CreateSkillsRoot { path });
            proof {
                assert(acts@.map_values(|a: PrepAction| a@) =~= pre + seq![
                    PrepStep::CreateRoot(spec_resolve(sets@[i as int].source_root@, *ctx)),
                ]);
            }
        }
        i = i + 1;
    }
    proof {
        assert(sets@.take(sets@.len() as int) =~= sets@);
        assert(stats@.take(sets@.len() as int) =~= stats@);
    }
    Ok(acts)
}

/// Everything bootstrap must create before linking, as executable code:
/// missing source files to write (with the template contents) and missing
/// skills roots to create — or the first configuration error found. Dry runs
/// plan no writes.
pub fn prepare_bootstrap_sources(
    config: &ConfigFile,
    ctx: &ResolveContext,
    link_probes: &Vec<SourceProbe>,
    root_stats: &Vec<RootStat>,
    dry_run: bool,
) -> (r: Result<Vec<PrepAction>, Message>)
    requires
        link_probes@.len() == config.links@.len(),
        root_stats@.len() == config.skills_sets@.len(),
    ensures
        (r is Ok) == (spec_prepare_bootstrap(*config, link_probes@, root_stats@, *ctx, dry_run)
            is Ok),
        r matches Ok(acts) ==> spec_prepare_bootstrap(
            *config,
            link_probes@,
            root_stats@,
            *ctx,
            dry_run,
        ) == Ok::<Seq<PrepStep>, Message>(acts@.map_values(|a: PrepAction| a@)),
        r matches Err(m) ==> spec_prepare_bootstrap(
            *config,
            link_probes@,
            root_stats@,
            *ctx,
            dry_run,
        ) == Err::<Seq<PrepStep>, Message>(m),
{
    let mut acts = match prep_links_exec(&config.links, link_probes, ctx, dry_run) {
        Ok(a) => a,
        Err(m) => {
            return Err(m);
        },
    };
    let mut more = match prep_roots_exec(&config.skills_sets, root_stats, ctx, dry_run) {
        Ok(b) => b,
        Err(m) => {
            return Err(m);
        },
    };
    let ghost a_steps = acts@.map_values(|a: PrepAction| a@);
    let ghost b_steps = more@.map_values(|a: PrepAction| a@);
    acts.append(&mut more);
    proof {
        assert(acts@.map_values(|a: PrepAction| a@) =~= a_steps + b_steps);
    }
    Ok(acts)
}

} // verus!
