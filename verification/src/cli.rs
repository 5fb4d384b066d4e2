//! Invocation data: the configuration path, global flags and the requested
//! command. The surrounding binary parses its arguments into these types.

use vstd::prelude::*;

verus! {

/// Vendor profile selectable when generating an initial configuration.
#[derive(Clone, Copy, PartialEq, Eq, Hash, Structural, Debug)]
pub enum Profile {
    Codex,
    Claude,
    Gemini,
    Copilot,
}

/// The requested command with its flags. Optional paths are absolute.
pub enum Command {
    /// Generate an initial configuration file.
    Init { force: bool, profiles: Vec<Profile> },
    /// Create or update hardlinks.
    Link {
        only_missing: bool,
        force: bool,
        dry_run: bool,
        json: bool,
        backup_dir: Option<String>,
    },
    /// Verify link integrity.
    Verify { json: bool },
    /// Repair missing or broken links.
    Repair { force: bool, dry_run: bool, json: bool, backup_dir: Option<String> },
    /// Print a short status summary.
    Status { json: bool },
    /// One-tap setup for common vendor paths.
    Bootstrap {
        force: bool,
        dry_run: bool,
        json: bool,
        write_config: bool,
        backup_dir: Option<String>,
    },
    /// Install a commit-msg hook that strips AI attribution trailers.
    InstallCommitGuard { repo: String, force: bool, dry_run: bool },
}

/// One invocation: configuration file path, verbosity and the command.
pub struct Cli {
    pub config: String,
    pub verbose: bool,
    pub command: Command,
}

/// Whether the command produces one record per mapping (and so a report).
pub open spec fn produces_records(c: Command) -> bool {
    !(c is Init) && !(c is InstallCommitGuard)
}

/// The name under which a command reports.
pub open spec fn spec_command_name(c: Command) -> Seq<char> {
    match c {
        Command::Init { .. } => "init"@,
        Command::Link { .. } => "link"@,
        Command::Verify { .. } => "verify"@,
        Command::Repair { .. } => "repair"@,
        Command::Status { .. } => "status"@,
        Command::Bootstrap { .. } => "bootstrap"@,
        Command::InstallCommitGuard { .. } => "install-commit-guard"@,
    }
}

/// Whether the command's exit code reports benign inconsistencies as 1.
/// Mutating commands report only errors; inspecting and repairing ones also
/// report what is left inconsistent.
pub open spec fn counts_inconsistency(c: Command) -> bool {
    c is Verify || c is Repair || c is Status
}

/// Exit-code flavour of the command, as executable code.
pub fn command_counts_inconsistency(c: &Command) -> (r: bool)
    ensures
        r == counts_inconsistency(*c),
{
    match c {
        Command::Verify { .. } => true,
        Command::Repair { .. } => true,
        Command::Status { .. } => true,
        _ => false,
    }
}

/// The command's reporting name, as executable code.
pub fn command_name(c: &Command) -> (r: String)
    ensures
        r@ == spec_command_name(*c),
{
    match c {
        Command::Init { .. } => "init".to_owned(),
        Command::Link { .. } => "link".to_owned(),
        Command::Verify { .. } => "verify".to_owned(),
        Command::Repair { .. } => "repair".to_owned(),
        Command::Status { .. } => "status".to_owned(),
        Command::Bootstrap { .. } => "bootstrap".to_owned(),
        Command::InstallCommitGuard { .. } => "install-commit-guard".to_owned(),
    }
}

} // verus!
