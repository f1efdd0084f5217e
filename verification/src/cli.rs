//! The commands and their arguments.
use vstd::prelude::*;
use vstd::string::*;

verus! {

/// A subcommand.
#[derive(Debug)]
pub enum Command {
    /// Clone a repository and put it on the shelf.
    Clone(CloneArgs),
    /// Create a repository on GitHub, clone it and scaffold it.
    New(NewArgs),
    /// List the shelf.
    List(ListArgs),
    /// Print a repository's path.
    Cd(CdArgs),
    /// Run a command in every repository.
    Exec(ExecArgs),
    /// Drop rows whose checkout is gone.
    Prune(PruneArgs),
    /// Delete a checkout and drop its row.
    Rm(RmArgs),
    /// Put existing checkouts on the shelf.
    Import(ImportArgs),
    /// Write the shelf somewhere.
    Export(ExportArgs),
    /// Change tags.
    Tag(TagCommand),
    /// Change a repository's settings.
    Assign(SetArgs),
    /// Change a repository's note.
    Note(NoteArgs),
    /// Report on the environment.
    Doctor,
    /// Show the dashboard.
    Tui(TuiArgs),
    /// Print a completion script.
    Completion(CompletionArgs),
    /// Print a shell function.
    InitShell(InitShellArgs),
    /// Work on the cache.
    Cache(CacheCommand),
    /// Replace the program by its latest release.
    SelfUpdate(SelfUpdateArgs),
}

#[derive(Debug)]
pub struct SelfUpdateArgs {
    pub yes: bool,
    pub check: bool,
}

#[derive(Debug)]
pub enum CacheCommand {
    Refresh { force: bool, tags: Vec<String>, background: bool },
    Show,
    Clear,
}

#[derive(Debug)]
pub struct CloneArgs {
    pub url: Option<String>,
}

#[derive(Debug)]
pub struct NewArgs {
    pub spec: Option<String>,
    pub private: bool,
    pub description: Option<String>,
    pub preset: Option<String>,
    pub no_kata: bool,
}

#[derive(Debug)]
pub struct ListArgs {
    pub tags: Vec<String>,
    pub has_agents: bool,
}

#[derive(Debug)]
pub struct CdArgs {
    pub repo: Option<String>,
    pub tags: Vec<String>,
}

#[derive(Debug)]
pub struct ExecArgs {
    pub tags: Vec<String>,
    pub filter: Option<String>,
    pub cmd: Vec<String>,
}

#[derive(Debug)]
pub struct PruneArgs {
    pub dry_run: bool,
    pub yes: bool,
}

#[derive(Debug)]
pub struct RmArgs {
    pub repo: Option<String>,
    pub tags: Vec<String>,
    pub dry_run: bool,
    pub yes: bool,
    pub force: bool,
    pub keep_files: bool,
}

#[derive(Debug)]
pub struct ImportArgs {
    pub path: Option<String>,
}

#[derive(Debug)]
pub struct ExportArgs {
    pub path: Option<String>,
}

#[derive(Debug)]
pub enum TagCommand {
    Add { repo: Option<String>, tags: Vec<String> },
    Rm { repo: Option<String>, tags: Vec<String> },
    Ls { repo: Option<String> },
    Who { tag: Option<String> },
}

#[derive(Debug)]
pub struct SetArgs {
    pub repo: Option<String>,
    pub vcs: Option<VcsKind>,
}

#[derive(Debug, Clone, Copy, PartialEq, Eq, Structural)]
pub enum VcsKind {
    Auto,
    Git,
    Jj,
}

#[derive(Debug)]
pub struct NoteArgs {
    pub repo: Option<String>,
    pub text: Option<String>,
    pub clear: bool,
}

#[derive(Debug)]
pub struct TuiArgs {
    pub tags: Vec<String>,
}

/// A shell that completion scripts are made for.
#[derive(Debug, Clone, Copy, PartialEq, Eq, Structural)]
pub enum CompletionShell {
    Bash,
    Elvish,
    Fish,
    PowerShell,
    Zsh,
}

#[derive(Debug)]
pub struct CompletionArgs {
    pub shell: CompletionShell,
}

#[derive(Debug)]
pub struct InitShellArgs {
    pub shell: SupportedShell,
    pub name: String,
}

/// A shell that the wrapper function is made for.
#[derive(Debug, Clone, Copy, PartialEq, Eq, Structural)]
pub enum SupportedShell {
    Powershell,
    Bash,
    Zsh,
    Fish,
}

} // verus!
