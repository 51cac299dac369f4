//! The commands polyws understands. The argument parser itself lives with
//! the program; these are the values it produces.
use vstd::prelude::*;

verus! {

/// The parsed command line: a sub-command, or none for the interactive UI.
#[derive(Debug, Clone)]
pub struct Cli {
    pub command: Option<Commands>,
}

/// The sub-commands.
#[derive(Debug, Clone)]
pub enum Commands {
    /// Initialize a new workspace in the current directory.
    Init,
    /// Add a project repository to the workspace.
    Add {
        name: String,
        path: Option<String>,
        url: String,
        branch: String,
        depends_on: Vec<String>,
        sync_url: Option<String>,
    },
    /// Remove a project from the workspace config.
    Remove { name: String },
    /// List all projects in the workspace.
    List,
    /// Clone missing repos and pull existing ones.
    Pull { name: Option<String>, force: bool },
    /// Clone workspace repositories (alias for pull).
    Clone { name: Option<String>, force: bool },
    /// Push local commits to origin.
    Push { name: Option<String> },
    /// Show git status of all repositories.
    Status,
    /// Execute a shell command across all repositories.
    Exec { cmd: String },
    /// Visualise the project dependency graph.
    Graph,
    /// Manage workspace snapshots.
    Snapshot { action: SnapshotAction },
    /// Validate the development environment.
    Doctor,
    /// Repair a broken workspace.
    Repair,
    /// Run doctor then pull all repos.
    Bootstrap,
    /// Manage the mirror-sync daemon.
    Sync { action: SyncAction },
    /// Manage the remote development VM.
    Vm { action: VmAction },
    /// Update polyws to the latest release.
    Update,
    /// The sync daemon loop (started by `sync start`).
    SyncDaemon,
}

/// The snapshot sub-commands.
#[derive(Debug, Clone)]
pub enum SnapshotAction {
    /// Capture the current commit of every repository.
    Create,
    /// Restore repositories to a saved snapshot.
    Restore { file: String, dry_run: bool, yes: bool },
    /// List available snapshots.
    List,
}

/// The mirror-sync sub-commands.
#[derive(Debug, Clone, Copy, PartialEq, Eq, Structural)]
pub enum SyncAction {
    Start,
    Stop,
    Status,
    Now,
}

/// The VM sub-commands.
#[derive(Debug, Clone)]
pub enum VmAction {
    Doctor,
    Setup,
    SyncStart,
    SyncStop,
    Exec { cmd: String },
    Shell,
    Reset,
}

/// The branch `add` uses when none is given.
pub fn default_add_branch() -> (r: &'static str)
    ensures
        r@ == "main"@,
{
    "main"
}

} // verus!
