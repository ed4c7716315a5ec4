//! The command-line arguments of a sweep, as plain values.

use vstd::prelude::*;

verus! {

/// The arguments of a sweep (see the README's usage). Paths are held as
/// their text; durations as whole seconds.
#[derive(Debug)]
pub struct SweepArgs {
    /// Git repository paths to inspect.
    pub paths: Vec<String>,
    /// Recursively discover Git repositories below each path.
    pub recursive: bool,
    /// Include hidden directories during recursive discovery.
    pub hidden: bool,
    /// Select worktrees whose local branch tracks a gone upstream.
    pub gone: bool,
    /// Select worktrees whose HEAD is merged into the merge base.
    pub merged: bool,
    /// Select worktrees merged into this ref.
    pub merged_to: Option<String>,
    /// Select worktrees whose latest filesystem mtime is older than this
    /// many seconds.
    pub older_than: Option<u64>,
    /// Keep only worktrees whose branch matches one of these globs.
    pub branch_globs: Vec<String>,
    /// Exclude worktrees whose branch matches one of these globs.
    pub exclude_branch_globs: Vec<String>,
    /// Keep only worktrees whose path or basename matches one of these globs.
    pub path_globs: Vec<String>,
    /// Exclude worktrees whose path or basename matches one of these globs.
    pub exclude_path_globs: Vec<String>,
    /// Select all worktrees before safety checks, then apply filters.
    pub all: bool,
    /// Actually remove matched worktrees.
    pub force: bool,
    /// Allow dirty worktrees to be removed when `force` is also set.
    pub force_with_dirty: bool,
    /// Delete the local branch after a successful worktree removal.
    pub delete_branch: bool,
    /// Print a machine-readable JSON report.
    pub json: bool,
    /// Print summaries and detailed errors.
    pub verbose: bool,
}

/// The command line: the sweep's options and paths, given directly.
pub type Cli = SweepArgs;

/// The command line's subcommands.
#[derive(Debug)]
pub enum CliCommand {
    /// Find and remove Git worktrees that match cleanup selectors.
    Sweep(SweepArgs),
}

/// The arguments of a command line that names nothing: no path, no
/// selector, no filter, every flag off.
pub open spec fn is_default_args(a: SweepArgs) -> bool {
    &&& a.paths@.len() == 0
    &&& !a.recursive
    &&& !a.hidden
    &&& !a.gone
    &&& !a.merged
    &&& a.merged_to is None
    &&& a.older_than is None
    &&& a.branch_globs@.len() == 0
    &&& a.exclude_branch_globs@.len() == 0
    &&& a.path_globs@.len() == 0
    &&& a.exclude_path_globs@.len() == 0
    &&& !a.all
    &&& !a.force
    &&& !a.force_with_dirty
    &&& !a.delete_branch
    &&& !a.json
    &&& !a.verbose
}

/// The arguments of an empty command line.
pub fn default_args() -> (a: SweepArgs)
    ensures
        is_default_args(a),
{
    SweepArgs {
        paths: Vec::new(),
        recursive: false,
        hidden: false,
        gone: false,
        merged: false,
        merged_to: None,
        older_than: None,
        branch_globs: Vec::new(),
        exclude_branch_globs: Vec::new(),
        path_globs: Vec::new(),
        exclude_path_globs: Vec::new(),
        all: false,
        force: false,
        force_with_dirty: false,
        delete_branch: false,
        json: false,
        verbose: false,
    }
}

} // verus!
