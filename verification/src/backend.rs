//! The vocabulary of backend operations the core decides on, and the shape
//! of a backend reply. The core never runs an operation itself: it hands
//! `GitOp` values out and receives `GitOutcome` values back, so every
//! decision stays inside verified code.

use vstd::prelude::*;

verus! {

/// One version-control operation, with structured arguments. Rendering an
/// operation into an argument vector and running it is the caller's
/// business.
#[derive(Debug)]
pub enum GitOp {
    /// Switch the working tree to a branch.
    Switch { branch: String },
    /// Update a branch from its upstream counterpart.
    Pull { branch: String },
    /// Compute the lowest common ancestor of two branches.
    MergeBase { to: String, from: String },
    /// List the commits reachable from `tip` but not from `base`.
    RevList { base: String, tip: String },
    /// Check whether a local branch of this name exists.
    CheckBranchExists { branch: String },
    /// Create a branch at the given starting reference and switch to it.
    CreateBranch { branch: String, start: String },
    /// Squash-merge the target reference, resolving every path conflict in
    /// favour of the incoming side.
    SquashMergeTheirs { target: String },
    /// Commit the staged changeset with this message.
    Commit { message: String },
    /// Reset the index to the current head, leaving the working tree as it
    /// is.
    UnstageAll,
    /// Show the staged changeset.
    DiffCached,
    /// Restore every tracked file in the working tree to the current head.
    RestoreWorktree,
    /// Remove untracked files and directories.
    CleanUntracked,
    /// Diff summary between the current head and a branch tip.
    DiffStat { branch: String },
    /// Names of the files differing between the current head and a branch
    /// tip.
    DiffNameOnly { branch: String },
    /// Name of the currently checked-out branch.
    CurrentBranch,
    /// Porcelain status of the working tree.
    WorktreeStatus,
}

/// The mathematical shadow of a [`GitOp`]: the same operation over
/// character sequences.
pub enum GitOpV {
    Switch { branch: Seq<char> },
    Pull { branch: Seq<char> },
    MergeBase { to: Seq<char>, from: Seq<char> },
    RevList { base: Seq<char>, tip: Seq<char> },
    CheckBranchExists { branch: Seq<char> },
    CreateBranch { branch: Seq<char>, start: Seq<char> },
    SquashMergeTheirs { target: Seq<char> },
    Commit { message: Seq<char> },
    UnstageAll,
    DiffCached,
    RestoreWorktree,
    CleanUntracked,
    DiffStat { branch: Seq<char> },
    DiffNameOnly { branch: Seq<char> },
    CurrentBranch,
    WorktreeStatus,
}

impl View for GitOp {
    type V = GitOpV;

    open spec fn view(&self) -> GitOpV {
        match self {
            GitOp::Switch { branch } => GitOpV::Switch { branch: branch@ },
            GitOp::Pull { branch } => GitOpV::Pull { branch: branch@ },
            GitOp::MergeBase { to, from } => GitOpV::MergeBase { to: to@, from: from@ },
            GitOp::RevList { base, tip } => GitOpV::RevList { base: base@, tip: tip@ },
            GitOp::CheckBranchExists { branch } => GitOpV::CheckBranchExists { branch: branch@ },
            GitOp::CreateBranch { branch, start } => GitOpV::CreateBranch {
                branch: branch@,
                start: start@,
            },
            GitOp::SquashMergeTheirs { target } => GitOpV::SquashMergeTheirs { target: target@ },
            GitOp::Commit { message } => GitOpV::Commit { message: message@ },
            GitOp::UnstageAll => GitOpV::UnstageAll,
            GitOp::DiffCached => GitOpV::DiffCached,
            GitOp::RestoreWorktree => GitOpV::RestoreWorktree,
            GitOp::CleanUntracked => GitOpV::CleanUntracked,
            GitOp::DiffStat { branch } => GitOpV::DiffStat { branch: branch@ },
            GitOp::DiffNameOnly { branch } => GitOpV::DiffNameOnly { branch: branch@ },
            GitOp::CurrentBranch => GitOpV::CurrentBranch,
            GitOp::WorktreeStatus => GitOpV::WorktreeStatus,
        }
    }
}

impl DeepView for GitOp {
    type V = GitOpV;

    open spec fn deep_view(&self) -> GitOpV {
        self.view()
    }
}

/// What came back from running one operation: whether the subprocess
/// reported success, and its captured standard output.
pub struct GitOutcome {
    pub success: bool,
    pub stdout: String,
}

/// The mathematical shadow of a [`GitOutcome`].
pub struct GitOutcomeV {
    pub success: bool,
    pub stdout: Seq<char>,
}

impl View for GitOutcome {
    type V = GitOutcomeV;

    open spec fn view(&self) -> GitOutcomeV {
        GitOutcomeV { success: self.success, stdout: self.stdout@ }
    }
}

impl GitOutcome {
    /// A placeholder reply for the first step of a plan, which no operation
    /// precedes.
    pub fn initial() -> (r: GitOutcome)
        ensures
            r@.success == true,
            r@.stdout.len() == 0,
    {
        GitOutcome { success: true, stdout: String::new() }
    }
}

} // verus!
