//! The approval step: commit whatever is currently staged as one approved
//! commit, then discard everything else, restoring a clean working tree.

use crate::backend::GitOp;
use crate::backend::GitOpV;
use vstd::prelude::*;
use vstd::string::StringExecFns;

verus! {

/// How an approval round ended: something was committed, or the staged
/// changeset was empty and the round ended with zero approvals. The second
/// is a normal outcome, not an error.
#[derive(Clone, Copy, PartialEq, Eq, Structural, Debug)]
pub enum ApproveOutcome {
    Approved,
    NothingToApprove,
}

/// The operations an approval runs after inspecting the staged changeset,
/// and the outcome it reports.
pub struct ApprovePlan {
    pub ops: Vec<GitOp>,
    pub outcome: ApproveOutcome,
}

/// The operations an approval runs: a commit only when something is
/// staged, then, unconditionally, the discard of unstaged modifications
/// and of untracked files.
pub open spec fn spec_approve_ops(has_staged: bool) -> Seq<GitOpV> {
    if has_staged {
        seq![
            GitOpV::Commit { message: "Approve reviewed changes"@ },
            GitOpV::RestoreWorktree,
            GitOpV::CleanUntracked,
        ]
    } else {
        seq![GitOpV::RestoreWorktree, GitOpV::CleanUntracked]
    }
}

/// Decide an approval round from the staged changeset the backend reported:
/// commit it as the approved commit when it is non-empty, then discard all
/// unstaged modifications and untracked files either way. The outcome is
/// `Approved` exactly when the staged changeset was non-empty immediately
/// before.
pub fn approve_changes(staged_diff: &str) -> (r: ApprovePlan)
    ensures
        r.outcome == (if staged_diff@.len() > 0 {
            ApproveOutcome::Approved
        } else {
            ApproveOutcome::NothingToApprove
        }),
        r.ops.deep_view() == spec_approve_ops(staged_diff@.len() > 0),
{
    let has_staged = staged_diff.unicode_len() > 0;
    let mut ops: Vec<GitOp> = Vec::new();
    if has_staged {
        ops.push(GitOp::Commit { message: String::from_str("Approve reviewed changes") });
    }
    ops.push(GitOp::RestoreWorktree);
    ops.push(GitOp::CleanUntracked);
    proof {
        assert(ops.deep_view() =~= spec_approve_ops(has_staged));
    }
    ApprovePlan {
        ops,
        outcome: if has_staged {
            ApproveOutcome::Approved
        } else {
            ApproveOutcome::NothingToApprove
        },
    }
}

} // verus!
