//! The review branch controller: a state machine that prepares (or
//! re-synchronizes) the review branch for a (target, source) pair. Each
//! step consumes the reply to the operation in flight and decides the next
//! operation, so that every decision of the preparation sequence is made in
//! verified code; the caller only runs the operations and feeds the replies
//! back.
//!
//! The sequence mirrors the review workflow: synchronize both branches,
//! compute the base (their lowest common ancestor), list and validate the
//! commit range, ensure the review branch, auto-approve everything before a
//! skip-to boundary, squash-merge the effective end of review, and unstage
//! the result so it shows as an ordinary working-tree diff.

use crate::backend::GitOp;
use crate::backend::GitOpV;
use crate::backend::GitOutcome;
use crate::backend::GitOutcomeV;
use crate::range;
use crate::session;
use crate::text;
use vstd::prelude::*;
use vstd::pervasive::unreached;
use vstd::string::StrSliceExecFns;
use vstd::string::StringExecFns;

verus! {

/// Where the preparation stands: which reply the next step expects.
#[derive(Clone, Copy, PartialEq, Eq, Structural, Debug)]
pub enum Phase {
    /// Nothing issued yet.
    Start,
    /// Switching to the source branch.
    SwitchingSource,
    /// Pulling the source branch from its upstream.
    PullingSource,
    /// Switching to the target branch.
    SwitchingTarget,
    /// Pulling the target branch from its upstream.
    PullingTarget,
    /// Computing the lowest common ancestor of target and source.
    ComputingBase,
    /// Listing the valid commit range (base to source tip).
    ListingRange,
    /// Listing the commits strictly after the skip-to boundary.
    ListingAfterSkip,
    /// Checking whether the review branch already exists.
    CheckingBranch,
    /// Switching to, or creating, the review branch.
    EnteringBranch,
    /// Listing the commits between the base and the skip-to boundary's
    /// parent.
    ListingEarlier,
    /// Squash-merging the skip-to boundary's parent.
    MergingEarlier,
    /// Committing the auto-approved merge.
    CommittingEarlier,
    /// Squash-merging the effective end of review.
    MergingRest,
    /// Resetting the index so the merge shows as an unstaged diff.
    Unstaging,
    /// The review branch is prepared.
    Finished,
    /// A boundary failed validation.
    Failed,
}

/// A fatal boundary validation failure, naming the offending reference.
#[derive(Debug)]
pub enum ReviewError {
    /// The reference matches nothing in the valid commit range between the
    /// two branches.
    NotInRange { reference: String, to: String, from: String },
    /// The stop-at boundary is not at or after the skip-to boundary.
    OutOfOrder { stop_at: String, skip_to: String },
}

/// The mathematical shadow of a [`ReviewError`].
pub enum ReviewErrorV {
    NotInRange { reference: Seq<char>, to: Seq<char>, from: Seq<char> },
    OutOfOrder { stop_at: Seq<char>, skip_to: Seq<char> },
}

impl View for ReviewError {
    type V = ReviewErrorV;

    open spec fn view(&self) -> ReviewErrorV {
        match self {
            ReviewError::NotInRange { reference, to, from } => ReviewErrorV::NotInRange {
                reference: reference@,
                to: to@,
                from: from@,
            },
            ReviewError::OutOfOrder { stop_at, skip_to } => ReviewErrorV::OutOfOrder {
                stop_at: stop_at@,
                skip_to: skip_to@,
            },
        }
    }
}

/// What the controller asks of its caller next.
#[derive(Debug)]
pub enum Step {
    /// Run this operation and hand its outcome to the next step. An
    /// operation marked `may_fail` answers a question by its exit status,
    /// so a non-zero exit is an answer, not a fatal backend error.
    Run { op: GitOp, may_fail: bool },
    /// A boundary failed validation; the run is over and nothing further
    /// is attempted.
    Fail { error: ReviewError },
    /// The review branch is prepared; what remains to review stands in the
    /// working tree.
    Done,
}

/// The mathematical shadow of a [`Step`].
pub enum StepV {
    Run { op: GitOpV, may_fail: bool },
    Fail { error: ReviewErrorV },
    Done,
}

impl View for Step {
    type V = StepV;

    open spec fn view(&self) -> StepV {
        match self {
            Step::Run { op, may_fail } => StepV::Run { op: op@, may_fail: *may_fail },
            Step::Fail { error } => StepV::Fail { error: error@ },
            Step::Done => StepV::Done,
        }
    }
}

/// The controller's state: the session's arguments, what it has learned
/// from the backend so far, and the phase.
pub struct ReviewPrep {
    pub to: String,
    pub from: String,
    pub skip_to: Option<String>,
    pub stop_at: Option<String>,
    pub merge_base: String,
    pub valid_hashes: Vec<String>,
    pub phase: Phase,
}

/// The mathematical shadow of a [`ReviewPrep`].
#[verifier::ext_equal]
pub struct ReviewPrepV {
    pub to: Seq<char>,
    pub from: Seq<char>,
    pub skip_to: Option<Seq<char>>,
    pub stop_at: Option<Seq<char>>,
    pub merge_base: Seq<char>,
    pub valid_hashes: Seq<Seq<char>>,
    pub phase: Phase,
}

impl View for ReviewPrep {
    type V = ReviewPrepV;

    open spec fn view(&self) -> ReviewPrepV {
        ReviewPrepV {
            to: self.to@,
            from: self.from@,
            skip_to: match self.skip_to {
                Some(s) => Some(s@),
                None => None,
            },
            stop_at: match self.stop_at {
                Some(s) => Some(s@),
                None => None,
            },
            merge_base: self.merge_base@,
            valid_hashes: self.valid_hashes.deep_view(),
            phase: self.phase,
        }
    }
}

/// The reference whose parent bounds the auto-approved commits.
pub open spec fn spec_parent(reference: Seq<char>) -> Seq<char> {
    reference + "^"@
}

/// The effective end of review: the stop-at boundary when one was given,
/// the source tip otherwise.
pub open spec fn spec_end_ref(m: ReviewPrepV) -> Seq<char> {
    match m.stop_at {
        Some(t) => t,
        None => m.from,
    }
}

/// The phases that speak of a boundary hold one: what the controller's
/// state can look like.
pub open spec fn prep_wf(m: ReviewPrepV) -> bool {
    &&& (m.phase == Phase::ListingAfterSkip ==> m.skip_to is Some && m.stop_at is Some)
    &&& (m.phase == Phase::ListingEarlier ==> m.skip_to is Some)
    &&& (m.phase == Phase::MergingEarlier ==> m.skip_to is Some)
}

/// The controller's starting state for the given session arguments.
pub open spec fn prep_init(
    to: Seq<char>,
    from: Seq<char>,
    skip_to: Option<Seq<char>>,
    stop_at: Option<Seq<char>>,
) -> ReviewPrepV {
    ReviewPrepV {
        to,
        from,
        skip_to,
        stop_at,
        merge_base: Seq::<char>::empty(),
        valid_hashes: Seq::<Seq<char>>::empty(),
        phase: Phase::Start,
    }
}

/// One transition of the controller: from the current state and the reply
/// to the operation in flight, the next state and the next directive. This
/// relation is the whole of the preparation sequence; the executable
/// controller implements exactly it.
pub open spec fn spec_step(m: ReviewPrepV, o: GitOutcomeV) -> (ReviewPrepV, StepV) {
    match m.phase {
        Phase::Start => (
            ReviewPrepV { phase: Phase::SwitchingSource, ..m },
            StepV::Run { op: GitOpV::Switch { branch: m.from }, may_fail: false },
        ),
        Phase::SwitchingSource => (
            ReviewPrepV { phase: Phase::PullingSource, ..m },
            StepV::Run { op: GitOpV::Pull { branch: m.from }, may_fail: false },
        ),
        Phase::PullingSource => (
            ReviewPrepV { phase: Phase::SwitchingTarget, ..m },
            StepV::Run { op: GitOpV::Switch { branch: m.to }, may_fail: false },
        ),
        Phase::SwitchingTarget => (
            ReviewPrepV { phase: Phase::PullingTarget, ..m },
            StepV::Run { op: GitOpV::Pull { branch: m.to }, may_fail: false },
        ),
        Phase::PullingTarget => (
            ReviewPrepV { phase: Phase::ComputingBase, ..m },
            StepV::Run { op: GitOpV::MergeBase { to: m.to, from: m.from }, may_fail: false },
        ),
        Phase::ComputingBase => {
            let base = text::spec_trim(o.stdout);
            (
                ReviewPrepV { phase: Phase::ListingRange, merge_base: base, ..m },
                StepV::Run { op: GitOpV::RevList { base, tip: m.from }, may_fail: false },
            )
        },
        Phase::ListingRange => {
            let hashes = text::spec_lines(o.stdout);
            let m2 = ReviewPrepV { valid_hashes: hashes, ..m };
            match (m.skip_to, m.stop_at) {
                (Some(skip), _) if !range::in_range(skip, hashes) => (
                    ReviewPrepV { phase: Phase::Failed, ..m2 },
                    StepV::Fail {
                        error: ReviewErrorV::NotInRange {
                            reference: skip,
                            to: m.to,
                            from: m.from,
                        },
                    },
                ),
                (_, Some(stop)) if !range::in_range(stop, hashes) => (
                    ReviewPrepV { phase: Phase::Failed, ..m2 },
                    StepV::Fail {
                        error: ReviewErrorV::NotInRange {
                            reference: stop,
                            to: m.to,
                            from: m.from,
                        },
                    },
                ),
                (Some(skip), Some(_)) => (
                    ReviewPrepV { phase: Phase::ListingAfterSkip, ..m2 },
                    StepV::Run {
                        op: GitOpV::RevList { base: skip, tip: m.from },
                        may_fail: false,
                    },
                ),
                _ => (
                    ReviewPrepV { phase: Phase::CheckingBranch, ..m2 },
                    StepV::Run {
                        op: GitOpV::CheckBranchExists {
                            branch: session::spec_review_branch_name(m.to, m.from),
                        },
                        may_fail: true,
                    },
                ),
            }
        },
        Phase::ListingAfterSkip => {
            let after = text::spec_lines(o.stdout);
            let skip = m.skip_to->0;
            let stop = m.stop_at->0;
            if !range::order_ok(stop, skip, after, m.valid_hashes) {
                (
                    ReviewPrepV { phase: Phase::Failed, ..m },
                    StepV::Fail { error: ReviewErrorV::OutOfOrder { stop_at: stop, skip_to: skip } },
                )
            } else {
                (
                    ReviewPrepV { phase: Phase::CheckingBranch, ..m },
                    StepV::Run {
                        op: GitOpV::CheckBranchExists {
                            branch: session::spec_review_branch_name(m.to, m.from),
                        },
                        may_fail: true,
                    },
                )
            }
        },
        Phase::CheckingBranch => {
            let name = session::spec_review_branch_name(m.to, m.from);
            if o.success {
                (
                    ReviewPrepV { phase: Phase::EnteringBranch, ..m },
                    StepV::Run { op: GitOpV::Switch { branch: name }, may_fail: false },
                )
            } else {
                (
                    ReviewPrepV { phase: Phase::EnteringBranch, ..m },
                    StepV::Run {
                        op: GitOpV::CreateBranch { branch: name, start: m.merge_base },
                        may_fail: false,
                    },
                )
            }
        },
        Phase::EnteringBranch => {
            match m.skip_to {
                Some(skip) => (
                    ReviewPrepV { phase: Phase::ListingEarlier, ..m },
                    StepV::Run {
                        op: GitOpV::RevList { base: m.merge_base, tip: spec_parent(skip) },
                        may_fail: true,
                    },
                ),
                None => (
                    ReviewPrepV { phase: Phase::MergingRest, ..m },
                    StepV::Run {
                        op: GitOpV::SquashMergeTheirs { target: spec_end_ref(m) },
                        may_fail: false,
                    },
                ),
            }
        },
        Phase::ListingEarlier => {
            if o.stdout.len() > 0 {
                (
                    ReviewPrepV { phase: Phase::MergingEarlier, ..m },
                    StepV::Run {
                        op: GitOpV::SquashMergeTheirs { target: spec_parent(m.skip_to->0) },
                        may_fail: false,
                    },
                )
            } else {
                (
                    ReviewPrepV { phase: Phase::MergingRest, ..m },
                    StepV::Run {
                        op: GitOpV::SquashMergeTheirs { target: spec_end_ref(m) },
                        may_fail: false,
                    },
                )
            }
        },
        Phase::MergingEarlier => (
            ReviewPrepV { phase: Phase::CommittingEarlier, ..m },
            StepV::Run {
                op: GitOpV::Commit { message: "Auto-approve earlier commits"@ },
                may_fail: false,
            },
        ),
        Phase::CommittingEarlier => (
            ReviewPrepV { phase: Phase::MergingRest, ..m },
            StepV::Run {
                op: GitOpV::SquashMergeTheirs { target: spec_end_ref(m) },
                may_fail: false,
            },
        ),
        Phase::MergingRest => (
            ReviewPrepV { phase: Phase::Unstaging, ..m },
            StepV::Run { op: GitOpV::UnstageAll, may_fail: false },
        ),
        Phase::Unstaging => (ReviewPrepV { phase: Phase::Finished, ..m }, StepV::Done),
        Phase::Finished => (m, StepV::Done),
        Phase::Failed => (m, StepV::Done),
    }
}

/// The controller's whole plan for a sequence of backend replies: the
/// directive of each step, in order.
pub open spec fn run_steps(m: ReviewPrepV, replies: Seq<GitOutcomeV>) -> Seq<StepV>
    decreases replies.len(),
{
    if replies.len() == 0 {
        Seq::<StepV>::empty()
    } else {
        let s = spec_step(m, replies[0]);
        seq![s.1] + run_steps(s.0, replies.drop_first())
    }
}

/// A step that presents the full diff: it fails no validation, commits
/// nothing, and any squash-merge it runs targets the source tip.
pub open spec fn full_diff_step(s: StepV, from: Seq<char>) -> bool {
    match s {
        StepV::Fail { .. } => false,
        StepV::Run { op, .. } => match op {
            GitOpV::Commit { .. } => false,
            GitOpV::SquashMergeTheirs { target } => target == from,
            _ => true,
        },
        StepV::Done => true,
    }
}

proof fn lemma_no_boundary_run(m: ReviewPrepV, replies: Seq<GitOutcomeV>)
    requires
        m.skip_to is None,
        m.stop_at is None,
        m.phase != Phase::ListingAfterSkip,
        m.phase != Phase::ListingEarlier,
        m.phase != Phase::MergingEarlier,
    ensures
        run_steps(m, replies).len() == replies.len(),
        forall|i: int|
            0 <= i < replies.len() ==> full_diff_step(
                #[trigger] run_steps(m, replies)[i],
                m.from,
            ),
    decreases replies.len(),
{
    if replies.len() > 0 {
        let s = spec_step(m, replies[0]);
        lemma_no_boundary_run(s.0, replies.drop_first());
        assert(run_steps(m, replies)[0] == s.1);
        assert forall|i: int| 1 <= i < replies.len() implies full_diff_step(
            #[trigger] run_steps(m, replies)[i],
            m.from,
        ) by {
            assert(run_steps(m, replies)[i] == run_steps(s.0, replies.drop_first())[i - 1]);
        }
    }
}

/// When no skip-to and no stop-at boundary is given, a review run stages
/// the full target-to-source diff: whatever the backend replies, the plan
/// never fails a validation, never commits anything into the review
/// branch, and every squash-merge it stages targets the source tip.
pub proof fn lemma_review_full_diff_without_boundaries(
    to: Seq<char>,
    from: Seq<char>,
    replies: Seq<GitOutcomeV>,
)
    ensures
        run_steps(prep_init(to, from, None, None), replies).len() == replies.len(),
        forall|i: int|
            0 <= i < replies.len() ==> full_diff_step(
                #[trigger] run_steps(prep_init(to, from, None, None), replies)[i],
                from,
            ),
{
    lemma_no_boundary_run(prep_init(to, from, None, None), replies);
}

/// A controller that has finished, or failed validation, decides nothing
/// further: whatever the backend would reply, its plan holds no operation.
/// Work approved by a completed run is therefore applied exactly once; only
/// a fresh run (a fresh controller) can touch the backend again.
pub proof fn lemma_completed_run_plans_nothing(m: ReviewPrepV, replies: Seq<GitOutcomeV>)
    requires
        m.phase == Phase::Finished || m.phase == Phase::Failed,
    ensures
        run_steps(m, replies).len() == replies.len(),
        forall|i: int|
            0 <= i < replies.len() ==> #[trigger] run_steps(m, replies)[i] == StepV::Done,
    decreases replies.len(),
{
    if replies.len() > 0 {
        let s = spec_step(m, replies[0]);
        lemma_completed_run_plans_nothing(s.0, replies.drop_first());
        assert(run_steps(m, replies)[0] == s.1);
        assert forall|i: int| 1 <= i < replies.len() implies #[trigger] run_steps(m, replies)[i]
            == StepV::Done by {
            assert(run_steps(m, replies)[i] == run_steps(s.0, replies.drop_first())[i - 1]);
        }
    }
}

/// Begin preparing the review branch for a (target, source) pair with the
/// given skip-to and stop-at boundaries. Drive the returned controller with
/// [`ReviewPrep::next`] until it answers `Done` or `Fail`.
pub fn prepare_review_branch(
    to: &str,
    from: &str,
    skip_to: Option<&str>,
    stop_at: Option<&str>,
) -> (r: ReviewPrep)
    ensures
        r@ == prep_init(
            to@,
            from@,
            match skip_to {
                Some(s) => Some(s@),
                None => None,
            },
            match stop_at {
                Some(s) => Some(s@),
                None => None,
            },
        ),
        prep_wf(r@),
{
    let r = ReviewPrep {
        to: to.to_owned(),
        from: from.to_owned(),
        skip_to: match skip_to {
            Some(s) => Some(s.to_owned()),
            None => None,
        },
        stop_at: match stop_at {
            Some(s) => Some(s.to_owned()),
            None => None,
        },
        merge_base: String::new(),
        valid_hashes: Vec::new(),
        phase: Phase::Start,
    };
    proof {
        assert(r@.valid_hashes =~= Seq::<Seq<char>>::empty());
        assert(r@ =~= prep_init(
            to@,
            from@,
            match skip_to {
                Some(s) => Some(s@),
                None => None,
            },
            match stop_at {
                Some(s) => Some(s@),
                None => None,
            },
        ));
    }
    r
}

impl ReviewPrep {
    fn end_ref_owned(&self) -> (r: String)
        ensures
            r@ == spec_end_ref(self@),
    {
        match &self.stop_at {
            Some(t) => t.clone(),
            None => self.from.clone(),
        }
    }

    /// One step of the preparation: consume the reply to the operation in
    /// flight (the first step receives a placeholder reply, which it
    /// ignores) and produce the next directive. The step taken is exactly
    /// [`spec_step`] on the controller's state and the reply.
    pub fn next(&mut self, outcome: GitOutcome) -> (r: Step)
        requires
            prep_wf(old(self)@),
            old(self).phase != Phase::Finished,
            old(self).phase != Phase::Failed,
        ensures
            final(self)@ == spec_step(old(self)@, outcome@).0,
            r@ == spec_step(old(self)@, outcome@).1,
            prep_wf(final(self)@),
    {
        match self.phase {
            Phase::Start => {
                self.phase = Phase::SwitchingSource;
                Step::Run { op: GitOp::Switch { branch: self.from.clone() }, may_fail: false }
            },
            Phase::SwitchingSource => {
                self.phase = Phase::PullingSource;
                Step::Run { op: GitOp::Pull { branch: self.from.clone() }, may_fail: false }
            },
            Phase::PullingSource => {
                self.phase = Phase::SwitchingTarget;
                Step::Run { op: GitOp::Switch { branch: self.to.clone() }, may_fail: false }
            },
            Phase::SwitchingTarget => {
                self.phase = Phase::PullingTarget;
                Step::Run { op: GitOp::Pull { branch: self.to.clone() }, may_fail: false }
            },
            Phase::PullingTarget => {
                self.phase = Phase::ComputingBase;
                Step::Run {
                    op: GitOp::MergeBase { to: self.to.clone(), from: self.from.clone() },
                    may_fail: false,
                }
            },
            Phase::ComputingBase => {
                self.merge_base = text::trim_blank(outcome.stdout.as_str()).to_owned();
                self.phase = Phase::ListingRange;
                Step::Run {
                    op: GitOp::RevList {
                        base: self.merge_base.clone(),
                        tip: self.from.clone(),
                    },
                    may_fail: false,
                }
            },
            Phase::ListingRange => {
                self.valid_hashes = text::split_lines(outcome.stdout.as_str());
                match &self.skip_to {
                    Some(skip) => {
                        if !range::validate_in_range(skip.as_str(), &self.valid_hashes) {
                            let error = ReviewError::NotInRange {
                                reference: skip.clone(),
                                to: self.to.clone(),
                                from: self.from.clone(),
                            };
                            self.phase = Phase::Failed;
                            return Step::Fail { error };
                        }
                    },
                    None => {},
                }
                match &self.stop_at {
                    Some(stop) => {
                        if !range::validate_in_range(stop.as_str(), &self.valid_hashes) {
                            let error = ReviewError::NotInRange {
                                reference: stop.clone(),
                                to: self.to.clone(),
                                from: self.from.clone(),
                            };
                            self.phase = Phase::Failed;
                            return Step::Fail { error };
                        }
                    },
                    None => {},
                }
                let both = self.skip_to.is_some() && self.stop_at.is_some();
                if both {
                    let skip = match &self.skip_to {
                        Some(s) => s.clone(),
                        None => unreached(),
                    };
                    self.phase = Phase::ListingAfterSkip;
                    Step::Run {
                        op: GitOp::RevList { base: skip, tip: self.from.clone() },
                        may_fail: false,
                    }
                } else {
                    let name = session::review_branch_name(
                        self.to.as_str(),
                        self.from.as_str(),
                    );
                    self.phase = Phase::CheckingBranch;
                    Step::Run { op: GitOp::CheckBranchExists { branch: name }, may_fail: true }
                }
            },
            Phase::ListingAfterSkip => {
                let after = text::split_lines(outcome.stdout.as_str());
                let ordered = match (&self.stop_at, &self.skip_to) {
                    (Some(stop), Some(skip)) => range::validate_order(
                        stop.as_str(),
                        skip.as_str(),
                        &after,
                        &self.valid_hashes,
                    ),
                    _ => unreached(),
                };
                if !ordered {
                    let error = match (&self.stop_at, &self.skip_to) {
                        (Some(stop), Some(skip)) => ReviewError::OutOfOrder {
                            stop_at: stop.clone(),
                            skip_to: skip.clone(),
                        },
                        _ => unreached(),
                    };
                    self.phase = Phase::Failed;
                    Step::Fail { error }
                } else {
                    let name = session::review_branch_name(
                        self.to.as_str(),
                        self.from.as_str(),
                    );
                    self.phase = Phase::CheckingBranch;
                    Step::Run { op: GitOp::CheckBranchExists { branch: name }, may_fail: true }
                }
            },
            Phase::CheckingBranch => {
                let name = session::review_branch_name(self.to.as_str(), self.from.as_str());
                self.phase = Phase::EnteringBranch;
                if outcome.success {
                    Step::Run { op: GitOp::Switch { branch: name }, may_fail: false }
                } else {
                    Step::Run {
                        op: GitOp::CreateBranch { branch: name, start: self.merge_base.clone() },
                        may_fail: false,
                    }
                }
            },
            Phase::EnteringBranch => {
                match &self.skip_to {
                    Some(skip) => {
                        let parent = skip.clone().concat("^");
                        self.phase = Phase::ListingEarlier;
                        Step::Run {
                            op: GitOp::RevList {
                                base: self.merge_base.clone(),
                                tip: parent,
                            },
                            may_fail: true,
                        }
                    },
                    None => {
                        let end = self.end_ref_owned();
                        self.phase = Phase::MergingRest;
                        Step::Run { op: GitOp::SquashMergeTheirs { target: end }, may_fail: false }
                    },
                }
            },
            Phase::ListingEarlier => {
                if outcome.stdout.as_str().unicode_len() > 0 {
                    let parent = match &self.skip_to {
                        Some(skip) => skip.clone().concat("^"),
                        None => unreached(),
                    };
                    self.phase = Phase::MergingEarlier;
                    Step::Run {
                        op: GitOp::SquashMergeTheirs { target: parent },
                        may_fail: false,
                    }
                } else {
                    let end = self.end_ref_owned();
                    self.phase = Phase::MergingRest;
                    Step::Run { op: GitOp::SquashMergeTheirs { target: end }, may_fail: false }
                }
            },
            Phase::MergingEarlier => {
                self.phase = Phase::CommittingEarlier;
                Step::Run {
                    op: GitOp::Commit {
                        message: String::from_str("Auto-approve earlier commits"),
                    },
                    may_fail: false,
                }
            },
            Phase::CommittingEarlier => {
                let end = self.end_ref_owned();
                self.phase = Phase::MergingRest;
                Step::Run { op: GitOp::SquashMergeTheirs { target: end }, may_fail: false }
            },
            Phase::MergingRest => {
                self.phase = Phase::Unstaging;
                Step::Run { op: GitOp::UnstageAll, may_fail: false }
            },
            Phase::Unstaging => {
                self.phase = Phase::Finished;
                Step::Done
            },
            Phase::Finished => unreached(),
            Phase::Failed => unreached(),
        }
    }
}

} // verus!

