use cresca::backend::GitOp;
use cresca::backend::GitOutcome;
use cresca::review::prepare_review_branch;
use cresca::review::Phase;
use cresca::review::ReviewError;
use cresca::review::ReviewPrep;
use cresca::review::Step;
use cresca::session::is_clean;

fn ok(stdout: &str) -> GitOutcome {
    GitOutcome { success: true, stdout: stdout.to_string() }
}

fn failed() -> GitOutcome {
    GitOutcome { success: false, stdout: String::new() }
}

fn drive(prep: &mut ReviewPrep, replies: Vec<GitOutcome>) -> Vec<Step> {
    let mut steps = Vec::new();
    let mut it = replies.into_iter();
    loop {
        let reply = it.next().expect("ran out of scripted replies");
        let step = prep.next(reply);
        let done = matches!(step, Step::Done | Step::Fail { .. });
        steps.push(step);
        if done {
            break;
        }
    }
    steps
}

fn op_of(step: &Step) -> &GitOp {
    match step {
        Step::Run { op, .. } => op,
        other => panic!("expected an operation, got {:?}", other),
    }
}

#[test]
fn review_without_boundaries_stages_full_diff() {
    let mut prep = prepare_review_branch("main", "develop", None, None);
    let steps = drive(
        &mut prep,
        vec![
            GitOutcome::initial(),
            ok(""),
            ok(""),
            ok(""),
            ok(""),
            ok("base0\n"),
            ok("c2\nc1\n"),
            failed(),
            ok(""),
            ok(""),
            ok(""),
        ],
    );
    assert_eq!(steps.len(), 11);
    assert!(matches!(op_of(&steps[0]), GitOp::Switch { branch } if branch == "develop"));
    assert!(matches!(op_of(&steps[1]), GitOp::Pull { branch } if branch == "develop"));
    assert!(matches!(op_of(&steps[2]), GitOp::Switch { branch } if branch == "main"));
    assert!(matches!(op_of(&steps[3]), GitOp::Pull { branch } if branch == "main"));
    assert!(
        matches!(op_of(&steps[4]), GitOp::MergeBase { to, from } if to == "main" && from == "develop")
    );
    assert!(
        matches!(op_of(&steps[5]), GitOp::RevList { base, tip } if base == "base0" && tip == "develop")
    );
    assert!(
        matches!(op_of(&steps[6]), GitOp::CheckBranchExists { branch } if branch == "review-main-develop")
    );
    assert!(matches!(&steps[6], Step::Run { may_fail: true, .. }));
    assert!(
        matches!(op_of(&steps[7]), GitOp::CreateBranch { branch, start } if branch == "review-main-develop" && start == "base0")
    );
    assert!(matches!(op_of(&steps[8]), GitOp::SquashMergeTheirs { target } if target == "develop"));
    assert!(matches!(op_of(&steps[9]), GitOp::UnstageAll));
    assert!(matches!(steps[10], Step::Done));
    assert_eq!(prep.phase, Phase::Finished);
    // Nothing was committed: with no boundaries, the whole diff stays
    // unreviewed.
    assert!(!steps.iter().any(|s| matches!(s, Step::Run { op: GitOp::Commit { .. }, .. })));
}

#[test]
fn review_reuses_existing_review_branch() {
    let mut prep = prepare_review_branch("main", "develop", None, None);
    let steps = drive(
        &mut prep,
        vec![
            GitOutcome::initial(),
            ok(""),
            ok(""),
            ok(""),
            ok(""),
            ok("base0\n"),
            ok("c2\nc1\n"),
            ok("deadbeef refs/heads/review-main-develop\n"),
            ok(""),
            ok(""),
            ok(""),
        ],
    );
    assert!(
        matches!(op_of(&steps[7]), GitOp::Switch { branch } if branch == "review-main-develop")
    );
    assert!(matches!(steps[10], Step::Done));
}

#[test]
fn skip_to_auto_approves_earlier_commits() {
    // Three commits atop the base, oldest last: c3, c2, c1. Skipping to c2
    // must squash-merge and commit c2's parent, then stage the rest.
    let mut prep = prepare_review_branch("main", "develop", Some("c2"), None);
    let steps = drive(
        &mut prep,
        vec![
            GitOutcome::initial(),
            ok(""),
            ok(""),
            ok(""),
            ok(""),
            ok("base0\n"),
            ok("c3\nc2\nc1\n"),
            failed(),
            ok(""),
            ok("c1\n"),
            ok(""),
            ok(""),
            ok(""),
            ok(""),
        ],
    );
    assert_eq!(steps.len(), 14);
    assert!(
        matches!(op_of(&steps[8]), GitOp::RevList { base, tip } if base == "base0" && tip == "c2^")
    );
    assert!(matches!(&steps[8], Step::Run { may_fail: true, .. }));
    assert!(matches!(op_of(&steps[9]), GitOp::SquashMergeTheirs { target } if target == "c2^"));
    assert!(
        matches!(op_of(&steps[10]), GitOp::Commit { message } if message == "Auto-approve earlier commits")
    );
    assert!(
        matches!(op_of(&steps[11]), GitOp::SquashMergeTheirs { target } if target == "develop")
    );
    assert!(matches!(op_of(&steps[12]), GitOp::UnstageAll));
    assert!(matches!(steps[13], Step::Done));
}

#[test]
fn skip_to_oldest_commit_approves_nothing() {
    // Skipping to the oldest commit: nothing lies before it, so nothing is
    // auto-approved and no commit is made.
    let mut prep = prepare_review_branch("main", "develop", Some("c1"), None);
    let steps = drive(
        &mut prep,
        vec![
            GitOutcome::initial(),
            ok(""),
            ok(""),
            ok(""),
            ok(""),
            ok("base0\n"),
            ok("c2\nc1\n"),
            failed(),
            ok(""),
            ok(""),
            ok(""),
            ok(""),
        ],
    );
    assert!(
        matches!(op_of(&steps[8]), GitOp::RevList { base, tip } if base == "base0" && tip == "c1^")
    );
    assert!(matches!(op_of(&steps[9]), GitOp::SquashMergeTheirs { target } if target == "develop"));
    assert!(!steps.iter().any(|s| matches!(s, Step::Run { op: GitOp::Commit { .. }, .. })));
    assert!(matches!(steps[11], Step::Done));
}

#[test]
fn stop_at_bounds_the_staged_diff() {
    let mut prep = prepare_review_branch("main", "develop", None, Some("c2"));
    let steps = drive(
        &mut prep,
        vec![
            GitOutcome::initial(),
            ok(""),
            ok(""),
            ok(""),
            ok(""),
            ok("base0\n"),
            ok("c3\nc2\nc1\n"),
            failed(),
            ok(""),
            ok(""),
            ok(""),
        ],
    );
    assert!(matches!(op_of(&steps[8]), GitOp::SquashMergeTheirs { target } if target == "c2"));
    assert!(matches!(steps[10], Step::Done));
}

#[test]
fn skip_out_of_range_fails_validation() {
    let mut prep = prepare_review_branch("main", "develop", Some("zzz"), None);
    let steps = drive(
        &mut prep,
        vec![
            GitOutcome::initial(),
            ok(""),
            ok(""),
            ok(""),
            ok(""),
            ok("base0\n"),
            ok("c2\nc1\n"),
        ],
    );
    match steps.last().unwrap() {
        Step::Fail { error: ReviewError::NotInRange { reference, to, from } } => {
            assert_eq!(reference, "zzz");
            assert_eq!(to, "main");
            assert_eq!(from, "develop");
        },
        other => panic!("expected a boundary failure, got {:?}", other),
    }
    assert_eq!(prep.phase, Phase::Failed);
}

#[test]
fn empty_range_fails_every_boundary() {
    // Target and source already identical: the range is empty and any
    // boundary is out of range.
    let mut prep = prepare_review_branch("main", "develop", Some("c1"), None);
    let steps = drive(
        &mut prep,
        vec![
            GitOutcome::initial(),
            ok(""),
            ok(""),
            ok(""),
            ok(""),
            ok("base0\n"),
            ok(""),
        ],
    );
    assert!(matches!(
        steps.last().unwrap(),
        Step::Fail { error: ReviewError::NotInRange { .. } }
    ));
}

#[test]
fn stop_before_skip_fails_ordering() {
    let mut prep = prepare_review_branch("main", "develop", Some("c2"), Some("c3"));
    let steps = drive(
        &mut prep,
        vec![
            GitOutcome::initial(),
            ok(""),
            ok(""),
            ok(""),
            ok(""),
            ok("base0\n"),
            ok("c1\nc2\nc3\n"),
            // Commits strictly after c2 toward the tip: only c1 here, so a
            // stop at c3 is out of order.
            ok("c1\n"),
        ],
    );
    match steps.last().unwrap() {
        Step::Fail { error: ReviewError::OutOfOrder { stop_at, skip_to } } => {
            assert_eq!(stop_at, "c3");
            assert_eq!(skip_to, "c2");
        },
        other => panic!("expected an ordering failure, got {:?}", other),
    }
}

#[test]
fn stop_equal_to_skip_is_accepted() {
    let mut prep = prepare_review_branch("main", "develop", Some("c2"), Some("c2"));
    let steps = drive(
        &mut prep,
        vec![
            GitOutcome::initial(),
            ok(""),
            ok(""),
            ok(""),
            ok(""),
            ok("base0\n"),
            ok("c3\nc2\nc1\n"),
            ok("c3\n"),
            failed(),
            ok(""),
            ok("c1\n"),
            ok(""),
            ok(""),
            ok(""),
            ok(""),
        ],
    );
    assert!(matches!(op_of(&steps[6]), GitOp::RevList { base, tip } if base == "c2" && tip == "develop"));
    assert!(matches!(op_of(&steps[12]), GitOp::SquashMergeTheirs { target } if target == "c2"));
    assert!(matches!(steps.last().unwrap(), Step::Done));
}

#[test]
fn identical_runs_plan_identical_operations() {
    // Planning is a pure function of the arguments and the backend's
    // replies: two runs over the same history plan the same operations.
    let replies = || {
        vec![
            GitOutcome::initial(),
            ok(""),
            ok(""),
            ok(""),
            ok(""),
            ok("base0\n"),
            ok("c2\nc1\n"),
            ok("exists\n"),
            ok(""),
            ok(""),
            ok(""),
        ]
    };
    let mut first = prepare_review_branch("main", "develop", None, None);
    let mut second = prepare_review_branch("main", "develop", None, None);
    let steps_first = drive(&mut first, replies());
    let steps_second = drive(&mut second, replies());
    assert_eq!(format!("{:?}", steps_first), format!("{:?}", steps_second));
}

#[test]
fn clean_tree_after_review_means_nothing_to_review() {
    // The caller distinguishes "nothing to review" from "diff pending"
    // solely by working-tree cleanliness after the run.
    assert!(is_clean(""));
    assert!(!is_clean(" M staged.txt\n"));
}
