use cresca::approve::approve_changes;
use cresca::approve::ApproveOutcome;
use cresca::backend::GitOp;
use cresca::range::validate_in_range;
use cresca::range::validate_order;
use cresca::session::get_review_branch_info;
use cresca::session::is_clean;
use cresca::session::is_review_branch;
use cresca::session::review_branch_name;
use cresca::status::get_review_status;
use cresca::text::find_char;
use cresca::text::first_token;
use cresca::text::has_substring;
use cresca::text::parse_count;
use cresca::text::split_char;
use cresca::text::split_lines;
use cresca::text::starts_with;
use cresca::text::trim_blank;

fn strings(v: &[&str]) -> Vec<String> {
    v.iter().map(|s| s.to_string()).collect()
}

#[test]
fn clean_iff_status_empty() {
    assert!(is_clean(""));
    assert!(!is_clean(" M file.txt\n"));
}

#[test]
fn review_branch_recognition() {
    assert!(is_review_branch("review-main-develop\n"));
    assert!(is_review_branch("review-main-feature-branch"));
    assert!(!is_review_branch("main\n"));
    assert!(!is_review_branch("develop"));
    // The naming pattern decides, not the word alone: a bare or merely
    // similar name is no session.
    assert!(!is_review_branch("review"));
    assert!(!is_review_branch("reviews"));
    assert!(!is_review_branch("review-main"));
}

#[test]
fn branch_name_round_trip() {
    let name = review_branch_name("main", "develop");
    assert_eq!(name, "review-main-develop");
    let info = get_review_branch_info(&name).expect("review branch name must parse");
    assert_eq!(info.0, "main");
    assert_eq!(info.1, "develop");
}

#[test]
fn session_source_may_contain_separator() {
    let info = get_review_branch_info("review-main-feature-branch\n").unwrap();
    assert_eq!(info.0, "main");
    assert_eq!(info.1, "feature-branch");
}

#[test]
fn session_requires_both_components() {
    assert!(get_review_branch_info("main").is_none());
    assert!(get_review_branch_info("review-main").is_none());
    assert!(get_review_branch_info("rev-main-develop").is_none());
}

#[test]
fn candidate_valid_iff_prefix_of_range_member() {
    let range = strings(&["abc123", "def456"]);
    assert!(validate_in_range("abc", &range));
    assert!(validate_in_range("def456", &range));
    assert!(!validate_in_range("abd", &range));
    assert!(!validate_in_range("zzz", &range));
}

#[test]
fn empty_range_rejects_every_candidate() {
    let range = strings(&[]);
    assert!(!validate_in_range("abc", &range));
    assert!(!validate_in_range("", &range));
}

#[test]
fn order_accepts_stop_after_skip() {
    let range = strings(&["c3", "c2", "c1"]);
    let after_skip = strings(&["c3"]);
    assert!(validate_order("c3", "c2", &after_skip, &range));
}

#[test]
fn order_accepts_stop_equal_to_skip() {
    let range = strings(&["c3", "c2", "c1"]);
    let after_skip = strings(&["c3"]);
    assert!(validate_order("c2", "c2", &after_skip, &range));
}

#[test]
fn order_rejects_stop_before_skip() {
    let range = strings(&["c3", "c2", "c1"]);
    let after_skip = strings(&[]);
    assert!(!validate_order("c1", "c3", &after_skip, &range));
}

#[test]
fn approve_commits_when_staged() {
    let plan = approve_changes("diff --cached content");
    assert_eq!(plan.outcome, ApproveOutcome::Approved);
    assert_eq!(plan.ops.len(), 3);
    match &plan.ops[0] {
        GitOp::Commit { message } => assert_eq!(message, "Approve reviewed changes"),
        other => panic!("expected a commit first, got {:?}", other),
    }
    assert!(matches!(plan.ops[1], GitOp::RestoreWorktree));
    assert!(matches!(plan.ops[2], GitOp::CleanUntracked));
}

#[test]
fn approve_discards_even_with_nothing_staged() {
    let plan = approve_changes("");
    assert_eq!(plan.outcome, ApproveOutcome::NothingToApprove);
    assert_eq!(plan.ops.len(), 2);
    assert!(matches!(plan.ops[0], GitOp::RestoreWorktree));
    assert!(matches!(plan.ops[1], GitOp::CleanUntracked));
}

#[test]
fn status_parses_full_summary() {
    let stat = " a.txt | 7 ++\n b.txt | 2 -\n 4 files changed, 7 insertions(+), 2 deletions(-)\n";
    let names = "a.txt\nb.txt\n";
    let status = get_review_status("develop", stat, names);
    assert_eq!(status.from_branch, "develop");
    assert_eq!(status.file_count, 4);
    assert_eq!(status.insertions, 7);
    assert_eq!(status.deletions, 2);
    assert_eq!(status.files, strings(&["a.txt", "b.txt"]));
}

#[test]
fn status_missing_clauses_default_to_zero() {
    let status = get_review_status("develop", " 1 file changed, 1 insertion(+)\n", "x.txt\n");
    assert_eq!(status.file_count, 1);
    assert_eq!(status.insertions, 1);
    assert_eq!(status.deletions, 0);
}

#[test]
fn status_of_added_files_counts_no_deletions() {
    let stat = " f1.txt | 1 +\n f2.txt | 1 +\n f3.txt | 1 +\n 3 files changed, 3 insertions(+)\n";
    let names = "f1.txt\nf2.txt\nf3.txt\n";
    let status = get_review_status("develop", stat, names);
    assert_eq!(status.file_count, 3);
    assert_eq!(status.deletions, 0);
    assert_eq!(status.files, strings(&["f1.txt", "f2.txt", "f3.txt"]));
}

#[test]
fn status_of_empty_diff_is_all_zero() {
    let status = get_review_status("develop", "", "");
    assert_eq!(status.file_count, 0);
    assert_eq!(status.insertions, 0);
    assert_eq!(status.deletions, 0);
    assert!(status.files.is_empty());
}

#[test]
fn file_list_keeps_backend_order() {
    let status = get_review_status("develop", "", "z.txt\na.txt\n\nm.txt\n");
    assert_eq!(status.files, strings(&["z.txt", "a.txt", "m.txt"]));
}

#[test]
fn parse_count_reads_decimal_or_zero() {
    assert_eq!(parse_count("42"), 42);
    assert_eq!(parse_count("+7"), 7);
    assert_eq!(parse_count("0"), 0);
    assert_eq!(parse_count(""), 0);
    assert_eq!(parse_count("+"), 0);
    assert_eq!(parse_count("4x"), 0);
    assert_eq!(parse_count("-3"), 0);
    assert_eq!(parse_count("99999999999999999999999999999999"), 0);
}

#[test]
fn split_lines_matches_backend_line_endings() {
    assert_eq!(split_lines("a\nb\n"), vec!["a".to_string(), "b".to_string()]);
    assert_eq!(split_lines("a\nb"), vec!["a".to_string(), "b".to_string()]);
    assert_eq!(split_lines("a\r\nb"), vec!["a".to_string(), "b".to_string()]);
    assert_eq!(split_lines(""), Vec::<String>::new());
    assert_eq!(split_lines("\n"), vec!["".to_string()]);
}

#[test]
fn split_char_keeps_empty_fields() {
    assert_eq!(
        split_char("a,b,,c", ','),
        vec!["a".to_string(), "b".to_string(), "".to_string(), "c".to_string()]
    );
    assert_eq!(split_char("", ','), vec!["".to_string()]);
}

#[test]
fn text_primitives_behave() {
    assert!(starts_with("abcdef", "abc"));
    assert!(!starts_with("ab", "abc"));
    assert_eq!(trim_blank("  x y\t\n"), "x y");
    assert_eq!(find_char("a-b-c", '-'), Some(1));
    assert_eq!(find_char("abc", '-'), None);
    assert!(has_substring("2 files changed", "file"));
    assert!(!has_substring("2 insertions(+)", "file"));
    assert_eq!(first_token("  42 files"), Some("42".to_string()));
    assert_eq!(first_token("   "), None);
}
