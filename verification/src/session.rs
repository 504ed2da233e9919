//! Session identity: review branch naming, recognising review branches, and
//! recovering the (target, source) pair from a review branch's name. A
//! review session has no record of its own; the branch name is its only
//! persisted identity.

use crate::text;
use vstd::prelude::*;
use vstd::string::StrSliceExecFns;
use vstd::string::StringExecFns;

verus! {

/// A working tree is clean exactly when the backend's porcelain status
/// output is empty.
pub fn is_clean(status_output: &str) -> (r: bool)
    ensures
        r <==> status_output@.len() == 0,
{
    status_output.unicode_len() == 0
}

/// The synthetic name of the review branch for a (target, source) pair.
pub open spec fn spec_review_branch_name(to: Seq<char>, from: Seq<char>) -> Seq<char> {
    "review-"@ + to + "-"@ + from
}

/// Builds the review branch name for a (target, source) pair.
pub fn review_branch_name(to: &str, from: &str) -> (r: String)
    ensures
        r@ == spec_review_branch_name(to@, from@),
{
    String::from_str("review-").concat(to).concat("-").concat(from)
}

/// The (target, source) pair a branch name encodes: the fixed prefix, the
/// target up to the first separator, then the source, which may itself
/// contain the separator.
pub open spec fn session_of(name: Seq<char>) -> Option<(Seq<char>, Seq<char>)> {
    if "review-"@.is_prefix_of(name) {
        let rest = name.skip("review-"@.len() as int);
        let i = text::first_index_of(rest, '-');
        if i < 0 {
            None
        } else {
            Some((rest.take(i), rest.skip(i + 1)))
        }
    } else {
        None
    }
}

/// Whether the branch named by the backend's (possibly newline-terminated)
/// output is a review branch: one whose name follows the review branch
/// naming pattern, exactly as [`get_review_branch_info`] parses it. A name
/// that merely begins with the word of the prefix names no session.
pub fn is_review_branch(branch_output: &str) -> (r: bool)
    ensures
        r == (session_of(text::spec_trim(branch_output@)) is Some),
{
    get_review_branch_info(branch_output).is_some()
}

/// The (target, source) pair of the current review session, derived from
/// the backend's report of the current branch name; `None` when the name
/// does not follow the review branch naming rule.
pub fn get_review_branch_info(branch_output: &str) -> (r: Option<(String, String)>)
    ensures
        match r {
            Some(p) => session_of(text::spec_trim(branch_output@)) == Some((p.0@, p.1@)),
            None => session_of(text::spec_trim(branch_output@)) == None::<(Seq<char>, Seq<char>)>,
        },
{
    let t = text::trim_blank(branch_output);
    if !text::starts_with(t, "review-") {
        return None;
    }
    proof {
        reveal_strlit("review-");
    }
    let n: usize = t.unicode_len();
    let rest = t.substring_char(7, n);
    proof {
        assert(rest@ =~= t@.skip("review-"@.len() as int));
    }
    match text::find_char(rest, '-') {
        None => None,
        Some(i) => {
            proof {
                text::lemma_first_index_of(rest@, '-');
            }
            let m: usize = rest.unicode_len();
            let target = rest.substring_char(0, i).to_owned();
            let source = rest.substring_char(i + 1, m).to_owned();
            proof {
                assert(target@ =~= rest@.take(i as int));
                assert(source@ =~= rest@.skip(i + 1));
            }
            Some((target, source))
        },
    }
}

} // verus!
