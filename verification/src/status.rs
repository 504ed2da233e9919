//! The status report: the remaining diff between the review head and the
//! source branch tip, parsed from the backend's summary and name-only
//! outputs.

use crate::text;
use vstd::prelude::*;
use vstd::string::StrSliceExecFns;

verus! {

/// The remaining-diff statistics of a review session.
pub struct ReviewStatus {
    pub from_branch: String,
    pub file_count: usize,
    pub insertions: usize,
    pub deletions: usize,
    pub files: Vec<String>,
}

/// One comma-separated clause of the summary line, applied to the running
/// (files, insertions, deletions) counts: a clause naming files,
/// insertions or deletions sets that count to the value of its leading
/// token, and any other clause changes nothing.
pub open spec fn apply_clause(counts: (nat, nat, nat), clause: Seq<char>) -> (nat, nat, nat) {
    let p = text::spec_trim(clause);
    if text::has_sub(p, "file"@) {
        match text::spec_first_token(p) {
            Some(t) => (text::parsed_count(t), counts.1, counts.2),
            None => counts,
        }
    } else if text::has_sub(p, "insertion"@) {
        match text::spec_first_token(p) {
            Some(t) => (counts.0, text::parsed_count(t), counts.2),
            None => counts,
        }
    } else if text::has_sub(p, "deletion"@) {
        match text::spec_first_token(p) {
            Some(t) => (counts.0, counts.1, text::parsed_count(t)),
            None => counts,
        }
    } else {
        counts
    }
}

/// All clauses applied in order, later clauses overriding earlier ones.
pub open spec fn fold_clauses(counts: (nat, nat, nat), clauses: Seq<Seq<char>>) -> (nat, nat, nat)
    decreases clauses.len(),
{
    if clauses.len() == 0 {
        counts
    } else {
        fold_clauses(apply_clause(counts, clauses[0]), clauses.drop_first())
    }
}

/// The counts the backend's diff summary denotes: the comma-separated
/// clauses of its last line, each contributing its leading number; a count
/// whose clause is absent stays zero.
pub open spec fn stat_counts(stat_output: Seq<char>) -> (nat, nat, nat) {
    let ls = text::spec_lines(stat_output);
    if ls.len() == 0 {
        (0, 0, 0)
    } else {
        fold_clauses((0, 0, 0), text::spec_split(ls.last(), ','))
    }
}

/// The non-empty lines, in the order the backend printed them.
pub open spec fn non_empty_lines(ls: Seq<Seq<char>>) -> Seq<Seq<char>>
    decreases ls.len(),
{
    if ls.len() == 0 {
        Seq::<Seq<char>>::empty()
    } else if ls[0].len() > 0 {
        seq![ls[0]] + non_empty_lines(ls.drop_first())
    } else {
        non_empty_lines(ls.drop_first())
    }
}

proof fn lemma_non_empty_lines_peel(ls: Seq<Seq<char>>, t: int)
    requires
        0 <= t < ls.len(),
    ensures
        non_empty_lines(ls.skip(t)) == if ls[t].len() > 0 {
            seq![ls[t]] + non_empty_lines(ls.skip(t + 1))
        } else {
            non_empty_lines(ls.skip(t + 1))
        },
{
    let tail = ls.skip(t);
    assert(tail[0] == ls[t]);
    assert(tail.drop_first() =~= ls.skip(t + 1));
}

/// Compute the remaining-diff statistics from the backend's summary output
/// (`stat_output`) and its name-only output (`names_output`) for the diff
/// between the review head and the source branch tip. The counts come from
/// the clauses of the summary's last line, each defaulting to zero when its
/// clause is absent; the file list is the non-empty lines of the name-only
/// output, in backend order.
pub fn get_review_status(from_branch: &str, stat_output: &str, names_output: &str) -> (r:
    ReviewStatus)
    ensures
        r.from_branch@ == from_branch@,
        (r.file_count as nat, r.insertions as nat, r.deletions as nat) == stat_counts(
            stat_output@,
        ),
        r.files.deep_view() == non_empty_lines(text::spec_lines(names_output@)),
{
    let stat_lines = text::split_lines(stat_output);
    let mut file_count: usize = 0;
    let mut insertions: usize = 0;
    let mut deletions: usize = 0;
    if stat_lines.len() > 0 {
        let last_line = stat_lines[stat_lines.len() - 1].as_str();
        proof {
            assert(last_line@ == text::spec_lines(stat_output@).last());
        }
        let clauses = text::split_char(last_line, ',');
        let ghost cv = text::spec_split(last_line@, ',');
        let k: usize = clauses.len();
        let mut t: usize = 0;
        proof {
            assert(cv.skip(0) =~= cv);
        }
        while t < k
            invariant
                0 <= t <= k,
                k == clauses@.len(),
                clauses.deep_view() == cv,
                fold_clauses(
                    (file_count as nat, insertions as nat, deletions as nat),
                    cv.skip(t as int),
                ) == fold_clauses((0, 0, 0), cv),
            decreases k - t,
        {
            let ghost pre = (file_count as nat, insertions as nat, deletions as nat);
            let clause = clauses[t].as_str();
            proof {
                assert(clause@ == cv[t as int]);
            }
            let p = text::trim_blank(clause);
            if text::has_substring(p, "file") {
                match text::first_token(p) {
                    Some(tok) => {
                        file_count = text::parse_count(tok.as_str());
                    },
                    None => {},
                }
            } else if text::has_substring(p, "insertion") {
                match text::first_token(p) {
                    Some(tok) => {
                        insertions = text::parse_count(tok.as_str());
                    },
                    None => {},
                }
            } else if text::has_substring(p, "deletion") {
                match text::first_token(p) {
                    Some(tok) => {
                        deletions = text::parse_count(tok.as_str());
                    },
                    None => {},
                }
            }
            proof {
                assert((file_count as nat, insertions as nat, deletions as nat) == apply_clause(
                    pre,
                    cv[t as int],
                ));
                assert(cv.skip(t as int)[0] == cv[t as int]);
                assert(cv.skip(t as int).drop_first() =~= cv.skip(t + 1));
            }
            t = t + 1;
        }
        proof {
            assert(cv.skip(k as int) =~= Seq::<Seq<char>>::empty());
        }
    }
    let name_lines = text::split_lines(names_output);
    let ghost nv = text::spec_lines(names_output@);
    let mut files: Vec<String> = Vec::new();
    let m: usize = name_lines.len();
    let mut t: usize = 0;
    proof {
        assert(nv.skip(0) =~= nv);
    }
    while t < m
        invariant
            0 <= t <= m,
            m == name_lines@.len(),
            name_lines.deep_view() == nv,
            non_empty_lines(nv) == files.deep_view() + non_empty_lines(nv.skip(t as int)),
        decreases m - t,
    {
        let ghost old_files = files.deep_view();
        let line = &name_lines[t];
        proof {
            assert(line@ == nv[t as int]);
            lemma_non_empty_lines_peel(nv, t as int);
        }
        if line.as_str().unicode_len() > 0 {
            let owned = line.as_str().to_owned();
            files.push(owned);
            proof {
                assert(files.deep_view() =~~= old_files + seq![nv[t as int]]);
                assert(old_files + (seq![nv[t as int]] + non_empty_lines(nv.skip(t + 1))) =~~= (
                old_files + seq![nv[t as int]]) + non_empty_lines(nv.skip(t + 1)));
            }
        }
        t = t + 1;
    }
    proof {
        assert(nv.skip(m as int) =~= Seq::<Seq<char>>::empty());
        assert(files.deep_view() + Seq::<Seq<char>>::empty() =~~= files.deep_view());
    }
    ReviewStatus {
        from_branch: from_branch.to_owned(),
        file_count,
        insertions,
        deletions,
        files,
    }
}

} // verus!
