//! Commit range validation: whether a user-supplied, possibly abbreviated
//! commit reference falls inside the computed range, and whether two
//! boundary references are correctly ordered.

use crate::text;
use vstd::prelude::*;

verus! {

/// A candidate reference lies in a range exactly when some full reference
/// of the range starts with it.
pub open spec fn in_range(candidate: Seq<char>, range: Seq<Seq<char>>) -> bool {
    exists|i: int| 0 <= i < range.len() && candidate.is_prefix_of(#[trigger] range[i])
}

/// A stop-at boundary is at or after a skip-to boundary exactly when it
/// lies in the range strictly after the skip-to boundary, or both
/// abbreviate the same full reference of the range.
pub open spec fn order_ok(
    stop_at: Seq<char>,
    skip_to: Seq<char>,
    after_skip: Seq<Seq<char>>,
    range: Seq<Seq<char>>,
) -> bool {
    in_range(stop_at, after_skip) || exists|i: int|
        0 <= i < range.len() && stop_at.is_prefix_of(#[trigger] range[i]) && skip_to.is_prefix_of(
            range[i],
        )
}

/// Whether some full reference in `range` starts with `candidate`.
pub fn validate_in_range(candidate: &str, range: &Vec<String>) -> (r: bool)
    ensures
        r == in_range(candidate@, range.deep_view()),
{
    let n: usize = range.len();
    let mut i: usize = 0;
    while i < n
        invariant
            0 <= i <= n,
            n == range@.len(),
            forall|j: int| 0 <= j < i ==> !candidate@.is_prefix_of(#[trigger] range.deep_view()[j]),
        decreases n - i,
    {
        if text::starts_with(range[i].as_str(), candidate) {
            proof {
                assert(candidate@.is_prefix_of(range.deep_view()[i as int]));
            }
            return true;
        }
        proof {
            assert(range.deep_view()[i as int] == range@[i as int]@);
        }
        i = i + 1;
    }
    false
}

/// Whether `stop_at` is at or after `skip_to`: `stop_at` falls in the range
/// strictly after `skip_to` (`after_skip`), or both boundaries abbreviate
/// one full reference of `range`.
pub fn validate_order(
    stop_at: &str,
    skip_to: &str,
    after_skip: &Vec<String>,
    range: &Vec<String>,
) -> (r: bool)
    ensures
        r == order_ok(stop_at@, skip_to@, after_skip.deep_view(), range.deep_view()),
{
    if validate_in_range(stop_at, after_skip) {
        return true;
    }
    let n: usize = range.len();
    let mut i: usize = 0;
    while i < n
        invariant
            0 <= i <= n,
            n == range@.len(),
            forall|j: int| 0 <= j < i ==> !(stop_at@.is_prefix_of(#[trigger] range.deep_view()[j])
                && skip_to@.is_prefix_of(range.deep_view()[j])),
        decreases n - i,
    {
        if text::starts_with(range[i].as_str(), stop_at) && text::starts_with(
            range[i].as_str(),
            skip_to,
        ) {
            proof {
                assert(stop_at@.is_prefix_of(range.deep_view()[i as int]));
                assert(skip_to@.is_prefix_of(range.deep_view()[i as int]));
            }
            return true;
        }
        proof {
            assert(range.deep_view()[i as int] == range@[i as int]@);
        }
        i = i + 1;
    }
    false
}

/// Boundary ordering accepts a stop-at boundary equal to the skip-to
/// boundary: a reference that is in range is always correctly ordered
/// against itself, whatever lies after it.
pub proof fn lemma_order_ok_reflexive(
    reference: Seq<char>,
    after_skip: Seq<Seq<char>>,
    range: Seq<Seq<char>>,
)
    requires
        in_range(reference, range),
    ensures
        order_ok(reference, reference, after_skip, range),
{
    let i = choose|i: int| 0 <= i < range.len() && reference.is_prefix_of(#[trigger] range[i]);
    assert(reference.is_prefix_of(range[i]));
}

} // verus!
