//! Verified text primitives for the small amount of parsing the review core
//! does: prefix tests, whitespace trimming, splitting on a separator, line
//! splitting the way the backend prints lists, token extraction and decimal
//! parsing.

use vstd::prelude::*;
use vstd::string::StrSliceExecFns;

verus! {

/// The whitespace characters that backend output carries.
pub open spec fn is_blank(c: char) -> bool {
    c == ' ' || c == '\t' || c == '\n' || c == '\r'
}

/// Executable counterpart of [`is_blank`].
pub fn blank_char(c: char) -> (r: bool)
    ensures
        r == is_blank(c),
{
    c == ' ' || c == '\t' || c == '\n' || c == '\r'
}

/// Index of the first occurrence of `c` in `s`, or -1 when `c` is absent.
pub open spec fn first_index_of(s: Seq<char>, c: char) -> int
    decreases s.len(),
{
    if s.len() == 0 {
        -1
    } else if s[0] == c {
        0
    } else {
        let r = first_index_of(s.drop_first(), c);
        if r < 0 {
            -1
        } else {
            r + 1
        }
    }
}

/// `first_index_of` finds the first occurrence: at its result the character
/// stands, and nowhere earlier; -1 means the character does not occur.
pub proof fn lemma_first_index_of(s: Seq<char>, c: char)
    ensures
        first_index_of(s, c) == -1 ==> forall|j: int| 0 <= j < s.len() ==> s[j] != c,
        first_index_of(s, c) != -1 ==> 0 <= first_index_of(s, c) < s.len()
            && s[first_index_of(s, c)] == c
            && forall|j: int| 0 <= j < first_index_of(s, c) ==> s[j] != c,
    decreases s.len(),
{
    if s.len() > 0 && s[0] != c {
        lemma_first_index_of(s.drop_first(), c);
        let r = first_index_of(s.drop_first(), c);
        if r == -1 {
            assert forall|j: int| 0 <= j < s.len() implies s[j] != c by {
                if j > 0 {
                    assert(s.drop_first()[j - 1] == s[j]);
                }
            }
        } else {
            assert(s.drop_first()[r] == s[r + 1]);
            assert forall|j: int| 0 <= j < r + 1 implies s[j] != c by {
                if j > 0 {
                    assert(s.drop_first()[j - 1] == s[j]);
                }
            }
        }
    }
}

/// Conversely, a position that is an occurrence of `c` with none before it
/// is what `first_index_of` returns.
pub proof fn lemma_first_index_of_at(s: Seq<char>, c: char, i: int)
    requires
        0 <= i < s.len(),
        s[i] == c,
        forall|j: int| 0 <= j < i ==> s[j] != c,
    ensures
        first_index_of(s, c) == i,
    decreases s.len(),
{
    if i > 0 {
        lemma_first_index_of_at(s.drop_first(), c, i - 1);
    }
}

/// When `c` occurs nowhere in `s`, `first_index_of` returns -1.
pub proof fn lemma_first_index_of_absent(s: Seq<char>, c: char)
    requires
        forall|j: int| 0 <= j < s.len() ==> s[j] != c,
    ensures
        first_index_of(s, c) == -1,
    decreases s.len(),
{
    if s.len() > 0 {
        lemma_first_index_of_absent(s.drop_first(), c);
    }
}

/// Position of the first occurrence of `c` in `s`, if any.
pub fn find_char(s: &str, c: char) -> (r: Option<usize>)
    ensures
        match r {
            Some(i) => i as int == first_index_of(s@, c),
            None => first_index_of(s@, c) == -1,
        },
{
    let n: usize = s.unicode_len();
    let mut i: usize = 0;
    while i < n
        invariant
            0 <= i <= n,
            n == s@.len(),
            forall|j: int| 0 <= j < i ==> s@[j] != c,
        decreases n - i,
    {
        if s.get_char(i) == c {
            proof {
                lemma_first_index_of_at(s@, c, i as int);
            }
            return Some(i);
        }
        i = i + 1;
    }
    proof {
        lemma_first_index_of_absent(s@, c);
    }
    None
}

/// Whether `prefix` is a prefix of `s`, character for character.
pub fn starts_with(s: &str, prefix: &str) -> (r: bool)
    ensures
        r == prefix@.is_prefix_of(s@),
{
    let m: usize = prefix.unicode_len();
    let n: usize = s.unicode_len();
    if m > n {
        return false;
    }
    let mut i: usize = 0;
    while i < m
        invariant
            0 <= i <= m <= n,
            m == prefix@.len(),
            n == s@.len(),
            forall|j: int| 0 <= j < i ==> prefix@[j] == s@[j],
        decreases m - i,
    {
        if s.get_char(i) != prefix.get_char(i) {
            assert(s@.subrange(0, m as int)[i as int] == s@[i as int]);
            return false;
        }
        i = i + 1;
    }
    assert(prefix@ =~= s@.subrange(0, m as int));
    true
}

/// `s` with its leading blank characters removed.
pub open spec fn spec_trim_start(s: Seq<char>) -> Seq<char>
    decreases s.len(),
{
    if s.len() > 0 && is_blank(s[0]) {
        spec_trim_start(s.drop_first())
    } else {
        s
    }
}

/// `s` with its trailing blank characters removed.
pub open spec fn spec_trim_end(s: Seq<char>) -> Seq<char>
    decreases s.len(),
{
    if s.len() > 0 && is_blank(s.last()) {
        spec_trim_end(s.drop_last())
    } else {
        s
    }
}

/// `s` with blank characters removed from both ends.
pub open spec fn spec_trim(s: Seq<char>) -> Seq<char> {
    spec_trim_end(spec_trim_start(s))
}

proof fn lemma_trim_start_skip(s: Seq<char>, i: int)
    requires
        0 <= i <= s.len(),
        forall|k: int| 0 <= k < i ==> is_blank(s[k]),
        i == s.len() || !is_blank(s[i]),
    ensures
        spec_trim_start(s) == s.skip(i),
    decreases i,
{
    if i == 0 {
        assert(s.skip(0) =~= s);
    } else {
        lemma_trim_start_skip(s.drop_first(), i - 1);
        assert(s.drop_first().skip(i - 1) =~= s.skip(i));
    }
}

proof fn lemma_trim_end_take(s: Seq<char>, j: int)
    requires
        0 <= j <= s.len(),
        forall|k: int| j <= k < s.len() ==> is_blank(s[k]),
        j == 0 || !is_blank(s[j - 1]),
    ensures
        spec_trim_end(s) == s.take(j),
    decreases s.len(),
{
    if j == s.len() {
        assert(s.take(j) =~= s);
    } else {
        lemma_trim_end_take(s.drop_last(), j);
        assert(s.drop_last().take(j) =~= s.take(j));
    }
}

/// `s` without leading and trailing whitespace.
pub fn trim_blank<'a>(s: &'a str) -> (r: &'a str)
    ensures
        r@ == spec_trim(s@),
{
    let n: usize = s.unicode_len();
    let mut i: usize = 0;
    loop
        invariant
            0 <= i <= n,
            n == s@.len(),
            forall|k: int| 0 <= k < i ==> is_blank(s@[k]),
        ensures
            0 <= i <= n,
            forall|k: int| 0 <= k < i ==> is_blank(s@[k]),
            i == n || !is_blank(s@[i as int]),
        decreases n - i,
    {
        if i < n && blank_char(s.get_char(i)) {
            i = i + 1;
        } else {
            break;
        }
    }
    let mut j: usize = n;
    loop
        invariant
            i <= j <= n,
            n == s@.len(),
            forall|k: int| j <= k < n ==> is_blank(s@[k]),
        ensures
            i <= j <= n,
            forall|k: int| j <= k < n ==> is_blank(s@[k]),
            j == i || !is_blank(s@[j - 1]),
        decreases j,
    {
        if j > i && blank_char(s.get_char(j - 1)) {
            j = j - 1;
        } else {
            break;
        }
    }
    let r = s.substring_char(i, j);
    proof {
        lemma_trim_start_skip(s@, i as int);
        lemma_trim_end_take(s@.skip(i as int), j - i);
        assert(s@.skip(i as int).take(j - i) =~= s@.subrange(i as int, j as int));
    }
    r
}

/// The fields of `s` between occurrences of `sep`, in order. An empty
/// string has one empty field; a separator at either end contributes an
/// empty field there.
pub open spec fn spec_split(s: Seq<char>, sep: char) -> Seq<Seq<char>>
    decreases s.len(),
{
    if s.len() == 0 {
        seq![Seq::<char>::empty()]
    } else if s[0] == sep {
        seq![Seq::<char>::empty()] + spec_split(s.drop_first(), sep)
    } else {
        let rest = spec_split(s.drop_first(), sep);
        seq![seq![s[0]] + rest[0]] + rest.drop_first()
    }
}

pub proof fn lemma_split_nonempty(s: Seq<char>, sep: char)
    ensures
        spec_split(s, sep).len() >= 1,
    decreases s.len(),
{
    if s.len() > 0 {
        lemma_split_nonempty(s.drop_first(), sep);
    }
}

/// Splitting at the first separator: the field before it, then the split of
/// what follows it.
pub proof fn lemma_split_at_sep(s: Seq<char>, sep: char, k: int)
    requires
        0 <= k < s.len(),
        s[k] == sep,
        forall|j: int| 0 <= j < k ==> s[j] != sep,
    ensures
        spec_split(s, sep) == seq![s.take(k)] + spec_split(s.skip(k + 1), sep),
    decreases k,
{
    if k == 0 {
        assert(s.take(0) =~= Seq::<char>::empty());
        assert(s.skip(1) =~= s.drop_first());
        assert(seq![Seq::<char>::empty()] + spec_split(s.drop_first(), sep) =~= seq![s.take(0)]
            + spec_split(s.skip(1), sep));
    } else {
        let tail = s.drop_first();
        assert forall|j: int| 0 <= j < k - 1 implies tail[j] != sep by {
            assert(tail[j] == s[j + 1]);
        }
        assert(tail[k - 1] == s[k]);
        lemma_split_at_sep(tail, sep, k - 1);
        let rest = spec_split(tail, sep);
        lemma_split_nonempty(tail.skip(k), sep);
        assert(rest[0] == tail.take(k - 1));
        assert(rest.drop_first() =~= spec_split(tail.skip(k), sep));
        assert(seq![s[0]] + tail.take(k - 1) =~= s.take(k));
        assert(tail.skip(k) =~= s.skip(k + 1));
        assert(seq![seq![s[0]] + rest[0]] + rest.drop_first() =~= seq![s.take(k)] + spec_split(
            s.skip(k + 1),
            sep,
        ));
    }
}

/// Splitting a string without the separator: one field, the string itself.
pub proof fn lemma_split_no_sep(s: Seq<char>, sep: char)
    requires
        forall|j: int| 0 <= j < s.len() ==> s[j] != sep,
    ensures
        spec_split(s, sep) == seq![s],
    decreases s.len(),
{
    if s.len() == 0 {
        assert(seq![Seq::<char>::empty()] =~~= seq![s]);
    } else {
        let tail = s.drop_first();
        assert forall|j: int| 0 <= j < tail.len() implies tail[j] != sep by {
            assert(tail[j] == s[j + 1]);
        }
        lemma_split_no_sep(tail, sep);
        assert(seq![s[0]] + tail =~= s);
        assert(seq![seq![s[0]] + tail] + seq![tail].drop_first() =~= seq![s]);
    }
}

/// The fields of `s` between occurrences of `sep`, as owned strings.
pub fn split_char(s: &str, sep: char) -> (r: Vec<String>)
    ensures
        r.deep_view() == spec_split(s@, sep),
{
    let n: usize = s.unicode_len();
    let mut out: Vec<String> = Vec::new();
    let mut start: usize = 0;
    let mut i: usize = 0;
    proof {
        assert(s@.skip(0) =~= s@);
        assert(out.deep_view() + spec_split(s@, sep) =~~= spec_split(s@, sep));
    }
    while i < n
        invariant
            0 <= start <= i <= n,
            n == s@.len(),
            forall|j: int| start <= j < i ==> s@[j] != sep,
            spec_split(s@, sep) == out.deep_view() + spec_split(s@.skip(start as int), sep),
        decreases n - i,
    {
        if s.get_char(i) == sep {
            let ghost old_out = out.deep_view();
            let piece = s.substring_char(start, i).to_owned();
            out.push(piece);
            proof {
                let rem = s@.skip(start as int);
                assert forall|j: int| 0 <= j < i - start implies rem[j] != sep by {
                    assert(rem[j] == s@[start + j]);
                }
                assert(rem[i - start] == s@[i as int]);
                lemma_split_at_sep(rem, sep, i - start);
                assert(rem.take(i - start) =~= s@.subrange(start as int, i as int));
                assert(rem.skip(i - start + 1) =~= s@.skip(i + 1));
                assert(out.deep_view() =~~= old_out + seq![s@.subrange(start as int, i as int)]);
                assert(old_out + (seq![s@.subrange(start as int, i as int)] + spec_split(
                    s@.skip(i + 1),
                    sep,
                )) =~~= out.deep_view() + spec_split(s@.skip(i + 1), sep));
            }
            start = i + 1;
        }
        i = i + 1;
    }
    let ghost old_out = out.deep_view();
    let piece = s.substring_char(start, n).to_owned();
    out.push(piece);
    proof {
        let rem = s@.skip(start as int);
        assert forall|j: int| 0 <= j < rem.len() implies rem[j] != sep by {
            assert(rem[j] == s@[start + j]);
        }
        lemma_split_no_sep(rem, sep);
        assert(rem =~= s@.subrange(start as int, n as int));
        assert(out.deep_view() =~~= old_out + seq![s@.subrange(start as int, n as int)]);
        assert(spec_split(s@, sep) =~~= out.deep_view());
    }
    out
}

/// A line with one trailing carriage return removed, as the backend's line
/// endings require.
pub open spec fn chomp_cr(l: Seq<char>) -> Seq<char> {
    if l.len() > 0 && l.last() == '\r' {
        l.drop_last()
    } else {
        l
    }
}

/// All lines chomped.
pub open spec fn chomp_all(ls: Seq<Seq<char>>) -> Seq<Seq<char>> {
    ls.map_values(|l: Seq<char>| chomp_cr(l))
}

/// The lines of `s`: fields between newlines, each stripped of one carriage
/// return before the newline; a trailing line terminator opens no further
/// line.
pub open spec fn spec_lines(s: Seq<char>) -> Seq<Seq<char>> {
    let parts = spec_split(s, '\n');
    if parts.last().len() == 0 {
        chomp_all(parts.drop_last())
    } else {
        chomp_all(parts.drop_last()).push(parts.last())
    }
}

fn chomp_cr_string(l: &str) -> (r: String)
    ensures
        r@ == chomp_cr(l@),
{
    let n: usize = l.unicode_len();
    if n > 0 && l.get_char(n - 1) == '\r' {
        let r = l.substring_char(0, n - 1).to_owned();
        proof {
            assert(l@.subrange(0, n - 1) =~= l@.drop_last());
        }
        r
    } else {
        l.to_owned()
    }
}

/// The lines of `s`, as owned strings.
pub fn split_lines(s: &str) -> (r: Vec<String>)
    ensures
        r.deep_view() == spec_lines(s@),
{
    let parts = split_char(s, '\n');
    proof {
        lemma_split_nonempty(s@, '\n');
    }
    let k: usize = parts.len();
    let mut out: Vec<String> = Vec::new();
    let mut t: usize = 0;
    let ghost full = spec_split(s@, '\n');
    while t < k - 1
        invariant
            0 <= t <= k - 1,
            k == parts@.len(),
            k >= 1,
            parts.deep_view() == full,
            out.deep_view() == chomp_all(full.take(t as int)),
        decreases k - 1 - t,
    {
        let ghost old_out = out.deep_view();
        let piece = chomp_cr_string(parts[t].as_str());
        out.push(piece);
        proof {
            assert(parts@[t as int]@ == full[t as int]);
            assert(out.deep_view() =~~= old_out.push(chomp_cr(full[t as int])));
            assert(chomp_all(full.take(t + 1)) =~~= chomp_all(full.take(t as int)).push(
                chomp_cr(full[t as int]),
            ));
        }
        t = t + 1;
    }
    proof {
        assert(full.take(k - 1) =~= full.drop_last());
    }
    let last = &parts[k - 1];
    if last.as_str().unicode_len() > 0 {
        let ghost old_out = out.deep_view();
        let piece = last.as_str().to_owned();
        out.push(piece);
        proof {
            assert(parts@[k - 1]@ == full[k - 1]);
            assert(out.deep_view() =~~= old_out.push(full.last()));
        }
    }
    out
}

/// The run of non-blank characters at the start of `s`.
pub open spec fn leading_run(s: Seq<char>) -> Seq<char>
    decreases s.len(),
{
    if s.len() > 0 && !is_blank(s[0]) {
        seq![s[0]] + leading_run(s.drop_first())
    } else {
        Seq::<char>::empty()
    }
}

/// The first whitespace-separated token of `s`, if `s` holds any
/// non-blank character.
pub open spec fn spec_first_token(s: Seq<char>) -> Option<Seq<char>>
    decreases s.len(),
{
    if s.len() == 0 {
        None
    } else if is_blank(s[0]) {
        spec_first_token(s.drop_first())
    } else {
        Some(leading_run(s))
    }
}

proof fn lemma_first_token_none(s: Seq<char>)
    requires
        forall|k: int| 0 <= k < s.len() ==> is_blank(s[k]),
    ensures
        spec_first_token(s) == None::<Seq<char>>,
    decreases s.len(),
{
    if s.len() > 0 {
        let tail = s.drop_first();
        assert forall|k: int| 0 <= k < tail.len() implies is_blank(tail[k]) by {
            assert(tail[k] == s[k + 1]);
        }
        lemma_first_token_none(tail);
    }
}

proof fn lemma_leading_run_take(s: Seq<char>, j: int)
    requires
        0 <= j <= s.len(),
        forall|k: int| 0 <= k < j ==> !is_blank(s[k]),
        j == s.len() || is_blank(s[j]),
    ensures
        leading_run(s) == s.take(j),
    decreases j,
{
    if j == 0 {
        assert(s.take(0) =~= Seq::<char>::empty());
    } else {
        let tail = s.drop_first();
        assert forall|k: int| 0 <= k < j - 1 implies !is_blank(tail[k]) by {
            assert(tail[k] == s[k + 1]);
        }
        if j - 1 < tail.len() {
            assert(tail[j - 1] == s[j]);
        }
        lemma_leading_run_take(tail, j - 1);
        assert(seq![s[0]] + tail.take(j - 1) =~= s.take(j));
    }
}

proof fn lemma_first_token_at(s: Seq<char>, i: int, j: int)
    requires
        0 <= i < s.len(),
        i <= j <= s.len(),
        forall|k: int| 0 <= k < i ==> is_blank(s[k]),
        forall|k: int| i <= k < j ==> !is_blank(s[k]),
        i < j,
        j == s.len() || is_blank(s[j]),
    ensures
        spec_first_token(s) == Some(s.subrange(i, j)),
    decreases i,
{
    if i == 0 {
        lemma_leading_run_take(s, j);
        assert(s.take(j) =~= s.subrange(0, j));
    } else {
        let tail = s.drop_first();
        assert forall|k: int| 0 <= k < i - 1 implies is_blank(tail[k]) by {
            assert(tail[k] == s[k + 1]);
        }
        assert forall|k: int| i - 1 <= k < j - 1 implies !is_blank(tail[k]) by {
            assert(tail[k] == s[k + 1]);
        }
        if j - 1 < tail.len() {
            assert(tail[j - 1] == s[j]);
        }
        lemma_first_token_at(tail, i - 1, j - 1);
        assert(tail.subrange(i - 1, j - 1) =~= s.subrange(i, j));
    }
}

/// The first whitespace-separated token of `s`, if any.
pub fn first_token(s: &str) -> (r: Option<String>)
    ensures
        match r {
            Some(t) => spec_first_token(s@) == Some(t@),
            None => spec_first_token(s@) == None::<Seq<char>>,
        },
{
    let n: usize = s.unicode_len();
    let mut i: usize = 0;
    loop
        invariant
            0 <= i <= n,
            n == s@.len(),
            forall|k: int| 0 <= k < i ==> is_blank(s@[k]),
        ensures
            0 <= i <= n,
            forall|k: int| 0 <= k < i ==> is_blank(s@[k]),
            i == n || !is_blank(s@[i as int]),
        decreases n - i,
    {
        if i < n && blank_char(s.get_char(i)) {
            i = i + 1;
        } else {
            break;
        }
    }
    if i == n {
        proof {
            lemma_first_token_none(s@);
        }
        return None;
    }
    let mut j: usize = i;
    loop
        invariant
            i <= j <= n,
            n == s@.len(),
            forall|k: int| i <= k < j ==> !is_blank(s@[k]),
        ensures
            i <= j <= n,
            forall|k: int| i <= k < j ==> !is_blank(s@[k]),
            j == n || is_blank(s@[j as int]),
        decreases n - j,
    {
        if j < n && !blank_char(s.get_char(j)) {
            j = j + 1;
        } else {
            break;
        }
    }
    let t = s.substring_char(i, j).to_owned();
    proof {
        lemma_first_token_at(s@, i as int, j as int);
    }
    Some(t)
}

/// A decimal digit.
pub open spec fn is_digit(c: char) -> bool {
    48 <= c as u32 <= 57
}

/// The numeric value of a digit character.
pub open spec fn digit_val(c: char) -> nat {
    (c as u32 - 48) as nat
}

/// The value of a digit string, most significant digit first.
pub open spec fn digits_val(s: Seq<char>) -> nat
    decreases s.len(),
{
    if s.len() == 0 {
        0
    } else {
        digits_val(s.drop_last()) * 10 + digit_val(s.last())
    }
}

/// A count token with an optional leading plus sign stripped.
pub open spec fn count_body(s: Seq<char>) -> Seq<char> {
    if s.len() > 0 && s[0] == '+' {
        s.drop_first()
    } else {
        s
    }
}

/// Whether `s` is an unsigned decimal count: an optional plus sign, then
/// one or more digits.
pub open spec fn is_count_token(s: Seq<char>) -> bool {
    count_body(s).len() > 0 && forall|k: int|
        0 <= k < count_body(s).len() ==> is_digit(count_body(s)[k])
}

/// The value a count token denotes.
pub open spec fn count_token_val(s: Seq<char>) -> nat {
    digits_val(count_body(s))
}

/// The count that parsing `s` yields: its value when `s` is a count token
/// that a machine word can hold, and zero on any other input.
pub open spec fn parsed_count(s: Seq<char>) -> nat {
    if is_count_token(s) && count_token_val(s) <= usize::MAX {
        count_token_val(s)
    } else {
        0
    }
}

proof fn lemma_digits_val_grows(s: Seq<char>, m1: int, m2: int)
    requires
        0 <= m1 <= m2 <= s.len(),
    ensures
        digits_val(s.take(m1)) <= digits_val(s.take(m2)),
    decreases m2 - m1,
{
    if m1 < m2 {
        lemma_digits_val_grows(s, m1, m2 - 1);
        assert(s.take(m2).drop_last() =~= s.take(m2 - 1));
        assert(digits_val(s.take(m2 - 1)) * 10 >= digits_val(s.take(m2 - 1)));
    }
}

/// Parse `s` as an unsigned decimal count, yielding zero on any input that
/// is not one or does not fit.
pub fn parse_count(s: &str) -> (r: usize)
    ensures
        r as nat == parsed_count(s@),
{
    let n: usize = s.unicode_len();
    let mut i: usize = 0;
    if n > 0 && s.get_char(0) == '+' {
        i = 1;
    }
    let ghost body = count_body(s@);
    proof {
        if i == 1 {
            assert(s@.drop_first() =~= s@.skip(1));
        } else {
            assert(s@.skip(0) =~= s@);
        }
        assert(body == s@.skip(i as int));
    }
    if i == n {
        return 0;
    }
    let mut acc: usize = 0;
    let mut k: usize = i;
    while k < n
        invariant
            0 <= i <= k <= n,
            n == s@.len(),
            body == count_body(s@),
            body == s@.skip(i as int),
            body.len() == n - i,
            forall|t: int| 0 <= t < k - i ==> is_digit(body[t]),
            acc as nat == digits_val(body.take(k - i)),
        decreases n - k,
    {
        let c = s.get_char(k);
        proof {
            assert(body[k - i] == s@[k as int]);
        }
        let u: u32 = c as u32;
        if u < 48 || u > 57 {
            proof {
                assert(!is_count_token(s@)) by {
                    assert(count_body(s@) == body);
                    assert(0 <= k - i < count_body(s@).len());
                    assert(!is_digit(count_body(s@)[k - i]));
                }
            }
            return 0;
        }
        let d: u32 = u - 48;
        let next: u128 = acc as u128 * 10 + d as u128;
        proof {
            assert(body.take(k - i + 1).drop_last() =~= body.take(k - i));
            assert(body.take(k - i + 1).last() == body[k - i]);
            assert(digit_val(body[k - i]) == d as nat);
            assert(digits_val(body.take(k - i + 1)) == next as nat);
        }
        if next > usize::MAX as u128 {
            proof {
                lemma_digits_val_grows(body, k - i + 1, body.len() as int);
                assert(body.take(body.len() as int) =~= body);
                assert(count_token_val(s@) > usize::MAX) by {
                    assert(count_body(s@) == body);
                    assert(digits_val(body) >= digits_val(body.take(k - i + 1)));
                    assert(digits_val(body.take(k - i + 1)) == next as nat);
                    assert(next as nat > usize::MAX as nat);
                }
            }
            return 0;
        }
        acc = next as usize;
        k = k + 1;
    }
    proof {
        assert(body.take(n - i) =~= body);
    }
    acc
}

/// Whether `pat` occurs in `s` as a contiguous run of characters.
pub open spec fn has_sub(s: Seq<char>, pat: Seq<char>) -> bool {
    exists|k: int| 0 <= k <= s.len() - pat.len() && #[trigger] s.subrange(k, k + pat.len()) == pat
}

fn match_at(s: &str, pat: &str, k: usize, n: usize, m: usize) -> (r: bool)
    requires
        n == s@.len(),
        m == pat@.len(),
        k + m <= n,
    ensures
        r == (s@.subrange(k as int, k + m) == pat@),
{
    let mut j: usize = 0;
    while j < m
        invariant
            0 <= j <= m,
            n == s@.len(),
            m == pat@.len(),
            k + m <= n,
            forall|t: int| 0 <= t < j ==> s@[k + t] == pat@[t],
        decreases m - j,
    {
        if s.get_char(k + j) != pat.get_char(j) {
            assert(s@.subrange(k as int, k + m)[j as int] == s@[k + j]);
            return false;
        }
        j = j + 1;
    }
    assert(s@.subrange(k as int, k + m) =~= pat@);
    true
}

/// Whether `pat` occurs in `s`.
pub fn has_substring(s: &str, pat: &str) -> (r: bool)
    ensures
        r == has_sub(s@, pat@),
{
    let n: usize = s.unicode_len();
    let m: usize = pat.unicode_len();
    if m > n {
        return false;
    }
    let mut k: usize = 0;
    loop
        invariant
            0 <= k <= n - m,
            n == s@.len(),
            m == pat@.len(),
            m <= n,
            forall|t: int| 0 <= t < k ==> #[trigger] s@.subrange(t, t + m) != pat@,
        ensures
            forall|t: int| 0 <= t <= n - m ==> #[trigger] s@.subrange(t, t + m) != pat@,
        decreases n - m - k,
    {
        if match_at(s, pat, k, n, m) {
            return true;
        }
        if k == n - m {
            break;
        }
        k = k + 1;
    }
    false
}

} // verus!
