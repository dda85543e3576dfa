//! The matching predicate: substring containment, with optional
//! case-insensitivity via lowercasing both sides.

use vstd::prelude::*;
use vstd::string::StrSliceExecFns;

verus! {

/// The query occurs in `text` starting at character position `i`.
pub open spec fn match_at(text: Seq<char>, pat: Seq<char>, i: int) -> bool {
    0 <= i && i + pat.len() <= text.len() && text.subrange(i, i + pat.len()) == pat
}

/// `pat` occurs somewhere in `text` as a contiguous substring.
pub open spec fn contains_substring(text: Seq<char>, pat: Seq<char>) -> bool {
    exists|i: int| match_at(text, pat, i)
}

/// The lowercase equivalent of a character sequence, as the standard
/// library's locale-independent lowercase mapping produces it.
pub uninterp spec fn lower_of(s: Seq<char>) -> Seq<char>;

/// Relies on `str::to_lowercase`: the result is the lowercase equivalent of
/// the input and depends on the input's characters alone.
#[verifier::external_body]
fn to_lower(s: &str) -> (r: String)
    ensures
        r@ == lower_of(s@),
{
    s.to_lowercase()
}

/// A line matches a query: plain substring containment when case matters,
/// containment of the lowercased query in the lowercased line otherwise.
pub open spec fn line_matches(line: Seq<char>, query: Seq<char>, ignore_case: bool) -> bool {
    if ignore_case {
        contains_substring(lower_of(line), lower_of(query))
    } else {
        contains_substring(line, query)
    }
}

/// Whether `pat` occurs in `text` starting exactly at character position `i`.
fn match_at_exec(text: &str, pat: &str, i: usize, m: usize) -> (r: bool)
    requires
        m == pat@.len(),
        i + m <= text@.len(),
        i + m <= usize::MAX,
    ensures
        r == match_at(text@, pat@, i as int),
{
    let mut j: usize = 0;
    while j < m
        invariant
            m == pat@.len(),
            i + m <= text@.len(),
            i + m <= usize::MAX,
            j <= m,
            forall|k: int| 0 <= k < j ==> text@[i + k] == pat@[k],
        decreases m - j,
    {
        if text.get_char(i + j) != pat.get_char(j) {
            proof {
                assert(text@.subrange(i as int, i + m as int)[j as int] == text@[i + j]);
            }
            return false;
        }
        j += 1;
    }
    proof {
        assert(text@.subrange(i as int, i + m as int) =~= pat@);
    }
    true
}

/// Decides substring containment of `pat` in `text`.
pub fn contains_str(text: &str, pat: &str) -> (r: bool)
    ensures
        r == contains_substring(text@, pat@),
{
    let n = text.unicode_len();
    let m = pat.unicode_len();
    if m > n {
        proof {
            assert forall|k: int| !match_at(text@, pat@, k) by {}
        }
        return false;
    }
    let mut i: usize = 0;
    while i < n - m
        invariant
            n == text@.len(),
            m == pat@.len(),
            m <= n,
            i <= n - m,
            forall|k: int| 0 <= k < i ==> !match_at(text@, pat@, k),
        decreases n - m - i,
    {
        if match_at_exec(text, pat, i, m) {
            proof {
                assert(match_at(text@, pat@, i as int));
            }
            return true;
        }
        i += 1;
    }
    if match_at_exec(text, pat, i, m) {
        proof {
            assert(match_at(text@, pat@, i as int));
        }
        return true;
    }
    proof {
        assert forall|k: int| !match_at(text@, pat@, k) by {
            if 0 <= k <= n - m {
                assert(!match_at(text@, pat@, k));
            }
        }
    }
    false
}

/// Decides whether a line matches the query under the given case policy.
pub fn line_matches_exec(line: &str, query: &str, ignore_case: bool) -> (r: bool)
    ensures
        r == line_matches(line@, query@, ignore_case),
{
    if ignore_case {
        let lowered_line = to_lower(line);
        let lowered_query = to_lower(query);
        contains_str(lowered_line.as_str(), lowered_query.as_str())
    } else {
        contains_str(line, query)
    }
}

} // verus!
