//! The scanner: one forward pass over the lines of the file, emitting a
//! rendered record for every line that matches the query.

use vstd::prelude::*;
use vstd::string::StringExecFns;

use crate::config::Config;
use crate::matching::line_matches;
use crate::matching::line_matches_exec;
use crate::render::format_record;
use crate::render::record_str;

verus! {

/// The full scanner output for the given query, case policy and line
/// sequence: the rendered records of all matching lines, in file order,
/// concatenated. Line numbers are 1-based positions in `lines`.
pub open spec fn scan_spec(query: Seq<char>, ignore_case: bool, lines: Seq<Seq<char>>) -> Seq<
    char,
>
    decreases lines.len(),
{
    if lines.len() == 0 {
        Seq::empty()
    } else {
        scan_spec(query, ignore_case, lines.drop_last()) + (if line_matches(
            lines.last(),
            query,
            ignore_case,
        ) {
            record_str(lines.len() as nat, lines.last())
        } else {
            Seq::empty()
        })
    }
}

/// The scanner output as a sequence of rendered records, one per matching
/// line, in file order.
pub open spec fn scan_records(query: Seq<char>, ignore_case: bool, lines: Seq<Seq<char>>) -> Seq<
    Seq<char>,
>
    decreases lines.len(),
{
    if lines.len() == 0 {
        Seq::empty()
    } else {
        scan_records(query, ignore_case, lines.drop_last()) + (if line_matches(
            lines.last(),
            query,
            ignore_case,
        ) {
            seq![record_str(lines.len() as nat, lines.last())]
        } else {
            Seq::empty()
        })
    }
}

/// The 0-based indices of the matching lines, in file order.
pub open spec fn matching_indices(query: Seq<char>, ignore_case: bool, lines: Seq<Seq<char>>) -> Seq<
    int,
>
    decreases lines.len(),
{
    if lines.len() == 0 {
        Seq::empty()
    } else {
        matching_indices(query, ignore_case, lines.drop_last()) + (if line_matches(
            lines.last(),
            query,
            ignore_case,
        ) {
            seq![lines.len() - 1]
        } else {
            Seq::empty()
        })
    }
}

/// Scanning is deterministic: two scans with the same query, case policy
/// and line sequence produce identical output. `grep` pins its result to
/// `scan_spec`, so two calls on an unchanged file agree.
pub proof fn lemma_scan_deterministic(
    query: Seq<char>,
    ignore_case: bool,
    lines: Seq<Seq<char>>,
    out1: Seq<char>,
    out2: Seq<char>,
)
    requires
        out1 == scan_spec(query, ignore_case, lines),
        out2 == scan_spec(query, ignore_case, lines),
    ensures
        out1 == out2,
{
}

/// Every matching index points into `lines`.
pub proof fn lemma_matching_indices_in_range(
    query: Seq<char>,
    ignore_case: bool,
    lines: Seq<Seq<char>>,
)
    ensures
        forall|k: int|
            0 <= k < matching_indices(query, ignore_case, lines).len() ==> 0 <= #[trigger] matching_indices(
                query,
                ignore_case,
                lines,
            )[k] < lines.len(),
    decreases lines.len(),
{
    if lines.len() > 0 {
        let ld = lines.drop_last();
        lemma_matching_indices_in_range(query, ignore_case, ld);
        let mi_ld = matching_indices(query, ignore_case, ld);
        let mi = matching_indices(query, ignore_case, lines);
        assert forall|k: int| 0 <= k < mi.len() implies 0 <= #[trigger] mi[k] < lines.len() by {
            if k < mi_ld.len() {
                assert(mi[k] == mi_ld[k]);
            } else {
                assert(mi[k] == lines.len() - 1);
            }
        }
    }
}

/// Order preservation: the records come out in file order. The k-th output
/// record is the rendering of the k-th matching line; the matching indices
/// are strictly increasing, every one designates a matching line, and every
/// matching line is designated.
pub proof fn lemma_scan_order(query: Seq<char>, ignore_case: bool, lines: Seq<Seq<char>>)
    ensures
        matching_indices(query, ignore_case, lines).len() == scan_records(
            query,
            ignore_case,
            lines,
        ).len(),
        forall|a: int, b: int|
            0 <= a < b < matching_indices(query, ignore_case, lines).len() ==> matching_indices(
                query,
                ignore_case,
                lines,
            )[a] < matching_indices(query, ignore_case, lines)[b],
        forall|k: int|
            0 <= k < matching_indices(query, ignore_case, lines).len() ==> {
                &&& 0 <= #[trigger] matching_indices(query, ignore_case, lines)[k] < lines.len()
                &&& line_matches(
                    lines[matching_indices(query, ignore_case, lines)[k]],
                    query,
                    ignore_case,
                )
                &&& scan_records(query, ignore_case, lines)[k] == record_str(
                    (matching_indices(query, ignore_case, lines)[k] + 1) as nat,
                    lines[matching_indices(query, ignore_case, lines)[k]],
                )
            },
        forall|i: int|
            0 <= i < lines.len() && line_matches(lines[i], query, ignore_case)
                ==> matching_indices(query, ignore_case, lines).contains(i),
    decreases lines.len(),
{
    if lines.len() > 0 {
        let ld = lines.drop_last();
        lemma_scan_order(query, ignore_case, ld);
        lemma_matching_indices_in_range(query, ignore_case, ld);
        let mi_ld = matching_indices(query, ignore_case, ld);
        let mi = matching_indices(query, ignore_case, lines);
        assert forall|i: int|
            0 <= i < lines.len() && line_matches(lines[i], query, ignore_case) implies mi.contains(
            i,
        ) by {
            if i < lines.len() - 1 {
                assert(ld[i] == lines[i]);
                assert(mi_ld.contains(i));
                let k = choose|k: int| 0 <= k < mi_ld.len() && mi_ld[k] == i;
                assert(mi[k] == i);
            } else {
                assert(mi.last() == i);
            }
        }
    }
}

/// Boundary behaviour: when every line matches, the scan emits one record
/// per line, numbered consecutively from 1.
pub proof fn lemma_scan_all_match(query: Seq<char>, ignore_case: bool, lines: Seq<Seq<char>>)
    requires
        forall|i: int| 0 <= i < lines.len() ==> line_matches(lines[i], query, ignore_case),
    ensures
        scan_records(query, ignore_case, lines).len() == lines.len(),
        forall|i: int|
            0 <= i < lines.len() ==> scan_records(query, ignore_case, lines)[i] == record_str(
                (i + 1) as nat,
                lines[i],
            ),
    decreases lines.len(),
{
    if lines.len() > 0 {
        let ld = lines.drop_last();
        assert(forall|i: int| 0 <= i < ld.len() ==> ld[i] == lines[i]);
        lemma_scan_all_match(query, ignore_case, ld);
    }
}

/// The full scanner output is exactly the concatenation, in order, of the
/// rendered records of the matching lines.
pub proof fn lemma_scan_spec_concat(query: Seq<char>, ignore_case: bool, lines: Seq<Seq<char>>)
    ensures
        scan_spec(query, ignore_case, lines) == scan_records(
            query,
            ignore_case,
            lines,
        ).flatten_alt(),
    decreases lines.len(),
{
    if lines.len() == 0 {
        assert(scan_records(query, ignore_case, lines).flatten_alt() =~= Seq::<char>::empty());
    } else {
        let ld = lines.drop_last();
        lemma_scan_spec_concat(query, ignore_case, ld);
        let recs_ld = scan_records(query, ignore_case, ld);
        if line_matches(lines.last(), query, ignore_case) {
            let r = record_str(lines.len() as nat, lines.last());
            let recs = recs_ld + seq![r];
            assert(recs.drop_last() =~= recs_ld);
            assert(recs.flatten_alt() == recs.drop_last().flatten_alt() + recs.last());
        } else {
            assert(recs_ld + Seq::<Seq<char>>::empty() =~= recs_ld);
            assert(scan_spec(query, ignore_case, lines) =~= scan_spec(query, ignore_case, ld));
        }
    }
}

/// Scans the given lines with the given configuration and returns the full
/// rendered output: for every line containing the query (lowercasing both
/// sides first when `ignore_case` is set), the record
/// `[LINHA <n>]: <line>` with its 1-based line number, in file order.
pub fn grep(config: &Config, lines: &Vec<String>) -> (out: String)
    ensures
        out@ == scan_spec(config.query@, config.ignore_case, lines.deep_view()),
{
    let ghost lv: Seq<Seq<char>> = lines.deep_view();
    let mut out = String::new();
    let n = lines.len();
    let mut i: usize = 0;
    while i < n
        invariant
            n == lines.len(),
            lv == lines.deep_view(),
            i <= n,
            out@ == scan_spec(config.query@, config.ignore_case, lv.take(i as int)),
        decreases n - i,
    {
        let line: &String = &lines[i];
        proof {
            assert(lv[i as int] == line@);
            assert(lv.take(i + 1).drop_last() =~= lv.take(i as int));
            assert(lv.take(i + 1).last() == lv[i as int]);
        }
        if line_matches_exec(line.as_str(), config.query.as_str(), config.ignore_case) {
            let record = format_record((i + 1) as u64, line.as_str());
            out.append(record.as_str());
        }
        i += 1;
    }
    proof {
        assert(lv.take(n as int) =~= lv);
    }
    out
}

} // verus!
