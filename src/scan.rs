//! The line scanner: a pattern applied to every line of a text.
use crate::highlight::{highlight_match, highlight_of};
use crate::pattern::{Matcher, Pattern};
use vstd::prelude::*;

verus! {

/// The pieces of `t` between line feeds, the last one possibly empty.
pub open spec fn split_at_newlines(t: Seq<char>) -> Seq<Seq<char>>
    decreases t.len(),
{
    if t.len() == 0 {
        seq![seq![]]
    } else {
        let rest = split_at_newlines(t.drop_last());
        if t.last() == '\n' {
            rest.push(seq![])
        } else {
            rest.update(rest.len() - 1, rest.last().push(t.last()))
        }
    }
}

/// The lines of `t`: the pieces between line feeds, without an empty piece
/// after a final line feed (carriage returns are kept as they are).
pub open spec fn lines_of(t: Seq<char>) -> Seq<Seq<char>> {
    let p = split_at_newlines(t);
    if p.last().len() == 0 {
        p.drop_last()
    } else {
        p
    }
}

proof fn lemma_split_nonempty(t: Seq<char>)
    ensures
        split_at_newlines(t).len() >= 1,
    decreases t.len(),
{
    if t.len() > 0 {
        lemma_split_nonempty(t.drop_last());
    }
}

/// Whether a line is reported: it matches, or, inverted, it does not.
pub open spec fn keeps(pat: Pattern, line: Seq<char>, invert: bool) -> bool {
    pat.accepts(line) != invert
}

/// The indices, in order, of the reported lines among the first `n`.
pub open spec fn kept(pat: Pattern, lines: Seq<Seq<char>>, invert: bool, n: int) -> Seq<int>
    decreases n,
{
    if n <= 0 {
        seq![]
    } else {
        let prev = kept(pat, lines, invert, n - 1);
        if keeps(pat, lines[n - 1], invert) {
            prev.push(n - 1)
        } else {
            prev
        }
    }
}

/// The indices of the reported lines of a text.
pub open spec fn kept_lines(pat: Pattern, t: Seq<char>, invert: bool) -> Seq<int> {
    kept(pat, lines_of(t), invert, lines_of(t).len() as int)
}

/// `r` is the report of scanning `t`: the reported lines in order, each with
/// its 1-based number, as they are or, with `highlight`, decorated.
pub open spec fn scanned(
    pat: Pattern,
    t: Seq<char>,
    invert: bool,
    highlight: bool,
    r: Seq<(usize, String)>,
) -> bool {
    let ls = lines_of(t);
    let ks = kept_lines(pat, t, invert);
    &&& r.len() == ks.len()
    &&& forall|k: int| 0 <= k < r.len() ==> (#[trigger] r[k]).0 == ks[k] + 1
    &&& forall|k: int|
        0 <= k < r.len() ==> if highlight {
            highlight_of(pat, ls[ks[k]], (#[trigger] r[k]).1@)
        } else {
            (#[trigger] r[k]).1@ == ls[ks[k]]
        }
}

/// Relies on `str::split` at `'\n'`: the pieces between line feeds, the
/// last one empty when the text ends with a line feed (or is empty).
#[verifier::external_body]
fn split_newlines(s: &str) -> (r: Vec<String>)
    ensures
        r@.map_values(|l: String| l@) == split_at_newlines(s@),
{
    s.split('\n').map(|l| l.to_owned()).collect()
}

/// The reported lines of `contents`, each with its 1-based line number, in
/// order: the line itself, or with its match spans decorated when
/// `highlight` is set.
pub fn process_lines(query: &Pattern, contents: &str, invert: bool, highlight: bool) -> (r: Vec<
    (usize, String),
>)
    ensures
        scanned(*query, contents@, invert, highlight, r@),
{
    let lines = split_newlines(contents);
    let ghost ls = lines_of(contents@);
    proof {
        lemma_split_nonempty(contents@);
        assert(lines@.map_values(|l: String| l@).len() == lines@.len());
    }
    let n = lines.len();
    let count = if lines[n - 1].as_str().is_empty() {
        n - 1
    } else {
        n
    };
    proof {
        assert(lines@.map_values(|l: String| l@)[n - 1] == lines@[n - 1]@);
        assert(ls.len() == count);
        assert forall|j: int| 0 <= j < count implies ls[j] == (#[trigger] lines@[j])@ by {
            assert(lines@.map_values(|l: String| l@)[j] == lines@[j]@);
        }
    }
    let mut out: Vec<(usize, String)> = Vec::new();
    let mut i: usize = 0;
    while i < count
        invariant
            ls == lines_of(contents@),
            count == ls.len(),
            count <= lines@.len(),
            forall|j: int| 0 <= j < count ==> ls[j] == (#[trigger] lines@[j])@,
            i <= count,
            out@.len() == kept(*query, ls, invert, i as int).len(),
            forall|k: int|
                0 <= k < out@.len() ==> (#[trigger] out@[k]).0 == kept(*query, ls, invert, i as int)[k]
                    + 1,
            forall|k: int|
                0 <= k < out@.len() ==> if highlight {
                    highlight_of(
                        *query,
                        ls[kept(*query, ls, invert, i as int)[k]],
                        (#[trigger] out@[k]).1@,
                    )
                } else {
                    (#[trigger] out@[k]).1@ == ls[kept(*query, ls, invert, i as int)[k]]
                },
        decreases count - i,
    {
        let line = lines[i].as_str();
        assert(line@ == ls[i as int]);
        let matched = query.matches_query(line);
        if matched != invert {
            let text = if highlight {
                highlight_match(line, query)
            } else {
                line.to_owned()
            };
            out.push((i + 1, text));
        }
        i += 1;
    }
    out
}

/// Splitting a text's reported lines by inversion: every line is reported
/// exactly once, either without inversion or with it.
pub proof fn lemma_invert_partitions_lines(pat: Pattern, t: Seq<char>)
    ensures
        forall|i: int|
            0 <= i < lines_of(t).len() ==> (kept_lines(pat, t, false).contains(i)
                <==> !kept_lines(pat, t, true).contains(i)),
        forall|i: int|
            kept_lines(pat, t, false).contains(i) || kept_lines(pat, t, true).contains(i) ==> 0
                <= i < lines_of(t).len(),
        kept_lines(pat, t, false).len() + kept_lines(pat, t, true).len() == lines_of(t).len(),
{
    lemma_kept_partition(pat, lines_of(t), lines_of(t).len() as int);
}

proof fn lemma_kept_partition(pat: Pattern, lines: Seq<Seq<char>>, n: int)
    requires
        n >= 0,
    ensures
        forall|i: int|
            0 <= i < n ==> (kept(pat, lines, false, n).contains(i) <==> !kept(
                pat,
                lines,
                true,
                n,
            ).contains(i)),
        forall|i: int|
            kept(pat, lines, false, n).contains(i) || kept(pat, lines, true, n).contains(i) ==> 0
                <= i < n,
        kept(pat, lines, false, n).len() + kept(pat, lines, true, n).len() == n,
    decreases n,
{
    if n > 0 {
        lemma_kept_partition(pat, lines, n - 1);
        let f0 = kept(pat, lines, false, n - 1);
        let t0 = kept(pat, lines, true, n - 1);
        let f1 = kept(pat, lines, false, n);
        let t1 = kept(pat, lines, true, n);
        assert forall|i: int| f1.contains(i) || t1.contains(i) implies 0 <= i < n by {
            if f1.contains(i) && !f0.contains(i) {
                let j = choose|j: int| 0 <= j < f1.len() && f1[j] == i;
                assert(j == f0.len());
            }
            if t1.contains(i) && !t0.contains(i) {
                let j = choose|j: int| 0 <= j < t1.len() && t1[j] == i;
                assert(j == t0.len());
            }
            if f0.contains(i) {
                let j = choose|j: int| 0 <= j < f0.len() && f0[j] == i;
                assert(f1[j] == i);
            }
            if t0.contains(i) {
                let j = choose|j: int| 0 <= j < t0.len() && t0[j] == i;
                assert(t1[j] == i);
            }
        }
        assert forall|i: int| 0 <= i < n implies (f1.contains(i) <==> !t1.contains(i)) by {
            if keeps(pat, lines[n - 1], false) {
                assert(f1[f0.len() as int] == n - 1);
            } else {
                assert(t1[t0.len() as int] == n - 1);
            }
            if i < n - 1 {
                if f1.contains(i) {
                    let j = choose|j: int| 0 <= j < f1.len() && f1[j] == i;
                    if j < f0.len() {
                        assert(f0.contains(i));
                    }
                }
                if t1.contains(i) {
                    let j = choose|j: int| 0 <= j < t1.len() && t1[j] == i;
                    if j < t0.len() {
                        assert(t0.contains(i));
                    }
                }
                if f0.contains(i) {
                    let j = choose|j: int| 0 <= j < f0.len() && f0[j] == i;
                    assert(f1[j] == i);
                }
                if t0.contains(i) {
                    let j = choose|j: int| 0 <= j < t0.len() && t0[j] == i;
                    assert(t1[j] == i);
                }
            } else {
                if !keeps(pat, lines[n - 1], false) {
                    if f1.contains(i) {
                        assert(f0.contains(i));
                    }
                } else {
                    if t1.contains(i) {
                        assert(t0.contains(i));
                    }
                }
            }
        }
    }
}

} // verus!
