//! Decoration of the match spans of a line.
use crate::pattern::{
    automaton_find_spans, automaton_unanchored, int_spans, regex_find_spans, spans_ordered,
    Matcher, Pattern,
};
use colored::Colorize;
use vstd::prelude::*;
use vstd::string::StringSliceAdditionalSpecFns;
use vstd::utf8::*;

verus! {

/// The escape that opens the highlight style (bold, underlined, red).
pub open spec fn style_open() -> Seq<char> {
    seq!['\x1b', '[', '1', ';', '4', ';', '3', '1', 'm']
}

/// The escape that resets all styles.
pub open spec fn style_reset() -> Seq<char> {
    seq!['\x1b', '[', '0', 'm']
}

/// `s` with the opening escape repeated after every reset escape in it, so
/// that the style goes on past an inner reset.
pub open spec fn escape_resets(s: Seq<char>) -> Seq<char>
    decreases s.len(),
{
    if s.len() == 0 {
        seq![]
    } else if s.len() >= 4 && s.take(4) == style_reset() {
        style_reset() + style_open() + escape_resets(s.skip(4))
    } else {
        seq![s[0]] + escape_resets(s.skip(1))
    }
}

/// `s` in the highlight style.
pub open spec fn styled(s: Seq<char>) -> Seq<char> {
    style_open() + escape_resets(s) + style_reset()
}

/// `out` is a decoration of `s`: `s` itself when colors are off, `s` in the
/// highlight style otherwise.
pub open spec fn decorated_as(out: Seq<char>, s: Seq<char>) -> bool {
    out == s || out == styled(s)
}

/// The text of the bytes `b[from..to]`.
pub open spec fn piece(b: Seq<u8>, from: int, to: int) -> Seq<char> {
    decode_utf8(b.subrange(from, to))
}

/// Where the text after span `k - 1` starts.
pub open spec fn end_before(spans: Seq<(int, int)>, k: int) -> int {
    if k <= 0 {
        0
    } else {
        spans[k - 1].1
    }
}

/// The text up to the end of span `k - 1`, span `j` replaced by `d[j]`.
pub open spec fn woven(b: Seq<u8>, spans: Seq<(int, int)>, d: Seq<Seq<char>>, k: int) -> Seq<
    char,
>
    decreases k,
{
    if k <= 0 {
        seq![]
    } else {
        woven(b, spans, d, k - 1) + piece(b, end_before(spans, k - 1), spans[k - 1].0) + d[k - 1]
    }
}

/// Every span starts and ends on a character boundary.
pub open spec fn on_boundaries(b: Seq<u8>, spans: Seq<(int, int)>) -> bool {
    forall|k: int|
        0 <= k < spans.len() ==> is_char_boundary(b, (#[trigger] spans[k]).0)
            && is_char_boundary(b, spans[k].1)
}

/// `d` decorates each span of `b`.
pub open spec fn decorations(b: Seq<u8>, spans: Seq<(int, int)>, d: Seq<Seq<char>>) -> bool {
    d.len() == spans.len() && forall|k: int|
        0 <= k < spans.len() ==> decorated_as(#[trigger] d[k], piece(b, spans[k].0, spans[k].1))
}

/// `out` is the text of `b` with each span decorated and the rest unchanged.
pub open spec fn highlighted(b: Seq<u8>, spans: Seq<(int, int)>, out: Seq<char>) -> bool {
    exists|d: Seq<Seq<char>>|
        #[trigger] decorations(b, spans, d) && out == woven(b, spans, d, spans.len() as int)
            + piece(b, end_before(spans, spans.len() as int), b.len() as int)
}

/// What highlighting `line` with `pat` gives: the line with every match span
/// decorated, or the line unchanged where a span splits a character; a line
/// without a match comes back unchanged.
pub open spec fn highlight_of(pat: Pattern, line: Seq<char>, out: Seq<char>) -> bool {
    &&& if on_boundaries(encode_utf8(line), pat.spans(line)) {
        highlighted(encode_utf8(line), pat.spans(line), out)
    } else {
        out == line
    }
    &&& !pat.accepts(line) ==> out == line
}

/// Relies on colored's `red`, `underline`, `bold` and its `Display`: the text
/// as it is when colors are off, else wrapped in the style's escapes, with
/// the opening escape inserted after each inner reset escape.
#[verifier::external_body]
fn decorate(s: &str) -> (r: String)
    ensures
        decorated_as(r@, s@),
{
    s.red().underline().bold().to_string()
}

proof fn lemma_boundary_in_tail(b: Seq<u8>, a: int, i: int)
    requires
        valid_utf8(b),
        is_char_boundary(b, a),
        is_char_boundary(b, i),
        0 <= a <= i <= b.len(),
    ensures
        valid_utf8(b.subrange(a, b.len() as int)),
        is_char_boundary(b.subrange(a, b.len() as int), i - a),
{
    let t = b.subrange(a, b.len() as int);
    valid_utf8_split(b, a);
    is_char_boundary_start_end_of_seq(t);
    if a < i < b.len() {
        is_char_boundary_iff_not_is_continuation_byte(b, i);
        is_char_boundary_iff_not_is_continuation_byte(t, i - a);
        assert(t[i - a] == b[i]);
    }
    if i == b.len() {
        assert(i - a == t.len());
    }
}

/// Whether every span lies on character boundaries of `line`.
fn spans_fit(line: &str, spans: &Vec<(usize, usize)>) -> (r: bool)
    ensures
        r == on_boundaries(line.spec_bytes(), int_spans(spans@)),
{
    let mut k: usize = 0;
    while k < spans.len()
        invariant
            k <= spans@.len(),
            on_boundaries(line.spec_bytes(), int_spans(spans@.take(k as int))),
        decreases spans@.len() - k,
    {
        let (s, e) = spans[k];
        if !line.is_char_boundary(s) || !line.is_char_boundary(e) {
            assert(int_spans(spans@)[k as int] == (s as int, e as int));
            return false;
        }
        proof {
            let nxt = int_spans(spans@.take(k + 1));
            let prv = int_spans(spans@.take(k as int));
            assert forall|j: int| 0 <= j < nxt.len() implies is_char_boundary(
                line.spec_bytes(),
                (#[trigger] nxt[j]).0,
            ) && is_char_boundary(line.spec_bytes(), nxt[j].1) by {
                if j < k {
                    assert(nxt[j] == prv[j]);
                }
            }
        }
        k += 1;
    }
    assert(spans@.take(k as int) =~= spans@);
    true
}

/// The views of some strings.
pub open spec fn views(v: Seq<String>) -> Seq<Seq<char>> {
    v.map_values(|s: String| s@)
}

/// `line` with span `k` replaced by `decorated[k]` and the text between and
/// around the spans kept; the spans are ordered and on character boundaries.
pub fn weave(line: &str, spans: &Vec<(usize, usize)>, decorated: &Vec<String>) -> (r: String)
    requires
        spans_ordered(int_spans(spans@), line.spec_bytes().len() as int),
        on_boundaries(line.spec_bytes(), int_spans(spans@)),
        decorated@.len() == spans@.len(),
    ensures
        r@ == woven(line.spec_bytes(), int_spans(spans@), views(decorated@), spans@.len() as int)
            + piece(
            line.spec_bytes(),
            end_before(int_spans(spans@), spans@.len() as int),
            line.spec_bytes().len() as int,
        ),
{
    let ghost b = line.spec_bytes();
    let ghost sp = int_spans(spans@);
    let ghost dv = views(decorated@);
    let mut out = String::new();
    let mut rest: &str = line;
    let mut last: usize = 0;
    let mut k: usize = 0;
    proof {
        encode_utf8_valid_utf8(line@);
        assert(b.subrange(0, b.len() as int) =~= b);
    }
    while k < spans.len()
        invariant
            b == line.spec_bytes(),
            sp == int_spans(spans@),
            dv == views(decorated@),
            decorated@.len() == spans@.len(),
            valid_utf8(b),
            spans_ordered(sp, b.len() as int),
            on_boundaries(b, sp),
            k <= spans@.len(),
            last as int == end_before(sp, k as int),
            is_char_boundary(b, last as int),
            last <= b.len(),
            rest.spec_bytes() == b.subrange(last as int, b.len() as int),
            out@ == woven(b, sp, dv, k as int),
        decreases spans@.len() - k,
    {
        let (s, e) = spans[k];
        proof {
            assert(sp[k as int] == (s as int, e as int));
            if k > 0 {
                assert(sp[k - 1].1 <= sp[k as int].0);
            }
            lemma_boundary_in_tail(b, last as int, s as int);
            lemma_boundary_in_tail(b, last as int, e as int);
        }
        let (before, tail) = rest.split_at(s - last);
        proof {
            let t = b.subrange(last as int, b.len() as int);
            assert(tail.spec_bytes() =~= b.subrange(s as int, b.len() as int));
            assert(t.subrange(0, s - last) =~= b.subrange(last as int, s as int));
            encode_utf8_decode_utf8(before@);
            valid_utf8_split(b, s as int);
            assert(is_char_boundary(b.subrange(s as int, b.len() as int), e - s)) by {
                lemma_boundary_in_tail(b, s as int, e as int);
            }
        }
        let (_, after) = tail.split_at(e - s);
        proof {
            assert(after.spec_bytes() =~= b.subrange(e as int, b.len() as int));
            assert(dv[k as int] == decorated@[k as int]@);
        }
        out.append(before);
        out.append(decorated[k].as_str());
        rest = after;
        last = e;
        k += 1;
    }
    proof {
        encode_utf8_decode_utf8(rest@);
    }
    out.append(rest);
    out
}

/// colored's decoration of the text of each span.
fn decorate_spans(line: &str, spans: &Vec<(usize, usize)>) -> (r: Vec<String>)
    requires
        spans_ordered(int_spans(spans@), line.spec_bytes().len() as int),
        on_boundaries(line.spec_bytes(), int_spans(spans@)),
    ensures
        decorations(line.spec_bytes(), int_spans(spans@), views(r@)),
{
    let ghost b = line.spec_bytes();
    let ghost sp = int_spans(spans@);
    let mut r: Vec<String> = Vec::new();
    let mut k: usize = 0;
    proof {
        encode_utf8_valid_utf8(line@);
        is_char_boundary_start_end_of_seq(b);
        assert(b.subrange(0, b.len() as int) =~= b);
    }
    while k < spans.len()
        invariant
            b == line.spec_bytes(),
            sp == int_spans(spans@),
            valid_utf8(b),
            is_char_boundary(b, 0),
            b.subrange(0, b.len() as int) == b,
            spans_ordered(sp, b.len() as int),
            on_boundaries(b, sp),
            k <= spans@.len(),
            r@.len() == k,
            forall|j: int|
                0 <= j < k ==> decorated_as(#[trigger] r@[j]@, piece(b, sp[j].0, sp[j].1)),
        decreases spans@.len() - k,
    {
        let (s, e) = spans[k];
        proof {
            assert(sp[k as int] == (s as int, e as int));
            lemma_boundary_in_tail(b, 0, s as int);
        }
        let (_, tail) = line.split_at(s);
        proof {
            assert(tail.spec_bytes() =~= b.subrange(s as int, b.len() as int));
            lemma_boundary_in_tail(b, s as int, e as int);
        }
        let (m, _) = tail.split_at(e - s);
        proof {
            assert(m.spec_bytes() =~= b.subrange(s as int, e as int));
            encode_utf8_decode_utf8(m@);
        }
        let dm = decorate(m);
        r.push(dm);
        k += 1;
    }
    proof {
        let dv = views(r@);
        assert forall|j: int| 0 <= j < spans@.len() implies decorated_as(
            #[trigger] dv[j],
            piece(b, sp[j].0, sp[j].1),
        ) by {
            assert(dv[j] == r@[j]@);
        }
    }
    r
}

/// The spans that highlighting decorates in `line`.
fn find_spans(pat: &Pattern, line: &str) -> (r: Vec<(usize, usize)>)
    ensures
        int_spans(r@) == pat.spans(line@),
        spans_ordered(int_spans(r@), line.spec_bytes().len() as int),
        r@.len() == 0 <==> !pat.accepts(line@),
{
    match pat {
        Pattern::Literal { pattern, .. } | Pattern::MultipleLiteral { pattern, .. } => {
            if automaton_unanchored(pattern) {
                automaton_find_spans(pattern, line)
            } else {
                Vec::new()
            }
        },
        Pattern::Regex(re) => regex_find_spans(re, line),
    }
}

/// Decorates every match span of `line`; a line with no match comes back
/// unchanged.
pub fn highlight_match(line: &str, pat: &Pattern) -> (r: String)
    ensures
        highlight_of(*pat, line@, r@),
{
    let spans = find_spans(pat, line);
    if spans_fit(line, &spans) {
        let decorated = decorate_spans(line, &spans);
        let r = weave(line, &spans, &decorated);
        proof {
            let b = line.spec_bytes();
            let sp = int_spans(spans@);
            assert(decorations(b, sp, views(decorated@)));
            if spans@.len() == 0 {
                assert(b.subrange(0, b.len() as int) =~= b);
                encode_utf8_decode_utf8(line@);
                assert(r@ =~= line@);
            }
        }
        r
    } else {
        line.to_owned()
    }
}

/// A line in which the pattern finds no match, or no match span, comes out
/// of highlighting unchanged.
pub proof fn lemma_highlight_without_match(pat: Pattern, line: Seq<char>, out: Seq<char>)
    requires
        !pat.accepts(line) || pat.spans(line).len() == 0,
        highlight_of(pat, line, out),
    ensures
        out == line,
{
    let b = encode_utf8(line);
    let sp = pat.spans(line);
    let d = choose|d: Seq<Seq<char>>|
        #[trigger] decorations(b, sp, d) && out == woven(b, sp, d, sp.len() as int) + piece(
            b,
            end_before(sp, sp.len() as int),
            b.len() as int,
        );
    assert(b.subrange(0, b.len() as int) =~= b);
    encode_utf8_decode_utf8(line);
    assert(out =~= line);
}

} // verus!
