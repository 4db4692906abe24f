//! The pattern matcher: one capability over three kinds of matcher.
use aho_corasick::{AhoCorasick, AhoCorasickBuilder, StartKind};
use regex::{Regex, RegexBuilder};
use vstd::prelude::*;
use vstd::string::StringSliceAdditionalSpecFns;

verus! {

#[verifier::external_type_specification]
#[verifier::external_body]
pub struct ExAhoCorasick(AhoCorasick);

#[verifier::external_type_specification]
#[verifier::external_body]
pub struct ExRegex(Regex);

#[verifier::external_type_specification]
#[verifier::external_body]
pub struct ExBuildError(aho_corasick::BuildError);

#[verifier::external_type_specification]
#[verifier::external_body]
pub struct ExRegexError(regex::Error);

/// The literal strings an automaton was built from, in the order given.
pub uninterp spec fn automaton_needles(a: AhoCorasick) -> Seq<Seq<char>>;

/// Whether an automaton was built to ignore ASCII case.
pub uninterp spec fn automaton_folds_case(a: AhoCorasick) -> bool;

/// Whether an automaton can search for needles anywhere in a text (it was
/// not built for anchored searches only).
pub uninterp spec fn automaton_searches_anywhere(a: AhoCorasick) -> bool;

/// The byte spans that an automaton reports on a text.
pub uninterp spec fn automaton_spans(a: AhoCorasick, t: Seq<char>) -> Seq<(int, int)>;

/// Whether an automaton can be built from the given strings, with or
/// without ASCII case folding.
pub uninterp spec fn automaton_builds(needles: Seq<Seq<char>>, fold: bool) -> bool;

/// Whether a regular expression source compiles, with or without case folding.
pub uninterp spec fn regex_compiles(source: Seq<char>, fold: bool) -> bool;

/// The source a regular expression was compiled from.
pub uninterp spec fn regex_source_of(r: Regex) -> Seq<char>;

/// Whether a regular expression was compiled to ignore case.
pub uninterp spec fn regex_folds_case(r: Regex) -> bool;

/// Whether a regular expression matches somewhere in a text.
pub uninterp spec fn regex_accepts(r: Regex, t: Seq<char>) -> bool;

/// The byte spans of the successive matches of a regular expression on a text.
pub uninterp spec fn regex_spans(r: Regex, t: Seq<char>) -> Seq<(int, int)>;

/// The character code of `c` with ASCII upper case letters mapped to lower case.
pub open spec fn ascii_lower(c: char) -> int {
    if 65 <= c as u32 <= 90 {
        c as u32 + 32
    } else {
        c as u32 as int
    }
}

/// Two characters are equal, up to ASCII case where `fold` is set.
pub open spec fn char_matches(a: char, b: char, fold: bool) -> bool {
    a == b || (fold && ascii_lower(a) == ascii_lower(b))
}

/// `p` occurs in `t` starting at position `i`.
pub open spec fn occurs_at(t: Seq<char>, p: Seq<char>, i: int, fold: bool) -> bool {
    0 <= i && i + p.len() <= t.len() && forall|j: int|
        0 <= j < p.len() ==> #[trigger] char_matches(t[i + j], p[j], fold)
}

/// `t` holds `p` as a contiguous piece.
pub open spec fn contains(t: Seq<char>, p: Seq<char>, fold: bool) -> bool {
    exists|i: int| occurs_at(t, p, i, fold)
}

/// `t` holds at least one member of `ps` as a contiguous piece.
pub open spec fn contains_any(t: Seq<char>, ps: Seq<Seq<char>>, fold: bool) -> bool {
    exists|k: int| 0 <= k < ps.len() && #[trigger] contains(t, ps[k], fold)
}

/// Spans are well ordered: each lies within `len` bytes and starts no earlier
/// than the previous one ends.
pub open spec fn spans_ordered(spans: Seq<(int, int)>, len: int) -> bool {
    &&& forall|k: int| 0 <= k < spans.len() ==> 0 <= (#[trigger] spans[k]).0 <= spans[k].1 <= len
    &&& forall|k: int| 0 < k < spans.len() ==> spans[k - 1].1 <= (#[trigger] spans[k]).0
}

/// Spans of machine integers read as spans of integers.
pub open spec fn int_spans(s: Seq<(usize, usize)>) -> Seq<(int, int)> {
    s.map_values(|p: (usize, usize)| (p.0 as int, p.1 as int))
}

/// A compiled search pattern.
pub enum Pattern {
    Literal { pattern: AhoCorasick, case_insensitive: bool },
    Regex(Regex),
    MultipleLiteral { pattern: AhoCorasick, case_insensitive: bool },
}

/// Why a pattern could not be built.
pub enum PatternError {
    /// No pattern string was supplied.
    Empty,
    /// The literal strings could not be compiled into an automaton.
    Automaton,
    /// The regular expression did not compile: its source and the compiler's message.
    InvalidRegex(String, String),
}

/// A text matcher.
pub trait Matcher {
    /// Whether the matcher accepts `t`.
    spec fn accepts(&self, t: Seq<char>) -> bool;

    /// Whether `text` holds at least one match.
    fn matches_query(&self, text: &str) -> (r: bool)
        ensures
            r == self.accepts(text@),
    ;
}

impl Pattern {
    /// The literal strings behind a literal pattern (empty for a regex).
    pub open spec fn needles(&self) -> Seq<Seq<char>> {
        match self {
            Pattern::Literal { pattern, .. } => automaton_needles(*pattern),
            Pattern::MultipleLiteral { pattern, .. } => automaton_needles(*pattern),
            Pattern::Regex(_) => Seq::empty(),
        }
    }

    /// Whether the pattern can search anywhere in a text: always for a
    /// regex, and for an automaton not built for anchored searches only.
    pub open spec fn searchable(&self) -> bool {
        match self {
            Pattern::Literal { pattern, .. } => automaton_searches_anywhere(*pattern),
            Pattern::MultipleLiteral { pattern, .. } => automaton_searches_anywhere(*pattern),
            Pattern::Regex(_) => true,
        }
    }

    /// The `case_insensitive` field of a literal pattern (false for a regex).
    pub open spec fn flag(&self) -> bool {
        match self {
            Pattern::Literal { case_insensitive, .. } => *case_insensitive,
            Pattern::MultipleLiteral { case_insensitive, .. } => *case_insensitive,
            Pattern::Regex(_) => false,
        }
    }

    /// Whether a literal pattern ignores ASCII case.
    pub open spec fn folds_case(&self) -> bool {
        match self {
            Pattern::Literal { pattern, .. } => automaton_folds_case(*pattern),
            Pattern::MultipleLiteral { pattern, .. } => automaton_folds_case(*pattern),
            Pattern::Regex(_) => false,
        }
    }

    /// The byte spans of the matches that highlighting decorates.
    pub open spec fn spans(&self, t: Seq<char>) -> Seq<(int, int)> {
        if !self.searchable() {
            Seq::empty()
        } else {
            match self {
                Pattern::Literal { pattern, .. } => automaton_spans(*pattern, t),
                Pattern::MultipleLiteral { pattern, .. } => automaton_spans(*pattern, t),
                Pattern::Regex(re) => regex_spans(*re, t),
            }
        }
    }

    /// Builds a pattern for one literal string.
    pub fn literal(query: &str, case_insensitive: bool) -> (r: Result<Pattern, PatternError>)
        ensures
            r is Ok <==> automaton_builds(seq![query@], case_insensitive),
            r is Ok ==> r->Ok_0 is Literal && r->Ok_0.needles() == seq![query@]
                && r->Ok_0.folds_case() == case_insensitive && r->Ok_0.searchable()
                && r->Ok_0.flag() == case_insensitive,
            r is Err ==> r->Err_0 is Automaton,
    {
        let mut qs: Vec<String> = Vec::new();
        qs.push(query.to_owned());
        proof {
            assert(qs@.map_values(|s: String| s@) =~= seq![query@]);
        }
        match build_automaton(&qs, case_insensitive) {
            Ok(a) => Ok(Pattern::Literal { pattern: a, case_insensitive }),
            Err(_) => Err(PatternError::Automaton),
        }
    }

    /// Builds a pattern for a non-empty set of literal strings.
    pub fn multiple(queries: &Vec<String>, case_insensitive: bool) -> (r: Result<Pattern, PatternError>)
        ensures
            queries@.len() == 0 <==> r matches Err(PatternError::Empty),
            r is Ok <==> queries@.len() > 0 && automaton_builds(
                queries@.map_values(|s: String| s@),
                case_insensitive,
            ),
            r is Ok ==> r->Ok_0 is MultipleLiteral && r->Ok_0.needles() == queries@.map_values(
                |s: String| s@,
            ) && r->Ok_0.folds_case() == case_insensitive && r->Ok_0.searchable()
                && r->Ok_0.flag() == case_insensitive,
            r is Err ==> r->Err_0 is Empty || r->Err_0 is Automaton,
    {
        if queries.len() == 0 {
            return Err(PatternError::Empty);
        }
        match build_automaton(queries, case_insensitive) {
            Ok(a) => Ok(Pattern::MultipleLiteral { pattern: a, case_insensitive }),
            Err(_) => Err(PatternError::Automaton),
        }
    }

    /// Builds a pattern from the source of a regular expression.
    pub fn regex(source: &str, case_insensitive: bool) -> (r: Result<Pattern, PatternError>)
        ensures
            r is Ok <==> regex_compiles(source@, case_insensitive),
            r is Ok ==> r->Ok_0 is Regex && regex_source_of(r->Ok_0->Regex_0) == source@
                && regex_folds_case(r->Ok_0->Regex_0) == case_insensitive,
            r is Err ==> (r->Err_0 matches PatternError::InvalidRegex(s, _) && s@ == source@),
    {
        match build_regex(source, case_insensitive) {
            Ok(re) => Ok(Pattern::Regex(re)),
            Err(e) => Err(PatternError::InvalidRegex(source.to_owned(), regex_error_message(&e))),
        }
    }
}

impl Matcher for Pattern {
    open spec fn accepts(&self, t: Seq<char>) -> bool {
        match self {
            Pattern::Regex(re) => regex_accepts(*re, t),
            _ => self.searchable() && contains_any(t, self.needles(), self.folds_case()),
        }
    }

    fn matches_query(&self, text: &str) -> (r: bool) {
        match self {
            Pattern::Regex(re) => regex_is_match(re, text),
            Pattern::Literal { pattern, .. } => automaton_unanchored(pattern) && automaton_is_match(
                pattern,
                text,
            ),
            Pattern::MultipleLiteral { pattern, .. } => automaton_unanchored(pattern)
                && automaton_is_match(pattern, text),
        }
    }
}

/// A pattern built from one literal string matches exactly the texts that
/// hold that string, up to ASCII case when it folds case.
pub proof fn lemma_literal_matches(p: Pattern, query: Seq<char>, t: Seq<char>)
    requires
        p is Literal,
        p.needles() == seq![query],
        p.searchable(),
    ensures
        p.accepts(t) == contains(t, query, p.folds_case()),
{
    if contains(t, query, p.folds_case()) {
        assert(contains(t, p.needles()[0], p.folds_case()));
    }
}

/// A pattern built from a set of literal strings matches exactly the texts
/// that hold at least one member of the set.
pub proof fn lemma_multiple_matches(p: Pattern, queries: Seq<Seq<char>>, t: Seq<char>)
    requires
        p is MultipleLiteral,
        p.needles() == queries,
        p.searchable(),
    ensures
        p.accepts(t) == (exists|k: int|
            0 <= k < queries.len() && #[trigger] contains(t, queries[k], p.folds_case())),
{
}

/// Relies on `AhoCorasickBuilder::build`: the automaton searches for exactly
/// the given strings, ignoring ASCII case when asked to.
#[verifier::external_body]
fn build_automaton(needles: &Vec<String>, case_insensitive: bool) -> (r: Result<
    AhoCorasick,
    aho_corasick::BuildError,
>)
    ensures
        r is Ok <==> automaton_builds(needles@.map_values(|s: String| s@), case_insensitive),
        r is Ok ==> automaton_needles(r->Ok_0) == needles@.map_values(|s: String| s@)
            && automaton_folds_case(r->Ok_0) == case_insensitive && automaton_searches_anywhere(
            r->Ok_0,
        ),
{
    AhoCorasickBuilder::new().ascii_case_insensitive(case_insensitive).build(needles)
}

/// Relies on `AhoCorasick::start_kind`: whether the automaton was built for
/// anchored searches only, the one case in which its searches panic.
#[verifier::external_body]
pub(crate) fn automaton_unanchored(a: &AhoCorasick) -> (r: bool)
    ensures
        r == automaton_searches_anywhere(*a),
{
    match a.start_kind() {
        StartKind::Anchored => false,
        _ => true,
    }
}

/// Relies on `AhoCorasick::is_match`: true iff some needle occurs in the text.
#[verifier::external_body]
fn automaton_is_match(a: &AhoCorasick, text: &str) -> (r: bool)
    requires
        automaton_searches_anywhere(*a),
    ensures
        r == contains_any(text@, automaton_needles(*a), automaton_folds_case(*a)),
{
    a.is_match(text)
}

/// Relies on `AhoCorasick::find_iter`: successive non-overlapping matches,
/// in order, none of them when the automaton finds no needle in the text.
#[verifier::external_body]
pub(crate) fn automaton_find_spans(a: &AhoCorasick, text: &str) -> (r: Vec<(usize, usize)>)
    requires
        automaton_searches_anywhere(*a),
    ensures
        int_spans(r@) == automaton_spans(*a, text@),
        spans_ordered(int_spans(r@), text.spec_bytes().len() as int),
        r@.len() == 0 <==> !contains_any(
            text@,
            automaton_needles(*a),
            automaton_folds_case(*a),
        ),
{
    a.find_iter(text).map(|m| (m.start(), m.end())).collect()
}

/// Relies on `RegexBuilder::build`, with case folding set as asked: it fails
/// exactly when the source does not compile, and the expression keeps its
/// source (`Regex::as_str`).
#[verifier::external_body]
fn build_regex(source: &str, case_insensitive: bool) -> (r: Result<Regex, regex::Error>)
    ensures
        r is Ok <==> regex_compiles(source@, case_insensitive),
        r is Ok ==> regex_source_of(r->Ok_0) == source@ && regex_folds_case(r->Ok_0)
            == case_insensitive,
{
    RegexBuilder::new(source).case_insensitive(case_insensitive).build()
}

/// Relies on `regex::Error`'s `Display` for the compiler's message.
#[verifier::external_body]
fn regex_error_message(e: &regex::Error) -> (r: String) {
    e.to_string()
}

/// Relies on `Regex::is_match`.
#[verifier::external_body]
fn regex_is_match(re: &Regex, text: &str) -> (r: bool)
    ensures
        r == regex_accepts(*re, text@),
{
    re.is_match(text)
}

/// Relies on `Regex::find_iter`: successive non-overlapping matches, in order,
/// none of them when the expression does not match.
#[verifier::external_body]
pub(crate) fn regex_find_spans(re: &Regex, text: &str) -> (r: Vec<(usize, usize)>)
    ensures
        int_spans(r@) == regex_spans(*re, text@),
        spans_ordered(int_spans(r@), text.spec_bytes().len() as int),
        r@.len() == 0 <==> !regex_accepts(*re, text@),
{
    re.find_iter(text).map(|m| (m.start(), m.end())).collect()
}

} // verus!
