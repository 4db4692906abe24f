use aho_corasick::{AhoCorasick, AhoCorasickBuilder, StartKind};
use colored::Colorize;
use drep::{highlight_match, process_lines, Matcher, Pattern};

#[test]
fn literal_match() {
    let ac = AhoCorasick::new(&["foo"]).unwrap();
    let pattern = Pattern::Literal {
        pattern: ac,
        case_insensitive: false,
    };
    assert!(pattern.matches_query("foo"));
    assert!(!pattern.matches_query("Foo"));
}

#[test]
fn multiple_literal_match() {
    let ac = AhoCorasick::new(&["foo", "bar"]).unwrap();
    let pattern = Pattern::MultipleLiteral {
        pattern: ac,
        case_insensitive: false,
    };
    assert!(pattern.matches_query("foo"));
    assert!(pattern.matches_query("bar"));
    assert!(!pattern.matches_query("baz"));
}

#[test]
fn highlight_literal() {
    let ac = AhoCorasick::new(&["foo"]).unwrap();
    let pattern = Pattern::Literal {
        pattern: ac,
        case_insensitive: false,
    };
    let result = highlight_match("foo bar", &pattern);
    let expected = "foo".red().underline().bold().to_string() + " bar";
    assert_eq!(result, expected);
}

#[test]
fn process_lines_basic() {
    let ac = AhoCorasick::new(&["foo"]).unwrap();
    let pattern = Pattern::Literal {
        pattern: ac,
        case_insensitive: false,
    };
    let text = "foo\nbar\nfoo bar";
    let result: Vec<(usize, String)> = process_lines(&pattern, text, false, false);

    assert_eq!(result.len(), 2);
    assert_eq!(result[0].0, 1);
    assert_eq!(result[1].0, 3);
}

#[test]
fn invert_lines() {
    let ac = AhoCorasick::new(&["foo"]).unwrap();
    let pattern = Pattern::Literal {
        pattern: ac,
        case_insensitive: false,
    };
    let text = "foo\nbar\nbaz";
    let result = process_lines(&pattern, text, true, false);

    assert_eq!(result.len(), 2);
    assert_eq!(result[0].1, "bar");
    assert_eq!(result[1].1, "baz");
}

#[test]
fn ignore_case_literal() {
    let ac = AhoCorasickBuilder::new()
        .ascii_case_insensitive(true)
        .build(&["foo"])
        .unwrap();
    let pattern = Pattern::Literal {
        pattern: ac,
        case_insensitive: true,
    };
    assert!(pattern.matches_query("FOO"));
}

#[test]
fn anchored_automaton_finds_nothing() {
    let ac = AhoCorasickBuilder::new()
        .start_kind(StartKind::Anchored)
        .build(&["foo"])
        .unwrap();
    let pattern = Pattern::Literal {
        pattern: ac,
        case_insensitive: false,
    };
    assert!(!pattern.matches_query("foo"));
    assert_eq!(highlight_match("foo", &pattern), "foo");
}
