use colored::Colorize;
use drep::highlight::weave;
use drep::partition::{chunk_ranges, pool_size, Batcher};
use drep::results::{chunk_result, entry_result, extension_passes};
use drep::{
    count_matches, highlight_match, normalize_extension, process_lines, Args, Config, ConfigError,
    FileResult, Matcher, Pattern, PatternError,
};

fn literal(q: &str, ci: bool) -> Pattern {
    match Pattern::literal(q, ci) {
        Ok(p) => p,
        Err(_) => panic!("literal pattern did not build"),
    }
}

fn config(pattern: Pattern, ext: Option<&str>) -> Config {
    Config {
        file_path: "big.txt".to_string(),
        pattern,
        ignore_case: false,
        invert: false,
        count: false,
        line_number: false,
        recursive: true,
        file_extension: ext.map(|e| e.to_string()),
        highlight: false,
    }
}

fn args() -> Args {
    Args {
        query: None,
        multiple: Vec::new(),
        ignore_case: false,
        file_path: None,
        invert: false,
        regex: false,
        count: false,
        line_number: false,
        recursive: false,
        file_extension: None,
        highlight: false,
    }
}

#[test]
fn literal_constructor_matches_substrings() {
    let p = literal("foo", false);
    assert!(p.matches_query("a foo b"));
    assert!(p.matches_query("foofoo"));
    assert!(!p.matches_query("fo o"));
    assert!(!p.matches_query(""));
}

#[test]
fn scenario_a_lines_one_and_three() {
    let p = literal("foo", false);
    let r = process_lines(&p, "foo\nbar\nfoo bar", false, false);
    assert_eq!(r, vec![(1, "foo".to_string()), (3, "foo bar".to_string())]);
}

#[test]
fn scenario_b_inverted() {
    let p = literal("foo", false);
    let r = process_lines(&p, "foo\nbar\nbaz", true, false);
    assert_eq!(r, vec![(2, "bar".to_string()), (3, "baz".to_string())]);
}

#[test]
fn scenario_c_pattern_set() {
    let qs = vec!["foo".to_string(), "bar".to_string()];
    let p = match Pattern::multiple(&qs, false) {
        Ok(p) => p,
        Err(_) => panic!("pattern set did not build"),
    };
    let r = process_lines(&p, "foo\nbaz\nbar", false, false);
    assert_eq!(r.iter().map(|x| x.0).collect::<Vec<_>>(), vec![1, 3]);
}

#[test]
fn scenario_d_case_folding() {
    assert!(literal("foo", true).matches_query("FOO"));
    assert!(!literal("foo", false).matches_query("FOO"));
}

#[test]
fn scenario_e_empty_file_has_no_chunks() {
    assert!(chunk_ranges(0, 4).is_empty());
    let c = config(literal("foo", false), None);
    assert!(chunk_result(&c, b"").is_none());
}

#[test]
fn empty_pattern_set_is_refused() {
    assert!(matches!(Pattern::multiple(&Vec::new(), false), Err(PatternError::Empty)));
}

#[test]
fn regex_pattern_matches() {
    let p = match Pattern::regex("fo+", false) {
        Ok(p) => p,
        Err(_) => panic!("regex did not build"),
    };
    assert!(p.matches_query("xfooo"));
    assert!(!p.matches_query("FOO"));
    let ci = match Pattern::regex("fo+", true) {
        Ok(p) => p,
        Err(_) => panic!("regex did not build"),
    };
    assert!(ci.matches_query("FOO"));
}

#[test]
fn invalid_regex_is_reported_with_its_source() {
    match Pattern::regex("(", false) {
        Err(PatternError::InvalidRegex(src, msg)) => {
            assert_eq!(src, "(");
            assert!(!msg.is_empty());
        }
        _ => panic!("expected an invalid regex"),
    }
}

#[test]
fn inverted_and_plain_scans_split_the_lines() {
    let p = literal("a", false);
    let text = "a\nb\nab\n\nc";
    let plain = process_lines(&p, text, false, false);
    let inverted = process_lines(&p, text, true, false);
    let mut all: Vec<(usize, String)> = plain.iter().chain(inverted.iter()).cloned().collect();
    all.sort();
    let expected: Vec<(usize, String)> = text
        .lines()
        .enumerate()
        .map(|(i, l)| (i + 1, l.to_string()))
        .collect();
    assert_eq!(all, expected);
    assert_eq!(plain.len() + inverted.len(), 5);
}

#[test]
fn empty_text_scans_to_nothing() {
    let p = literal("a", false);
    assert!(process_lines(&p, "", false, false).is_empty());
    assert!(process_lines(&p, "", true, false).is_empty());
}

#[test]
fn lines_split_at_line_feeds_only() {
    let p = literal("a", false);
    let r = process_lines(&p, "a\r\nb\r\nxa\n", false, false);
    assert_eq!(r, vec![(1, "a\r".to_string()), (3, "xa".to_string())]);
    let q = literal("foo", false);
    assert_eq!(process_lines(&q, "foo\r\nbar", false, false), vec![(1, "foo\r".to_string())]);
    assert_eq!(process_lines(&q, "\n\nfoo\n", true, false).len(), 2);
}

#[test]
fn weave_places_given_decorations() {
    let spans = vec![(1, 3), (4, 5)];
    let deco = vec!["<bc>".to_string(), "[e]".to_string()];
    assert_eq!(weave("abcdef", &spans, &deco), "a<bc>d[e]f");
    assert_eq!(weave("héllo", &vec![(1, 3)], &vec!["É".to_string()]), "hÉllo");
    assert_eq!(weave("abc", &Vec::new(), &Vec::new()), "abc");
}

#[test]
fn inverted_highlighted_lines_stay_plain() {
    let p = literal("foo", false);
    let text = "foo\nbar\nbaz";
    assert_eq!(process_lines(&p, text, true, true), process_lines(&p, text, true, false));
}

#[test]
fn builders_succeed_on_valid_input() {
    assert!(Pattern::literal("", false).is_ok());
    assert!(Pattern::multiple(&vec!["a".to_string()], true).is_ok());
    match Pattern::literal("x", true) {
        Ok(Pattern::Literal { case_insensitive, .. }) => assert!(case_insensitive),
        _ => panic!("expected a literal pattern"),
    }
    let mut a = args();
    a.regex = true;
    a.query = Some("b+".to_string());
    a.ignore_case = true;
    let c = match Config::from_args(a, false) {
        Ok(c) => c,
        Err(_) => panic!("expected a configuration"),
    };
    match &c.pattern {
        Pattern::Regex(re) => assert_eq!(re.as_str(), "b+"),
        _ => panic!("expected a regex"),
    }
    assert!(c.pattern.matches_query("aBBa"));
}

#[test]
fn highlight_without_match_keeps_line() {
    let p = literal("zzz", false);
    assert_eq!(highlight_match("héllo wörld", &p), "héllo wörld");
    let re = match Pattern::regex("q+", false) {
        Ok(p) => p,
        Err(_) => panic!("regex did not build"),
    };
    assert_eq!(highlight_match("abc", &re), "abc");
}

#[test]
fn highlight_decorates_each_span() {
    let p = literal("ö", false);
    let d = "ö".red().underline().bold().to_string();
    assert_eq!(highlight_match("aöbö", &p), format!("a{}b{}", d, d));
}

#[test]
fn highlight_in_scan() {
    let p = literal("ab", false);
    let r = process_lines(&p, "xab\ny", false, true);
    let expected = format!("x{}", "ab".red().underline().bold());
    assert_eq!(r, vec![(1, expected)]);
}

#[test]
fn chunk_ranges_round_up() {
    assert_eq!(chunk_ranges(10, 3), vec![(0, 4), (4, 8), (8, 10)]);
    assert_eq!(chunk_ranges(9, 3), vec![(0, 3), (3, 6), (6, 9)]);
    assert_eq!(chunk_ranges(5, 1), vec![(0, 5)]);
}

#[test]
fn chunk_ranges_file_smaller_than_pool() {
    assert_eq!(chunk_ranges(2, 4), vec![(0, 1), (1, 2)]);
    assert_eq!(chunk_ranges(1, 8), vec![(0, 1)]);
}

#[test]
fn chunk_ranges_largest_size() {
    let r = chunk_ranges(u64::MAX, 3);
    assert_eq!(r.first().unwrap().0, 0);
    assert_eq!(r.last().unwrap().1, u64::MAX);
    assert_eq!(r.len(), 3);
}

#[test]
fn pool_size_leaves_one_processor() {
    assert_eq!(pool_size(0), 1);
    assert_eq!(pool_size(1), 1);
    assert_eq!(pool_size(2), 1);
    assert_eq!(pool_size(8), 7);
}

#[test]
fn batches_keep_every_entry() {
    let mut b = Batcher::new(2);
    let mut out: Vec<Vec<u32>> = Vec::new();
    for e in 1..=5u32 {
        if let Some(full) = b.push(e) {
            out.push(full);
        }
    }
    if let Some(last) = b.finish() {
        out.push(last);
    }
    assert_eq!(out, vec![vec![1, 2], vec![3, 4], vec![5]]);
    assert_eq!(out.iter().map(|x| x.len()).sum::<usize>(), 5);
    assert!(b.finish().is_none());
}

#[test]
fn count_is_number_of_lines() {
    let v = vec![(1, "a".to_string()), (4, "b".to_string())];
    assert_eq!(count_matches(&v), 2);
    assert_eq!(count_matches(&Vec::new()), 0);
}

#[test]
fn extensions_drop_one_leading_dot() {
    assert_eq!(normalize_extension(".rs"), "rs");
    assert_eq!(normalize_extension("rs"), "rs");
    assert_eq!(normalize_extension(""), "");
    assert_eq!(normalize_extension("..rs"), ".rs");
    assert!(extension_passes(&Some(".rs".to_string()), Some("rs")));
    assert!(extension_passes(&None, None));
    assert!(!extension_passes(&Some("rs".to_string()), None));
    assert!(!extension_passes(&Some("rs".to_string()), Some("txt")));
}

#[test]
fn entry_results() {
    let c = config(literal("foo", false), Some(".txt"));
    let hit = entry_result(&c, true, "a.txt", Some("txt"), Some(&b"x\nfoo"[..]));
    match hit {
        FileResult::Match(name, lines) => {
            assert_eq!(name, "a.txt");
            assert_eq!(lines, vec![(2, "foo".to_string())]);
        }
        _ => panic!("expected a match"),
    }
    assert!(matches!(entry_result(&c, false, "d", None, None), FileResult::Skip));
    assert!(matches!(entry_result(&c, true, "a.txt", Some("txt"), None), FileResult::Skip));
    assert!(matches!(
        entry_result(&c, true, "a.txt", Some("txt"), Some(&[0x66u8, 0x6f, 0x6f, 0xff][..])),
        FileResult::Skip
    ));
    assert!(matches!(entry_result(&c, true, "a.rs", Some("rs"), Some(&b"foo"[..])), FileResult::Skip));
    assert!(matches!(entry_result(&c, true, "a.txt", Some("txt"), Some(&b"bar"[..])), FileResult::Skip));
}

#[test]
fn chunk_result_decodes_lossily() {
    let c = config(literal("\u{FFFD}", false), None);
    match chunk_result(&c, &[0x61, 0xff, 0x0a, 0x62]) {
        Some(FileResult::Match(label, lines)) => {
            assert_eq!(label, "big.txt");
            assert_eq!(lines, vec![(1, "a\u{FFFD}".to_string())]);
        }
        _ => panic!("expected a match"),
    }
}

#[test]
fn config_needs_a_query() {
    assert!(matches!(Config::from_args(args(), false), Err(ConfigError::NoQuery)));
    let mut a = args();
    a.regex = true;
    assert!(matches!(Config::from_args(a, false), Err(ConfigError::RegexWithoutQuery)));
}

#[test]
fn config_resolves_options() {
    let mut a = args();
    a.query = Some("foo".to_string());
    a.file_path = Some("dir/notes.md".to_string());
    let c = match Config::from_args(a, true) {
        Ok(c) => c,
        Err(_) => panic!("expected a configuration"),
    };
    assert!(c.ignore_case);
    assert_eq!(c.file_path, "dir/notes.md");
    assert_eq!(c.file_extension, Some("md".to_string()));
    assert!(matches!(c.pattern, Pattern::Literal { .. }));
    assert!(c.pattern.matches_query("FOO"));

    let mut b = args();
    b.regex = true;
    b.multiple = vec!["(".to_string()];
    match Config::from_args(b, false) {
        Err(ConfigError::Pattern(PatternError::InvalidRegex(src, _))) => assert_eq!(src, "("),
        _ => panic!("expected an invalid regex"),
    }
}
