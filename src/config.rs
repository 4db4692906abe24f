//! The run's parameters, resolved from the command-line options.
use crate::pattern::{
    automaton_builds, regex_compiles, regex_folds_case, regex_source_of, Pattern, PatternError,
};
use crate::results::Config;
use std::path::Path;
use vstd::prelude::*;

verus! {

/// The command-line options of a run.
pub struct Args {
    pub query: Option<String>,
    pub multiple: Vec<String>,
    pub ignore_case: bool,
    pub file_path: Option<String>,
    pub invert: bool,
    pub regex: bool,
    pub count: bool,
    pub line_number: bool,
    pub recursive: bool,
    pub file_extension: Option<String>,
    pub highlight: bool,
}

/// Why the options do not give a configuration.
pub enum ConfigError {
    /// Neither a query nor a set of literal strings was given.
    NoQuery,
    /// Regex mode was asked for without a query.
    RegexWithoutQuery,
    /// The pattern did not compile.
    Pattern(PatternError),
}

/// The extension that `Path::extension` finds in a path.
pub uninterp spec fn path_extension_of(p: Seq<char>) -> Option<Seq<char>>;

/// Relies on `Path::extension`, read lossily as text.
#[verifier::external_body]
fn path_extension(p: &str) -> (r: Option<String>)
    ensures
        match r {
            Some(e) => path_extension_of(p@) == Some(e@),
            None => path_extension_of(p@) is None,
        },
{
    Path::new(p).extension().map(|e| e.to_string_lossy().to_string())
}

/// The source of the regular expression in regex mode: the query, or else
/// the first of the literal strings.
pub open spec fn regex_source(args: Args) -> Option<Seq<char>> {
    match args.query {
        Some(q) => Some(q@),
        None => if args.multiple@.len() > 0 {
            Some(args.multiple@[0]@)
        } else {
            None
        },
    }
}

/// Whether the options name a pattern that builds, case folded as `fold`
/// says: in regex mode, a source that compiles; otherwise a non-empty set of
/// literal strings, else a query, that an automaton can be built from.
pub open spec fn pattern_builds(args: Args, fold: bool) -> bool {
    if args.regex {
        regex_source(args) is Some && regex_compiles(regex_source(args)->0, fold)
    } else if args.multiple@.len() > 0 {
        automaton_builds(args.multiple@.map_values(|s: String| s@), fold)
    } else {
        args.query is Some && automaton_builds(seq![args.query->0@], fold)
    }
}

impl Config {
    /// Resolves the options into a configuration. Case is ignored when asked
    /// for or when `env_ignore_case` is set; the extension filter defaults to
    /// the extension of the file path. Regex mode compiles the query (or the
    /// first literal string); otherwise a set of literal strings, else the
    /// query, becomes a literal pattern.
    pub fn from_args(args: Args, env_ignore_case: bool) -> (r: Result<Config, ConfigError>)
        ensures
            r is Ok <==> pattern_builds(args, args.ignore_case || env_ignore_case),
            args.regex && regex_source(args) is None ==> r matches Err(
                ConfigError::RegexWithoutQuery,
            ),
            !args.regex && args.multiple@.len() == 0 && args.query is None ==> r matches Err(
                ConfigError::NoQuery,
            ),
            r matches Err(ConfigError::NoQuery) ==> !args.regex && args.multiple@.len() == 0
                && args.query is None,
            r matches Err(ConfigError::RegexWithoutQuery) ==> args.regex && regex_source(
                args,
            ) is None,
            r matches Err(ConfigError::Pattern(e)) ==> if args.regex {
                e matches PatternError::InvalidRegex(s, _) && Some(s@) == regex_source(args)
            } else {
                e is Automaton
            },
            r matches Ok(c) ==> {
                &&& c.ignore_case == (args.ignore_case || env_ignore_case)
                &&& c.file_path@ == match args.file_path {
                    Some(p) => p@,
                    None => Seq::<char>::empty(),
                }
                &&& match args.file_extension {
                    Some(e) => c.file_extension matches Some(x) && x@ == e@,
                    None => match path_extension_of(c.file_path@) {
                        Some(e) => c.file_extension matches Some(x) && x@ == e,
                        None => c.file_extension is None,
                    },
                }
                &&& c.invert == args.invert && c.count == args.count && c.line_number
                    == args.line_number && c.recursive == args.recursive && c.highlight
                    == args.highlight
                &&& if args.regex {
                    c.pattern matches Pattern::Regex(re) && Some(regex_source_of(re))
                        == regex_source(args) && regex_folds_case(re) == c.ignore_case
                } else if args.multiple@.len() > 0 {
                    c.pattern is MultipleLiteral && c.pattern.needles() == args.multiple@.map_values(
                        |s: String| s@,
                    ) && c.pattern.folds_case() == c.ignore_case && c.pattern.searchable()
                        && c.pattern.flag() == c.ignore_case
                } else {
                    c.pattern is Literal && c.pattern.needles() == seq![args.query->0@]
                        && c.pattern.folds_case() == c.ignore_case && c.pattern.searchable()
                        && c.pattern.flag() == c.ignore_case
                }
            },
    {
        let ignore_case = args.ignore_case || env_ignore_case;
        let file_path = match &args.file_path {
            Some(fp) => fp.clone(),
            None => String::new(),
        };
        let file_extension = match &args.file_extension {
            Some(e) => Some(e.clone()),
            None => path_extension(file_path.as_str()),
        };
        let pattern = if args.regex {
            let q = match &args.query {
                Some(q) => q.clone(),
                None => {
                    if args.multiple.len() == 0 {
                        return Err(ConfigError::RegexWithoutQuery);
                    }
                    args.multiple[0].clone()
                },
            };
            Pattern::regex(q.as_str(), ignore_case)
        } else if args.multiple.len() > 0 {
            Pattern::multiple(&args.multiple, ignore_case)
        } else {
            match &args.query {
                Some(q) => Pattern::literal(q.as_str(), ignore_case),
                None => {
                    return Err(ConfigError::NoQuery);
                },
            }
        };
        match pattern {
            Ok(pattern) => Ok(
                Config {
                    file_path,
                    pattern,
                    ignore_case,
                    invert: args.invert,
                    count: args.count,
                    line_number: args.line_number,
                    recursive: args.recursive,
                    file_extension,
                    highlight: args.highlight,
                },
            ),
            Err(e) => Err(ConfigError::Pattern(e)),
        }
    }
}

} // verus!
