//! The outcome of a unit of work: what one entry or one byte range yields.
use crate::pattern::Pattern;
use crate::scan::{kept_lines, process_lines, scanned};
use std::collections::HashMap;
use vstd::prelude::*;
use vstd::utf8::*;

verus! {

/// The run's parameters, fixed once built.
pub struct Config {
    pub file_path: String,
    pub pattern: Pattern,
    pub ignore_case: bool,
    pub invert: bool,
    pub count: bool,
    pub line_number: bool,
    pub recursive: bool,
    pub file_extension: Option<String>,
    pub highlight: bool,
}

/// Reported lines grouped by source.
pub struct Output {
    pub output_map: HashMap<String, Vec<(usize, String)>>,
}

/// What one file, or one byte range of a file, yields.
pub enum FileResult {
    /// The source's label and its reported lines.
    Match(String, Vec<(usize, String)>),
    Skip,
    Error(String),
}

/// The number of reported lines in one result.
pub fn count_matches(matches: &Vec<(usize, String)>) -> (r: usize)
    ensures
        r == matches@.len(),
{
    matches.len()
}

/// `ext` without one leading dot.
pub open spec fn strip_dot(ext: Seq<char>) -> Seq<char> {
    if ext.len() > 0 && ext[0] == '.' {
        ext.drop_first()
    } else {
        ext
    }
}

/// An extension without its leading dot, if it has one.
pub fn normalize_extension(ext: &str) -> (r: &str)
    ensures
        r@ == strip_dot(ext@),
{
    let n = ext.unicode_len();
    if n > 0 && ext.get_char(0) == '.' {
        ext.substring_char(1, n)
    } else {
        proof {
            assert(ext@.subrange(0, ext@.len() as int) =~= ext@);
        }
        ext.substring_char(0, n)
    }
}

/// Whether a file with extension `file_ext` passes the filter `wanted`.
pub open spec fn extension_ok(wanted: Option<Seq<char>>, file_ext: Option<Seq<char>>) -> bool {
    match wanted {
        None => true,
        Some(w) => file_ext is Some && strip_dot(file_ext->0) == strip_dot(w),
    }
}

/// Whether a file with extension `file_ext` passes the optional filter
/// `wanted`: with a filter, both agree once a leading dot is dropped.
pub fn extension_passes(wanted: &Option<String>, file_ext: Option<&str>) -> (r: bool)
    ensures
        r == extension_ok(
            match wanted {
                Some(w) => Some(w@),
                None => None,
            },
            match file_ext {
                Some(e) => Some(e@),
                None => None,
            },
        ),
{
    match wanted {
        None => true,
        Some(w) => match file_ext {
            None => false,
            Some(e) => {
                let a = normalize_extension(w.as_str()).to_owned();
                let b = normalize_extension(e).to_owned();
                a == b
            },
        },
    }
}

/// Relies on `std::str::from_utf8`: the text when the bytes are valid UTF-8.
#[verifier::external_body]
fn utf8_text(bytes: &[u8]) -> (r: Option<String>)
    ensures
        r is Some <==> valid_utf8(bytes@),
        r is Some ==> r->0@ == decode_utf8(bytes@),
{
    std::str::from_utf8(bytes).ok().map(|s| s.to_owned())
}

/// The text that `String::from_utf8_lossy` makes of some bytes.
pub uninterp spec fn lossy_text(b: Seq<u8>) -> Seq<char>;

/// Relies on `String::from_utf8_lossy`: valid UTF-8 is decoded as it is,
/// invalid sequences become replacement characters.
#[verifier::external_body]
fn decode_lossy(bytes: &[u8]) -> (r: String)
    ensures
        r@ == lossy_text(bytes@),
        valid_utf8(bytes@) ==> r@ == decode_utf8(bytes@),
{
    String::from_utf8_lossy(bytes).into_owned()
}

/// What a directory entry yields: `Skip` for anything but a readable UTF-8
/// file whose extension passes the filter and which has reported lines; else
/// its name and its reported lines.
pub fn entry_result(
    config: &Config,
    is_file: bool,
    name: &str,
    file_ext: Option<&str>,
    contents: Option<&[u8]>,
) -> (r: FileResult)
    ensures
        !(r is Error),
        r is Match <==> is_file && contents is Some && valid_utf8(contents->0@) && extension_ok(
            match config.file_extension {
                Some(w) => Some(w@),
                None => None,
            },
            match file_ext {
                Some(e) => Some(e@),
                None => None,
            },
        ) && kept_lines(config.pattern, decode_utf8(contents->0@), config.invert).len() > 0,
        r matches FileResult::Match(label, lines) ==> label@ == name@ && scanned(
            config.pattern,
            decode_utf8(contents->0@),
            config.invert,
            config.highlight,
            lines@,
        ),
{
    if !is_file {
        return FileResult::Skip;
    }
    let bytes = match contents {
        Some(b) => b,
        None => {
            return FileResult::Skip;
        },
    };
    let text = match utf8_text(bytes) {
        Some(t) => t,
        None => {
            return FileResult::Skip;
        },
    };
    if !extension_passes(&config.file_extension, file_ext) {
        return FileResult::Skip;
    }
    let lines = process_lines(&config.pattern, text.as_str(), config.invert, config.highlight);
    if lines.len() == 0 {
        return FileResult::Skip;
    }
    FileResult::Match(name.to_owned(), lines)
}

/// What one byte range of the configured file yields: its reported lines,
/// numbered from the range's first line and labelled with the file's path,
/// or nothing when no line is reported.
pub fn chunk_result(config: &Config, bytes: &[u8]) -> (r: Option<FileResult>)
    ensures
        r is Some <==> kept_lines(config.pattern, lossy_text(bytes@), config.invert).len() > 0,
        r is Some ==> (r->0 matches FileResult::Match(label, lines) && label@
            == config.file_path@ && scanned(
            config.pattern,
            lossy_text(bytes@),
            config.invert,
            config.highlight,
            lines@,
        )),
{
    let text = decode_lossy(bytes);
    let lines = process_lines(&config.pattern, text.as_str(), config.invert, config.highlight);
    if lines.len() == 0 {
        None
    } else {
        Some(FileResult::Match(config.file_path.clone(), lines))
    }
}

} // verus!
