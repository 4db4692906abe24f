//! A line-oriented text search engine: pattern matching over literal
//! strings, sets of literal strings and regular expressions, line scanning
//! with inversion and highlighting, and the partitioning of work into
//! batches of entries and byte ranges of a file.

pub mod config;
pub mod highlight;
pub mod partition;
pub mod pattern;
pub mod results;
pub mod scan;

pub use config::{Args, ConfigError};
pub use highlight::highlight_match;
pub use pattern::{Matcher, Pattern, PatternError};
pub use results::{count_matches, normalize_extension, Config, FileResult, Output};
pub use scan::process_lines;
