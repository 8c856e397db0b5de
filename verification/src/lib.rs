//! Counting the lines, words, bytes and characters of texts, and reporting
//! the counts in aligned columns, one line for each input and one for their
//! sums.
//!
//! The library only computes. It opens and reads nothing, and writes
//! nothing: a caller hands it the bytes of an input and gets the counts, or
//! hands it what came of reading each input and gets the lines to write.

pub mod config;
pub mod counter;
pub mod encoding;
pub mod format;
pub mod report;
pub mod text;

pub use config::{is_stdin, Config};
pub use counter::{count, CountError, FileInfo};
pub use format::{decimal_string, format_count, format_field, FIELD_WIDTH};
pub use report::{
    format_line, format_total, format_warning, run, Action, Reading, Reporter, Totals,
};
pub use text::is_whitespace;
