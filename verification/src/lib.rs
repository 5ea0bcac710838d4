//! Helpers for command-line tools: rules that say which paths to ignore,
//! filters built from them, the decisions of a directory scan, and small
//! utilities around standard streams and lines of text.
//!
//! Nothing here touches the file system or a stream. Whatever has to be read
//! from outside (a canonical path, the kind of a directory entry, a line)
//! is handed in as a plain value, and what has to be done outside is handed
//! back as one.

pub mod file_traversal;
pub mod ignore_path;
pub mod path_buf;
pub mod pattern;
pub mod std_streams;
pub mod tools;

pub use std_streams::{
    join_lines, line_item, lines_iterator, remove_eol, write_to_file, InputSource, OutputTarget,
    StreamIdent, Written, STREAM_PATH_STR,
};
