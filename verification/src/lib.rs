//! A verified formatting core for a fast `jj` shell-prompt helper.
//!
//! The library turns a bundle of read-only working-copy facts into the
//! single-line prompt string, parses the output of the external
//! file-count probe, encodes change ids in the reversed hex alphabet,
//! and walks the directory tree looking for a repository root.

pub mod ansi;
pub mod file_count;
pub mod locate;
pub mod no_color;
pub mod prompt;
pub mod reverse_hex;
pub mod spacing;
pub mod textops;
