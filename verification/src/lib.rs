//! Recursive, pattern-based text search: which files of a tree are looked at,
//! where a regular expression matches in their lines, and how each match is
//! reported.
//!
//! All offsets are byte offsets into the UTF-8 text of a line, and every span
//! that the library produces starts and ends on a character boundary.

pub mod matcher;
pub mod search;
pub mod filter;
pub mod walk;
pub mod sink;
