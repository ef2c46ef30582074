//! A verified reader for a line-oriented scripture corpus.
//!
//! The corpus arrives as a stream of text lines; each line is a record
//! (book marker, chapter marker, section title, verse, or cross-reference
//! list). The library scans the stream once, keeps the hierarchical
//! context, decides per verse whether it matches the active query
//! (a book/chapter/verse locator or a diacritic-insensitive search term),
//! and renders each matched verse with highlight markup rewritten into
//! terminal color codes. All I/O stays with the caller: lines come in as
//! strings, results go out as strings.

pub mod emit;
pub mod highlight;
pub mod laws;
pub mod numbers;
pub mod record;
pub mod run;
pub mod scanner;
pub mod text;
