use vstd::prelude::*;

/// Reading the command line: the pattern, the directory and the extension filter.
pub mod args;
/// Matching one file: its name, its extension and its content.
pub mod matcher;
/// The decisions of a search run over a directory tree, and the count of matched files.
pub mod search;
/// Text helpers: the characters of a string, and finding a pattern in them.
pub mod text;

verus! {

} // verus!
