//! Autocommiter: a library for building git commit messages automatically.
//!
//! The core of the library is pure and verified: summarizing staged diffs
//! into short descriptors, compressing a change set into a size-bounded
//! JSON payload, scoring commit messages against a gitmoji table, and the
//! configuration rules. Process, file and network I/O live outside the
//! library and hand it plain values.

pub mod api_client;
pub mod changes_summarizer;
pub mod config;
pub mod git;
pub mod gitmoji;
pub mod model_manager;
pub mod text;

use vstd::prelude::*;

verus! {

/// The length in bytes of a string with the given characters, as
/// `str::len` reports it: the length of its UTF-8 encoding.
pub open spec fn byte_size(s: Seq<char>) -> usize {
    vstd::utf8::encode_utf8(s).len() as usize
}

} // verus!
