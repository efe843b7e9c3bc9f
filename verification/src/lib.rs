//! Line-buffer editing, cursor and viewport arithmetic, and substring search
//! for a small text editor.
//!
//! Every position in this crate counts Unicode scalar values (`char`s): a
//! column is an index into the `char`s of a line, and a match span is a
//! half-open range of `char` indices. Neither bytes nor grapheme clusters are
//! used as a unit anywhere.
//!
//! Matches are never kept up with the text. An edit leaves the matches of
//! the last search as they are, and it is for the caller to search anew when
//! it wants them to agree with the text again.

pub mod buffer;
pub mod document;
pub mod editor;
pub mod frame;
pub mod highlight;
pub mod keys;
pub mod scan;
pub mod search_module;
pub mod state;
pub mod text;
