//! Converts a plain-text scripture transcription into a tree of testaments,
//! books, chapters and verses. A line classifier recognises book headers from a
//! fixed title table, and an assembler walks the lines once, splitting the body
//! at `chapter:verse` references.

use vstd::prelude::*;

pub mod assembler;
pub mod laws;
pub mod model;
pub mod text;
pub mod titles;

pub use assembler::{contents_complete, parse_gutenberg, parse_gutenberg_traced, TraceEvent};
pub use model::{Bible, Book, Chapter, Verse};
pub use titles::is_book_line;

verus! {

} // verus!
