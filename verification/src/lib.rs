//! Counting bytes, lines, words and characters in a stream of bytes.
//!
//! A [`Pass`] takes in what its source hands over, chunk by chunk, and says
//! what to do next; its totals are a [`FileMetaData`], and [`report_lines`]
//! writes the report on them. [`count_input`] runs a whole pass over an input
//! that is held in memory.

pub mod args;
pub mod chunk;
pub mod count;
pub mod encoding;
pub mod error;
pub mod laws;
pub mod model;
pub mod pass;
pub mod report;
pub mod totals;
pub mod words;

pub use crate::args::{is_default_option, Args, Selection};
pub use crate::chunk::ChunkReader;
pub use crate::count::{count_bytes, count_chars, count_lines, count_word_runs, count_words};
pub use crate::error::WcError;
pub use crate::pass::{count_input, Action, Event, Pass};
pub use crate::report::report_lines;
pub use crate::totals::FileMetaData;
