//! What a caller asks for: the counters to report, and the source to read.

use vstd::prelude::*;
use vstd::string::*;

verus! {

/// The counters that a report shows.
#[derive(Clone, Copy, Debug, PartialEq, Eq, Structural)]
pub struct Selection {
    pub bytes: bool,
    pub lines: bool,
    pub words: bool,
    pub chars: bool,
}

impl Selection {
    /// No counter is chosen. The report then shows lines, words and bytes.
    pub open spec fn none_chosen(self) -> bool {
        !self.bytes && !self.lines && !self.words && !self.chars
    }

    /// Tells whether no counter is chosen.
    pub fn is_empty(&self) -> (r: bool)
        ensures
            r == self.none_chosen(),
    {
        !self.bytes && !self.lines && !self.words && !self.chars
    }
}

/// The arguments of one invocation.
#[derive(Debug)]
pub struct Args {
    /// Report the number of bytes.
    pub count_bytes: bool,
    /// Report the number of lines.
    pub count_lines: bool,
    /// Report the number of words.
    pub count_words: bool,
    /// Report the number of characters.
    pub count_chars: bool,
    /// The path of the file to read; empty to read standard input.
    pub file_name: String,
}

impl Args {
    /// The counters that `self` asks for.
    pub open spec fn chosen(&self) -> Selection {
        Selection {
            bytes: self.count_bytes,
            lines: self.count_lines,
            words: self.count_words,
            chars: self.count_chars,
        }
    }

    /// The counters that `self` asks for.
    pub fn selection(&self) -> (picked: Selection)
        ensures
            picked == self.chosen(),
    {
        Selection {
            bytes: self.count_bytes,
            lines: self.count_lines,
            words: self.count_words,
            chars: self.count_chars,
        }
    }

    /// Tells whether the input comes from standard input: it does when no
    /// file is named.
    pub fn reads_standard_input(&self) -> (r: bool)
        ensures
            r == (self.file_name@.len() == 0),
    {
        self.file_name.as_str().is_empty()
    }
}

/// Tells whether `args` names no counter, so that the report is the default
/// one.
pub fn is_default_option(args: &Args) -> (r: bool)
    ensures
        r == args.chosen().none_chosen(),
{
    if !args.count_bytes && !args.count_lines && !args.count_words && !args.count_chars {
        return true;
    }
    false
}

} // verus!
