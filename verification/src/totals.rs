//! The running totals of one counting pass.

use vstd::prelude::*;
use vstd::utf8::*;
use crate::count::{count_chars, count_lines, count_word_runs};
use crate::error::WcError;
use crate::laws::{lemma_char_count_bound, lemma_line_count_bound};
use crate::words::lemma_word_count_bound;
use crate::model::Counts;

verus! {

/// The four totals of the chunks taken in so far. No total ever exceeds the
/// number of bytes.
#[derive(Debug)]
pub struct FileMetaData {
    lines: usize,
    chars: usize,
    bytes: usize,
    words: usize,
}

impl View for FileMetaData {
    type V = Counts;

    closed spec fn view(&self) -> Counts {
        Counts {
            bytes: self.bytes as nat,
            lines: self.lines as nat,
            words: self.words as nat,
            chars: self.chars as nat,
        }
    }
}

impl FileMetaData {
    #[verifier::type_invariant]
    spec fn bounded_by_bytes(self) -> bool {
        &&& self.lines <= self.bytes
        &&& self.words <= self.bytes
        &&& self.chars <= self.bytes
    }

    /// The totals before any input: all four are zero.
    pub fn new() -> (totals: Self)
        ensures
            totals@ == Counts::zero(),
    {
        FileMetaData { lines: 0, chars: 0, bytes: 0, words: 0 }
    }

    /// The number of bytes taken in.
    pub fn bytes(&self) -> (n: usize)
        ensures
            n == self@.bytes,
    {
        self.bytes
    }

    /// The number of line feeds taken in: no more than there were bytes.
    pub fn lines(&self) -> (n: usize)
        ensures
            n == self@.lines,
            n <= self@.bytes,
    {
        proof {
            use_type_invariant(self);
        }
        self.lines
    }

    /// The number of words taken in: no more than there were bytes.
    pub fn words(&self) -> (n: usize)
        ensures
            n == self@.words,
            n <= self@.bytes,
    {
        proof {
            use_type_invariant(self);
        }
        self.words
    }

    /// The number of characters taken in: no more than there were bytes.
    pub fn chars(&self) -> (n: usize)
        ensures
            n == self@.chars,
            n <= self@.bytes,
    {
        proof {
            use_type_invariant(self);
        }
        self.chars
    }

    /// Takes in one chunk: adds its four counts to the totals. A chunk that
    /// is not valid UTF-8 is refused with `WcError::Encoding`, and the totals
    /// stay as they were.
    ///
    /// Each chunk is counted by itself. Where every chunk but the last ends
    /// with a line feed, the totals are the counts of the input as a whole; a
    /// word or a character that a chunk boundary cuts in two is not put
    /// together again.
    pub fn feed(&mut self, chunk: &[u8]) -> (r: Result<(), WcError>)
        requires
            old(self)@.bytes + chunk@.len() <= usize::MAX,
        ensures
            r is Ok <==> valid_utf8(chunk@),
            r is Ok ==> final(self)@ == old(self)@.plus(Counts::of(chunk@)),
            r matches Err(e) ==> e == WcError::Encoding && final(self)@ == old(self)@,
            old(self)@.le(final(self)@),
    {
        proof {
            use_type_invariant(&*self);
            lemma_line_count_bound(chunk@);
            lemma_word_count_bound(chunk@);
        }
        match count_chars(chunk) {
            Err(e) => Err(e),
            Ok(chars) => {
                proof {
                    lemma_char_count_bound(chunk@);
                }
                let lines = count_lines(chunk);
                let words = count_word_runs(chunk);
                *self = FileMetaData {
                    lines: self.lines + lines,
                    chars: self.chars + chars,
                    bytes: self.bytes + chunk.len(),
                    words: self.words + words,
                };
                Ok(())
            },
        }
    }
}

} // verus!
