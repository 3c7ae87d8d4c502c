//! What the four counts of a byte sequence are.

use vstd::prelude::*;
use vstd::utf8::*;

verus! {

/// The byte that closes a line.
pub const LINE_FEED: u8 = 10;

/// The bytes that separate words: horizontal tab, line feed, vertical tab,
/// form feed, carriage return and space.
pub open spec fn is_whitespace(b: u8) -> bool {
    b == 32 || (9 <= b && b <= 13)
}

/// The number of bytes of `s`.
pub open spec fn byte_count(s: Seq<u8>) -> nat {
    s.len()
}

/// The number of line feeds in `s`. Bytes after the last line feed belong to
/// no line.
pub open spec fn line_count(s: Seq<u8>) -> nat {
    s.to_multiset().count(LINE_FEED)
}

/// The bytes of `s` from `from` up to `to` are a word: a run of bytes that
/// are no whitespace, which is not empty and cannot be made longer at either
/// end.
pub open spec fn is_word(s: Seq<u8>, from: int, to: int) -> bool {
    &&& 0 <= from < to <= s.len()
    &&& forall|k: int| from <= k < to ==> !is_whitespace(#[trigger] s[k])
    &&& (from == 0 || is_whitespace(s[from - 1]))
    &&& (to == s.len() || is_whitespace(s[to]))
}

/// The words of `s`, each as the pair of the index where it starts and the
/// index where it ends.
pub open spec fn words(s: Seq<u8>) -> Set<(int, int)> {
    Set::new(|w: (int, int)| is_word(s, w.0, w.1))
}

/// The number of words in `s`, which are finitely many.
pub open spec fn word_count(s: Seq<u8>) -> nat {
    words(s).len()
}

/// The number of Unicode scalar values that `s` encodes, for `s` valid UTF-8.
pub open spec fn char_count(s: Seq<u8>) -> nat
    recommends
        valid_utf8(s),
{
    decode_utf8(s).len()
}

/// Four counts taken together.
pub struct Counts {
    pub bytes: nat,
    pub lines: nat,
    pub words: nat,
    pub chars: nat,
}

impl Counts {
    /// No input seen.
    pub open spec fn zero() -> Counts {
        Counts { bytes: 0, lines: 0, words: 0, chars: 0 }
    }

    /// The counts of `s` taken as one chunk.
    pub open spec fn of(s: Seq<u8>) -> Counts {
        Counts {
            bytes: byte_count(s),
            lines: line_count(s),
            words: word_count(s),
            chars: char_count(s),
        }
    }

    /// Counter by counter, the sum of `self` and `other`.
    pub open spec fn plus(self, other: Counts) -> Counts {
        Counts {
            bytes: self.bytes + other.bytes,
            lines: self.lines + other.lines,
            words: self.words + other.words,
            chars: self.chars + other.chars,
        }
    }

    /// No counter of `self` is above that of `other`.
    pub open spec fn le(self, other: Counts) -> bool {
        &&& self.bytes <= other.bytes
        &&& self.lines <= other.lines
        &&& self.words <= other.words
        &&& self.chars <= other.chars
    }
}

} // verus!
