//! The four counts of one chunk of bytes.

use vstd::prelude::*;
use vstd::slice::*;
use vstd::utf8::*;
use crate::encoding::{scalar_width, tail};
use crate::error::WcError;
use crate::model::{byte_count, char_count, is_whitespace, line_count, word_count, LINE_FEED};
use crate::words::{lemma_word_count_by_starts, word_starts_before};

verus! {

/// Counts the Unicode scalar values that `bytes` encodes. Fails, with
/// `WcError::Encoding`, exactly when `bytes` is not valid UTF-8.
pub fn count_chars(bytes: &[u8]) -> (r: Result<usize, WcError>)
    ensures
        r is Ok <==> valid_utf8(bytes@),
        r matches Ok(n) ==> n == char_count(bytes@),
        r matches Err(e) ==> e == WcError::Encoding,
{
    let len = bytes.len();
    let mut at: usize = 0;
    let mut seen: usize = 0;
    assert(tail(bytes@, 0) =~= bytes@);
    while at < len
        invariant
            len == bytes@.len(),
            seen <= at <= len,
            valid_utf8(bytes@) <==> valid_utf8(tail(bytes@, at as int)),
            valid_utf8(bytes@) ==> decode_utf8(bytes@).len() == seen + decode_utf8(
                tail(bytes@, at as int),
            ).len(),
        decreases len - at,
    {
        let ghost rest = tail(bytes@, at as int);
        match scalar_width(bytes, at) {
            None => {
                assert(!valid_utf8(rest));
                return Err(WcError::Encoding);
            },
            Some(w) => {
                assert(pop_first_scalar(rest) =~= tail(bytes@, at + w));
                at = at + w;
                seen = seen + 1;
            },
        }
    }
    Ok(seen)
}

/// Tells whether `b` separates words.
pub fn is_space(b: u8) -> (r: bool)
    ensures
        r == is_whitespace(b),
{
    b == 32 || (9 <= b && b <= 13)
}

/// Counts the bytes of `bytes`, whatever they encode.
pub fn count_bytes(bytes: &[u8]) -> (n: usize)
    ensures
        n == byte_count(bytes@),
{
    bytes.len()
}

/// Counts the line feeds in `bytes`, whatever else it holds.
pub fn count_lines(bytes: &[u8]) -> (n: usize)
    ensures
        n == line_count(bytes@),
{
    let len = bytes.len();
    let mut at: usize = 0;
    let mut seen: usize = 0;
    proof {
        let none = bytes@.take(0);
        none.to_multiset_ensures();
        assert(!none.contains(LINE_FEED));
    }
    while at < len
        invariant
            len == bytes@.len(),
            seen <= at <= len,
            seen == line_count(bytes@.take(at as int)),
        decreases len - at,
    {
        proof {
            let before = bytes@.take(at as int);
            assert(bytes@.take(at + 1) =~= before.push(bytes@[at as int]));
            vstd::seq_lib::to_multiset_build(before, bytes@[at as int]);
        }
        if bytes[at] == LINE_FEED {
            seen = seen + 1;
        }
        at = at + 1;
    }
    assert(bytes@.take(len as int) =~= bytes@);
    seen
}

/// Counts the maximal runs of bytes of `bytes` that are no whitespace,
/// whatever the bytes encode.
pub fn count_word_runs(bytes: &[u8]) -> (n: usize)
    ensures
        n == word_count(bytes@),
{
    let len = bytes.len();
    let mut at: usize = 0;
    let mut seen: usize = 0;
    let mut after_space = true;
    while at < len
        invariant
            len == bytes@.len(),
            seen <= at <= len,
            seen == word_starts_before(bytes@, at as int),
            after_space == (at == 0 || is_whitespace(bytes@[at - 1])),
        decreases len - at,
    {
        let space = is_space(bytes[at]);
        if after_space && !space {
            seen = seen + 1;
        }
        after_space = space;
        at = at + 1;
    }
    proof {
        lemma_word_count_by_starts(bytes@);
    }
    seen
}

/// Counts the words of `bytes`. Fails, with `WcError::Encoding`, exactly when
/// `bytes` is not valid UTF-8.
pub fn count_words(bytes: &[u8]) -> (r: Result<usize, WcError>)
    ensures
        r is Ok <==> valid_utf8(bytes@),
        r matches Ok(n) ==> n == word_count(bytes@),
        r matches Err(e) ==> e == WcError::Encoding,
{
    match count_chars(bytes) {
        Ok(_) => Ok(count_word_runs(bytes)),
        Err(e) => Err(e),
    }
}

} // verus!
