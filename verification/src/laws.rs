//! What holds of the counts of every byte sequence: their bounds, and how the
//! counts of a concatenation follow from those of its parts. What holds of
//! words alone stands with the words.

use vstd::prelude::*;
use vstd::utf8::*;
use crate::model::{byte_count, char_count, line_count, word_count, Counts, LINE_FEED};
use crate::words::lemma_word_count_concat;

verus! {

/// `s` is empty or ends with a line feed, so that a chunk boundary after it
/// falls between two lines.
pub open spec fn line_aligned(s: Seq<u8>) -> bool {
    s.len() == 0 || s.last() == LINE_FEED
}

/// There are no more line feeds in `s` than bytes.
pub proof fn lemma_line_count_bound(s: Seq<u8>)
    ensures
        line_count(s) <= s.len(),
{
    broadcast use vstd::multiset::group_multiset_axioms;

    s.to_multiset_ensures();
}

/// Valid UTF-8 encodes no more scalar values than it has bytes.
pub proof fn lemma_char_count_bound(s: Seq<u8>)
    requires
        valid_utf8(s),
    ensures
        char_count(s) <= s.len(),
    decreases s.len(),
{
    if s.len() > 0 {
        lemma_char_count_bound(pop_first_scalar(s));
    }
}

/// The line feeds of a concatenation are those of its parts.
pub proof fn lemma_line_count_concat(a: Seq<u8>, b: Seq<u8>)
    ensures
        line_count(a + b) == line_count(a) + line_count(b),
{
    broadcast use vstd::multiset::group_multiset_axioms;

    vstd::seq_lib::lemma_multiset_commutative(a, b);
}

/// Two valid UTF-8 sequences make a valid one, which encodes the scalar
/// values of the first and then those of the second.
pub proof fn lemma_decode_concat(a: Seq<u8>, b: Seq<u8>)
    requires
        valid_utf8(a),
        valid_utf8(b),
    ensures
        valid_utf8(a + b),
        decode_utf8(a + b) == decode_utf8(a) + decode_utf8(b),
    decreases a.len(),
{
    valid_utf8_concat(a, b);
    if a.len() == 0 {
        assert(a + b =~= b);
    } else {
        let rest = pop_first_scalar(a);
        lemma_decode_concat(rest, b);
        assert(pop_first_scalar(a + b) =~= rest + b);
        assert(decode_utf8(a + b) =~= decode_utf8(a) + decode_utf8(b));
    }
}

/// In valid UTF-8 a scalar value ends wherever an ASCII byte does.
pub proof fn lemma_boundary_after_ascii(s: Seq<u8>, i: int)
    requires
        valid_utf8(s),
        0 <= i <= s.len(),
        i > 0 ==> s[i - 1] <= 0x7f,
    ensures
        is_char_boundary(s, i),
    decreases s.len(),
{
    if i > 0 {
        let width = length_of_first_scalar(s);
        let rest = pop_first_scalar(s);
        assert(valid_first_scalar(s) && valid_utf8(rest));
        // The byte at `i - 1` is neither a continuation byte nor the first of
        // several, so it does not stand before the end of the first scalar.
        assert(i >= width);
        assert(rest.len() == s.len() - width);
        if i > width {
            assert(rest[i - width - 1] == s[i - 1]);
            lemma_boundary_after_ascii(rest, i - width);
        }
        assert(is_char_boundary(rest, i - width));
    }
}

/// Where valid UTF-8 is cut after an ASCII byte, both parts are valid.
pub proof fn lemma_valid_parts(a: Seq<u8>, b: Seq<u8>)
    requires
        valid_utf8(a + b),
        a.len() > 0 ==> a.last() <= 0x7f,
    ensures
        valid_utf8(a),
        valid_utf8(b),
{
    let whole = a + b;
    let cut = a.len() as int;
    if cut > 0 {
        assert(whole[cut - 1] == a.last());
    }
    lemma_boundary_after_ascii(whole, cut);
    valid_utf8_split(whole, cut);
    assert(whole.subrange(0, cut) =~= a);
    assert(whole.subrange(cut, whole.len() as int) =~= b);
}

/// Counting a concatenation is counting its parts and adding up: for bytes
/// and lines always, and for words and characters too where the first part
/// is line-aligned and the whole is valid UTF-8. Both parts are then valid
/// UTF-8 themselves.
pub proof fn lemma_counts_concat(a: Seq<u8>, b: Seq<u8>)
    ensures
        byte_count(a + b) == byte_count(a) + byte_count(b),
        line_count(a + b) == line_count(a) + line_count(b),
        line_aligned(a) ==> word_count(a + b) == word_count(a) + word_count(b),
        line_aligned(a) && valid_utf8(a + b) ==> valid_utf8(a) && valid_utf8(b) && Counts::of(
            a + b,
        ) == Counts::of(a).plus(Counts::of(b)),
{
    lemma_line_count_concat(a, b);
    lemma_word_count_concat(a, b);
    if line_aligned(a) && valid_utf8(a + b) {
        lemma_valid_parts(a, b);
        lemma_decode_concat(a, b);
    }
}

/// A sequence is valid UTF-8 exactly when a line-aligned first part of it and
/// what follows that part both are.
pub proof fn lemma_valid_by_parts(a: Seq<u8>, b: Seq<u8>)
    requires
        line_aligned(a),
    ensures
        valid_utf8(a + b) <==> valid_utf8(a) && valid_utf8(b),
{
    if valid_utf8(a + b) {
        lemma_valid_parts(a, b);
    }
    if valid_utf8(a) && valid_utf8(b) {
        valid_utf8_concat(a, b);
    }
}

/// Input that holds ASCII bytes only is valid UTF-8, and has as many
/// characters as bytes.
pub proof fn lemma_ascii_counts(s: Seq<u8>)
    requires
        forall|i: int| 0 <= i < s.len() ==> s[i] <= 0x7f,
    ensures
        valid_utf8(s),
        char_count(s) == byte_count(s),
    decreases s.len(),
{
    if s.len() > 0 {
        let first = s[0];
        assert((first & 0x7f) as u32 <= 0x7f) by (bit_vector);
        let rest = pop_first_scalar(s);
        assert(rest =~= s.subrange(1, s.len() as int));
        lemma_ascii_counts(rest);
    }
}

} // verus!
