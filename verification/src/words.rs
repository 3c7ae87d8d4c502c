//! Counting words by the places where they start, and what follows from it.

use vstd::prelude::*;
use crate::model::{is_whitespace, is_word, word_count, words};

verus! {

/// A word starts at `i`: the byte there is no whitespace, and it is the first
/// byte of `s` or follows a whitespace byte.
pub open spec fn starts_word(s: Seq<u8>, i: int) -> bool {
    &&& 0 <= i < s.len()
    &&& !is_whitespace(s[i])
    &&& (i == 0 || is_whitespace(s[i - 1]))
}

/// The number of indices below `n` at which a word starts.
pub open spec fn word_starts_before(s: Seq<u8>, n: int) -> nat
    decreases n,
{
    if n <= 0 {
        0
    } else {
        word_starts_before(s, n - 1) + if starts_word(s, n - 1) {
            1nat
        } else {
            0nat
        }
    }
}

/// The first index from `i` on that holds a whitespace byte, or the length of
/// `s` where there is none.
pub open spec fn run_end(s: Seq<u8>, i: int) -> int
    decreases s.len() - i,
{
    if i < 0 || i >= s.len() || is_whitespace(s[i]) {
        i
    } else {
        run_end(s, i + 1)
    }
}

/// No whitespace stands between `i` and `run_end(s, i)`, and the run cannot
/// go on beyond it.
proof fn lemma_run_end(s: Seq<u8>, i: int)
    requires
        0 <= i <= s.len(),
    ensures
        i <= run_end(s, i) <= s.len(),
        forall|k: int| i <= k < run_end(s, i) ==> !is_whitespace(#[trigger] s[k]),
        run_end(s, i) == s.len() || is_whitespace(s[run_end(s, i)]),
    decreases s.len() - i,
{
    if i < s.len() && !is_whitespace(s[i]) {
        lemma_run_end(s, i + 1);
    }
}

/// A word starts exactly where `starts_word` says, and the word that starts
/// at `from` ends at `run_end(s, from)` and nowhere else.
pub proof fn lemma_word_by_start(s: Seq<u8>, from: int, to: int)
    ensures
        is_word(s, from, to) <==> starts_word(s, from) && to == run_end(s, from),
{
    if 0 <= from < s.len() {
        lemma_run_end(s, from);
        let end = run_end(s, from);
        if is_word(s, from, to) {
            if to < end {
                assert(!is_whitespace(s[to]));
            }
            if end < to {
                assert(!is_whitespace(s[end]));
            }
        }
        if starts_word(s, from) && to == end {
            assert(end > from);
        }
    }
}

/// The words of `s` that start below `n`.
pub open spec fn words_before(s: Seq<u8>, n: int) -> Set<(int, int)> {
    Set::new(|w: (int, int)| is_word(s, w.0, w.1) && w.0 < n)
}

/// There are as many words that start below `n` as places below `n` where a
/// word starts.
proof fn lemma_words_before(s: Seq<u8>, n: int)
    ensures
        words_before(s, n).finite(),
        words_before(s, n).len() == word_starts_before(s, n),
    decreases n,
{
    if n <= 0 {
        assert(words_before(s, n) =~= Set::<(int, int)>::empty());
    } else {
        lemma_words_before(s, n - 1);
        let earlier = words_before(s, n - 1);
        assert forall|w: (int, int)| is_word(s, w.0, w.1) && w.0 == n - 1 implies w == (
            n - 1,
            run_end(s, n - 1),
        ) by {
            lemma_word_by_start(s, w.0, w.1);
        }
        lemma_word_by_start(s, n - 1, run_end(s, n - 1));
        if starts_word(s, n - 1) {
            assert(words_before(s, n) =~= earlier.insert((n - 1, run_end(s, n - 1))));
        } else {
            assert(words_before(s, n) =~= earlier);
        }
    }
}

/// The words of `s` are finitely many, and there are as many of them as
/// places where a word starts.
pub proof fn lemma_word_count_by_starts(s: Seq<u8>)
    ensures
        words(s).finite(),
        word_count(s) == word_starts_before(s, s.len() as int),
{
    lemma_words_before(s, s.len() as int);
    assert(words(s) =~= words_before(s, s.len() as int));
}

/// A word runs across the place where `a` and `b` meet: 1 if it does, else 0.
pub open spec fn joined_words(a: Seq<u8>, b: Seq<u8>) -> nat {
    if a.len() > 0 && b.len() > 0 && !is_whitespace(a.last()) && !is_whitespace(b.first()) {
        1
    } else {
        0
    }
}

/// No more than `n` words start below `n`, and none starts at or after the
/// end of `s`.
proof fn lemma_word_starts_bound(s: Seq<u8>, n: int)
    ensures
        word_starts_before(s, n) <= if n <= 0 {
            0
        } else if n <= s.len() {
            n
        } else {
            s.len() as int
        },
    decreases n,
{
    if n > 0 {
        lemma_word_starts_bound(s, n - 1);
    }
}

/// There are no more words in `s` than bytes.
pub proof fn lemma_word_count_bound(s: Seq<u8>)
    ensures
        word_count(s) <= s.len(),
{
    lemma_word_count_by_starts(s);
    lemma_word_starts_bound(s, s.len() as int);
}

/// Below the end of `a`, the same words start in `a + b` as in `a`.
proof fn lemma_word_starts_in_prefix(a: Seq<u8>, b: Seq<u8>, n: int)
    requires
        n <= a.len(),
    ensures
        word_starts_before(a + b, n) == word_starts_before(a, n),
    decreases n,
{
    if n > 0 {
        lemma_word_starts_in_prefix(a, b, n - 1);
    }
}

/// In `a + b`, the words that start in `b` are those of `b`, less the one
/// that only continues a word of `a`.
proof fn lemma_word_starts_in_suffix(a: Seq<u8>, b: Seq<u8>, n: int)
    requires
        0 <= n <= b.len(),
    ensures
        word_starts_before(a + b, a.len() + n) + (if n > 0 {
            joined_words(a, b)
        } else {
            0
        }) == word_starts_before(a, a.len() as int) + word_starts_before(b, n),
    decreases n,
{
    if n == 0 {
        lemma_word_starts_in_prefix(a, b, a.len() as int);
    } else {
        lemma_word_starts_in_suffix(a, b, n - 1);
        let at = a.len() + n - 1;
        assert((a + b)[at] == b[n - 1]);
        if n == 1 {
            if a.len() > 0 {
                assert((a + b)[at - 1] == a.last());
            }
        } else {
            assert((a + b)[at - 1] == b[n - 2]);
        }
    }
}

/// The words of a concatenation are those of its parts, but that a word
/// which runs across the place where they meet counts once.
pub proof fn lemma_word_count_concat(a: Seq<u8>, b: Seq<u8>)
    ensures
        word_count(a + b) + joined_words(a, b) == word_count(a) + word_count(b),
{
    lemma_word_count_by_starts(a);
    lemma_word_count_by_starts(b);
    lemma_word_count_by_starts(a + b);
    lemma_word_starts_in_suffix(a, b, b.len() as int);
}

} // verus!
