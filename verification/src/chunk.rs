//! Cutting an input that is held in memory into chunks, one line each.

use vstd::prelude::*;
use vstd::slice::*;
use crate::model::LINE_FEED;

verus! {

/// The length of the first chunk of `s`: up to and including the first line
/// feed, or all of `s` where it holds none.
pub open spec fn first_chunk_len(s: Seq<u8>) -> int {
    match s.index_of_first(LINE_FEED) {
        Some(i) => i + 1,
        None => s.len() as int,
    }
}

/// The first chunk of `s`.
pub open spec fn first_chunk(s: Seq<u8>) -> Seq<u8> {
    s.take(first_chunk_len(s))
}

/// A prefix of `s` that holds no line feed before its last byte, and that
/// ends with a line feed or is all of `s`, is the first chunk of `s`: its
/// length `n` is that of no other prefix.
pub proof fn lemma_first_chunk(s: Seq<u8>, n: int)
    requires
        0 <= n <= s.len(),
        forall|k: int| 0 <= k < n - 1 ==> s[k] != LINE_FEED,
        n == s.len() || (n > 0 && s[n - 1] == LINE_FEED),
    ensures
        first_chunk_len(s) == n,
{
    s.index_of_first_ensures(LINE_FEED);
    match s.index_of_first(LINE_FEED) {
        Some(i) => {
            if i + 1 < n {
                assert(s[i] != LINE_FEED);
            }
        },
        None => {
            if n < s.len() {
                assert(s.contains(s[n - 1]));
            }
        },
    }
}

/// The first chunk of a sequence that is not empty is not empty, holds no
/// line feed before its last byte, and ends with a line feed unless it is the
/// whole sequence.
pub proof fn lemma_first_chunk_shape(s: Seq<u8>)
    ensures
        0 <= first_chunk_len(s) <= s.len(),
        s.len() > 0 ==> first_chunk_len(s) > 0,
        forall|k: int| 0 <= k < first_chunk_len(s) - 1 ==> s[k] != LINE_FEED,
        first_chunk_len(s) == s.len() || first_chunk(s).last() == LINE_FEED,
        first_chunk(s) + s.skip(first_chunk_len(s)) == s,
{
    s.index_of_first_ensures(LINE_FEED);
    assert(first_chunk(s) + s.skip(first_chunk_len(s)) =~= s);
}

/// Hands out an input chunk by chunk and in order. Every chunk but the last
/// ends with a line feed, and no chunk holds another one.
pub struct ChunkReader<'a> {
    source: &'a [u8],
    at: usize,
}

impl<'a> View for ChunkReader<'a> {
    type V = Seq<u8>;

    /// What has not been handed out yet.
    closed spec fn view(&self) -> Seq<u8> {
        self.source@.skip(self.at as int)
    }
}

impl<'a> ChunkReader<'a> {
    #[verifier::type_invariant]
    spec fn in_bounds(self) -> bool {
        self.at <= self.source@.len()
    }

    /// A reader with all of `source` still to hand out.
    pub fn new(source: &'a [u8]) -> (reader: Self)
        ensures
            reader@ == source@,
    {
        assert(source@.skip(0) =~= source@);
        ChunkReader { source, at: 0 }
    }

    /// Hands out the next chunk, or `None` when the input is used up.
    pub fn next_chunk(&mut self) -> (chunk: Option<&'a [u8]>)
        ensures
            old(self)@.len() == 0 ==> chunk is None && final(self)@ == old(self)@,
            old(self)@.len() > 0 ==> chunk is Some,
            chunk matches Some(c) ==> c@ == first_chunk(old(self)@) && c@.len() > 0,
            chunk matches Some(c) ==> final(self)@ == old(self)@.skip(c@.len() as int),
    {
        proof {
            use_type_invariant(&*self);
        }
        let source = self.source;
        let len = source.len();
        let start = self.at;
        if start == len {
            return None;
        }
        let ghost left = source@.skip(start as int);
        let mut end = start;
        let mut closed = false;
        while end < len && !closed
            invariant
                len == source@.len(),
                start <= end <= len,
                start < len,
                forall|k: int| start <= k < end - 1 ==> source@[k] != LINE_FEED,
                closed ==> end > start && source@[end - 1] == LINE_FEED,
                !closed && end > start ==> source@[end - 1] != LINE_FEED,
            decreases len - end + if closed { 0int } else { 1int },
        {
            closed = source[end] == LINE_FEED;
            end = end + 1;
        }
        proof {
            lemma_first_chunk(left, end - start);
            assert(left.take(end - start) =~= source@.subrange(start as int, end as int));
            assert(left.skip(end - start) =~= source@.skip(end as int));
        }
        self.at = end;
        Some(slice_subrange(source, start, end))
    }
}

} // verus!
