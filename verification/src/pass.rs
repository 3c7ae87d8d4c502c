//! One counting pass: what it does with each thing that its source hands
//! over, and what it asks for next.

use vstd::prelude::*;
use vstd::slice::*;
use vstd::utf8::*;
use crate::args::Selection;
use crate::chunk::{lemma_first_chunk_shape, ChunkReader};
use crate::error::WcError;
use crate::laws::{lemma_counts_concat, lemma_valid_by_parts, line_aligned};
use crate::model::Counts;
use crate::report::{report, report_lines, texts};
use crate::totals::FileMetaData;

verus! {

/// What the source of a pass hands over.
#[derive(Debug)]
pub enum Event<'a> {
    /// The next chunk of the input.
    Chunk(&'a [u8]),
    /// The input has ended.
    EndOfStream,
    /// The source could not be opened or read.
    SourceFailed(WcError),
}

/// An event, with the bytes of its chunk as a sequence.
pub enum EventView {
    Chunk(Seq<u8>),
    EndOfStream,
    SourceFailed(WcError),
}

impl<'a> View for Event<'a> {
    type V = EventView;

    open spec fn view(&self) -> EventView {
        match *self {
            Event::Chunk(bytes) => EventView::Chunk(bytes@),
            Event::EndOfStream => EventView::EndOfStream,
            Event::SourceFailed(error) => EventView::SourceFailed(error),
        }
    }
}

/// How far a pass has come.
#[derive(Debug)]
pub enum Pass {
    /// The input has not ended; these are the totals so far.
    Counting(FileMetaData),
    /// The input has ended; these are its totals.
    Done(FileMetaData),
    /// The pass was given up, and its totals with it.
    Failed(WcError),
}

/// A pass, with its totals as numbers.
pub enum PassView {
    Counting(Counts),
    Done(Counts),
    Failed(WcError),
}

impl View for Pass {
    type V = PassView;

    open spec fn view(&self) -> PassView {
        match *self {
            Pass::Counting(totals) => PassView::Counting(totals@),
            Pass::Done(totals) => PassView::Done(totals@),
            Pass::Failed(error) => PassView::Failed(error),
        }
    }
}

/// What the caller of a pass is to do next.
#[derive(Debug)]
pub enum Action {
    /// Read on, and hand over what the source gives.
    Read,
    /// Print these lines: the pass has succeeded.
    Print(Vec<String>),
    /// Report this error and print no line: the pass has failed.
    Fail(WcError),
}

/// The pass that follows `pass` on `event`. While it counts, a pass adds up
/// the chunks, ends with the input, and fails on a chunk that is not valid
/// UTF-8 or when its source fails. A pass that has ended or failed stays as
/// it is, whatever follows.
pub open spec fn after(pass: PassView, event: EventView) -> PassView {
    match pass {
        PassView::Counting(totals) => match event {
            EventView::Chunk(bytes) => if valid_utf8(bytes) {
                PassView::Counting(totals.plus(Counts::of(bytes)))
            } else {
                PassView::Failed(WcError::Encoding)
            },
            EventView::EndOfStream => PassView::Done(totals),
            EventView::SourceFailed(error) => PassView::Failed(error),
        },
        _ => pass,
    }
}

/// Where a chunk ends with a line and the next chunk follows it, a pass comes
/// to the same end whether it takes the two in turn or both as one chunk:
/// to the same totals, or to the same failure.
pub proof fn lemma_chunks_in_turn(pass: PassView, a: Seq<u8>, b: Seq<u8>)
    requires
        line_aligned(a),
    ensures
        after(after(pass, EventView::Chunk(a)), EventView::Chunk(b)) == after(
            pass,
            EventView::Chunk(a + b),
        ),
{
    lemma_valid_by_parts(a, b);
    lemma_counts_concat(a, b);
}

impl Pass {
    /// A pass that has seen no input.
    pub fn new() -> (pass: Pass)
        ensures
            pass@ == PassView::Counting(Counts::zero()),
    {
        Pass::Counting(FileMetaData::new())
    }

    /// Takes `event` in.
    pub fn step(self, event: Event<'_>) -> (next: Pass)
        requires
            self@ matches PassView::Counting(totals) ==> (event@ matches EventView::Chunk(bytes)
                ==> totals.bytes + bytes.len() <= usize::MAX),
        ensures
            next@ == after(self@, event@),
    {
        match self {
            Pass::Counting(mut totals) => match event {
                Event::Chunk(bytes) => match totals.feed(bytes) {
                    Ok(()) => Pass::Counting(totals),
                    Err(error) => Pass::Failed(error),
                },
                Event::EndOfStream => Pass::Done(totals),
                Event::SourceFailed(error) => Pass::Failed(error),
            },
            Pass::Done(totals) => Pass::Done(totals),
            Pass::Failed(error) => Pass::Failed(error),
        }
    }

    /// What to do next: read on while the pass counts; print the report on
    /// the totals, for `chosen` and under `label`, once the input has ended;
    /// report the error once the pass has failed.
    pub fn action(&self, chosen: Selection, label: &str) -> (action: Action)
        ensures
            match self@ {
                PassView::Counting(_) => action is Read,
                PassView::Done(totals) => action matches Action::Print(lines) && texts(lines@)
                    == report(totals, chosen, label@),
                PassView::Failed(error) => action matches Action::Fail(shown) && shown == error,
            },
    {
        match self {
            Pass::Counting(_) => Action::Read,
            Pass::Done(totals) => Action::Print(report_lines(totals, chosen, label)),
            Pass::Failed(error) => Action::Fail(*error),
        }
    }
}

/// Runs a pass over `input`, handing it over chunk by chunk, one line to a
/// chunk, and returns the totals: the four counts of `input` as a whole.
/// Fails, with `WcError::Encoding`, exactly when `input` is not valid UTF-8.
pub fn count_input(input: &[u8]) -> (r: Result<FileMetaData, WcError>)
    ensures
        r is Ok <==> valid_utf8(input@),
        r matches Ok(totals) ==> totals@ == Counts::of(input@),
        r matches Err(e) ==> e == WcError::Encoding,
{
    let mut pass = Pass::new();
    let mut reader = ChunkReader::new(input);
    let ghost mut done = Seq::<u8>::empty();
    assert(done + reader@ =~= input@);
    assert(input@.len() <= usize::MAX) by {
        axiom_spec_len(input);
    }
    assert(Counts::of(done) == Counts::zero()) by {
        lemma_counts_concat(done, done);
        assert(done + done =~= done);
    }
    loop
        invariant
            input@.len() <= usize::MAX,
            done + reader@ == input@,
            line_aligned(done) || reader@.len() == 0,
            valid_utf8(done),
            pass@ == PassView::Counting(Counts::of(done)),
        decreases reader@.len(),
    {
        let ghost left = reader@;
        match reader.next_chunk() {
            None => {
                assert(done =~= input@);
                pass = pass.step(Event::EndOfStream);
            },
            Some(chunk) => {
                proof {
                    lemma_first_chunk_shape(left);
                    assert(done + (chunk@ + reader@) =~= (done + chunk@) + reader@);
                    lemma_valid_by_parts(done, left);
                    if line_aligned(chunk@) {
                        lemma_valid_by_parts(chunk@, reader@);
                    } else {
                        assert(chunk@ =~= left);
                    }
                    lemma_counts_concat(done, chunk@);
                    lemma_valid_by_parts(done, chunk@);
                    done = done + chunk@;
                }
                pass = pass.step(Event::Chunk(chunk));
            },
        }
        match pass {
            Pass::Counting(_) => {},
            Pass::Done(totals) => {
                return Ok(totals);
            },
            Pass::Failed(error) => {
                return Err(error);
            },
        }
    }
}

} // verus!
