//! Putting the outcomes of a batch back together.
//!
//! The outcomes arrive in the order in which the chunks were finished. One
//! failure fails the batch. Otherwise the transcripts are brought into the
//! order of their chunks and merged.

use crate::decimal::{decimal, push_decimal};
use crate::error::TranscriptionError;
use crate::merge::{merge_transcriptions, merged_text, ChunkTranscription};
use crate::text::{from_chars, push_text};
use vstd::prelude::*;

verus! {

/// How the transcription of one chunk ended.
#[derive(Debug)]
pub enum ChunkOutcome {
    /// The chunk was transcribed.
    Success(ChunkTranscription),
    /// The chunk with the given index could not be transcribed.
    Failure { index: usize, cause: TranscriptionError },
}

/// The failure of a batch: at least one of its chunks could not be
/// transcribed.
#[derive(Debug)]
pub struct AggregateError {
    /// Number of chunks that failed.
    pub failed_count: usize,
    /// Number of chunks in the batch.
    pub total_count: usize,
    /// Why each failed chunk failed, in the order in which the failures
    /// arrived.
    pub causes: Vec<TranscriptionError>,
}

/// The messages of the causes, each on a line of its own.
pub open spec fn cause_lines(causes: Seq<TranscriptionError>) -> Seq<char>
    decreases causes.len(),
{
    if causes.len() == 0 {
        Seq::empty()
    } else if causes.len() == 1 {
        causes[0].message_text()
    } else {
        cause_lines(causes.drop_last()).push('\n') + causes.last().message_text()
    }
}

impl AggregateError {
    /// The message that describes the failure to the user: how many chunks
    /// failed, and below that every cause.
    pub open spec fn message_text(self) -> Seq<char> {
        "Failed to transcribe "@ + decimal(self.failed_count as nat) + " of "@ + decimal(
            self.total_count as nat,
        ) + " chunks:\n"@ + cause_lines(self.causes@)
    }

    /// The message that describes the failure to the user.
    pub fn message(&self) -> (r: String)
        ensures
            r@ == self.message_text(),
    {
        let mut acc: Vec<char> = Vec::new();
        push_text(&mut acc, "Failed to transcribe ");
        push_decimal(&mut acc, self.failed_count as u64);
        push_text(&mut acc, " of ");
        push_decimal(&mut acc, self.total_count as u64);
        push_text(&mut acc, " chunks:\n");
        let ghost head = acc@;
        let mut i: usize = 0;
        while i < self.causes.len()
            invariant
                i <= self.causes.len(),
                acc@ == head + cause_lines(self.causes@.take(i as int)),
            decreases self.causes.len() - i,
        {
            if i > 0 {
                acc.push('\n');
            }
            self.causes[i].push_message(&mut acc);
            proof {
                assert(self.causes@.take(i as int + 1).drop_last() == self.causes@.take(
                    i as int,
                ));
            }
            i += 1;
        }
        assert(self.causes@.take(i as int) == self.causes@);
        from_chars(&acc)
    }
}

impl ChunkOutcome {
    /// The index of the chunk that the outcome belongs to.
    pub open spec fn chunk_index(self) -> usize {
        match self {
            ChunkOutcome::Success(transcription) => transcription.index,
            ChunkOutcome::Failure { index, cause } => index,
        }
    }
}

/// The transcripts among the outcomes, in the order of arrival.
pub open spec fn successes(outcomes: Seq<ChunkOutcome>) -> Seq<ChunkTranscription>
    decreases outcomes.len(),
{
    if outcomes.len() == 0 {
        Seq::empty()
    } else {
        match outcomes.last() {
            ChunkOutcome::Success(transcription) => successes(outcomes.drop_last()).push(
                transcription,
            ),
            ChunkOutcome::Failure { index, cause } => successes(outcomes.drop_last()),
        }
    }
}

/// The causes of the failures among the outcomes, in the order of arrival.
pub open spec fn failures(outcomes: Seq<ChunkOutcome>) -> Seq<TranscriptionError>
    decreases outcomes.len(),
{
    if outcomes.len() == 0 {
        Seq::empty()
    } else {
        match outcomes.last() {
            ChunkOutcome::Success(transcription) => failures(outcomes.drop_last()),
            ChunkOutcome::Failure { index, cause } => failures(outcomes.drop_last()).push(cause),
        }
    }
}

/// `sorted` with `item` put behind the last transcript whose index is not
/// greater than `item`'s.
pub open spec fn insert_by_index(
    sorted: Seq<ChunkTranscription>,
    item: ChunkTranscription,
) -> Seq<ChunkTranscription>
    decreases sorted.len(),
{
    if sorted.len() == 0 {
        seq![item]
    } else if sorted.last().index <= item.index {
        sorted.push(item)
    } else {
        insert_by_index(sorted.drop_last(), item).push(sorted.last())
    }
}

/// The transcripts by ascending chunk index. Transcripts with the same index
/// keep the order in which they were given.
pub open spec fn in_index_order(transcriptions: Seq<ChunkTranscription>) -> Seq<
    ChunkTranscription,
>
    decreases transcriptions.len(),
{
    if transcriptions.len() == 0 {
        Seq::empty()
    } else {
        insert_by_index(in_index_order(transcriptions.drop_last()), transcriptions.last())
    }
}

/// The text that a batch without failures gives.
pub open spec fn assembled_text(outcomes: Seq<ChunkOutcome>) -> Seq<char> {
    merged_text(in_index_order(successes(outcomes)))
}

/// Whether `r` is what the outcomes of a batch give.
///
/// With a failure among them the result is the error, which counts the
/// failures and the outcomes and holds every cause. Without one it is the
/// merged text of the transcripts in the order of their chunks.
pub open spec fn assembled(outcomes: Seq<ChunkOutcome>, r: Result<String, AggregateError>) -> bool {
    match r {
        Ok(text) => failures(outcomes).len() == 0 && text@ == assembled_text(outcomes),
        Err(error) => {
            &&& failures(outcomes).len() > 0
            &&& error.failed_count == failures(outcomes).len()
            &&& error.total_count == outcomes.len()
            &&& error.causes@ == failures(outcomes)
        },
    }
}

/// Inserting at the place that the executable search finds is inserting by
/// index.
proof fn lemma_insert_position(sorted: Seq<ChunkTranscription>, item: ChunkTranscription, p: int)
    requires
        0 <= p <= sorted.len(),
        p > 0 ==> sorted[p - 1].index <= item.index,
        forall|i: int| p <= i < sorted.len() ==> (#[trigger] sorted[i]).index > item.index,
    ensures
        insert_by_index(sorted, item) == sorted.insert(p, item),
    decreases sorted.len() - p,
{
    if p < sorted.len() {
        lemma_insert_position(sorted.drop_last(), item, p);
    }
}

/// Brings transcripts into the order of their chunks.
pub fn sort_by_index(transcriptions: Vec<ChunkTranscription>) -> (sorted: Vec<ChunkTranscription>)
    ensures
        sorted@ == in_index_order(transcriptions@),
{
    let mut sorted: Vec<ChunkTranscription> = Vec::new();
    for item in it: transcriptions
        invariant
            it.seq() == transcriptions@,
            sorted@ == in_index_order(transcriptions@.take(it.index() as int)),
    {
        let mut p: usize = sorted.len();
        while p > 0 && sorted[p - 1].index > item.index
            invariant
                p <= sorted.len(),
                forall|i: int| p <= i < sorted.len() ==> (#[trigger] sorted@[i]).index > item.index,
            decreases p,
        {
            p -= 1;
        }
        proof {
            lemma_insert_position(sorted@, item, p as int);
            assert(transcriptions@.take(it.index() as int + 1).drop_last()
                == transcriptions@.take(it.index() as int));
        }
        sorted.insert(p, item);
    }
    assert(transcriptions@.take(transcriptions@.len() as int) == transcriptions@);
    sorted
}

/// Assembles the transcript of a batch from the outcomes of its chunks.
///
/// The outcomes may come in any order. If one of them is a failure, no text
/// is returned: the error lists every cause and counts the failures among
/// the outcomes. Otherwise the transcripts are merged by ascending chunk
/// index.
pub fn assemble(outcomes: Vec<ChunkOutcome>) -> (r: Result<String, AggregateError>)
    ensures
        assembled(outcomes@, r),
{
    let total_count = outcomes.len();
    let mut transcriptions: Vec<ChunkTranscription> = Vec::new();
    let mut causes: Vec<TranscriptionError> = Vec::new();
    for outcome in it: outcomes
        invariant
            it.seq() == outcomes@,
            transcriptions@ == successes(outcomes@.take(it.index() as int)),
            causes@ == failures(outcomes@.take(it.index() as int)),
            causes@.len() <= it.index(),
    {
        proof {
            assert(outcomes@.take(it.index() as int + 1).drop_last() == outcomes@.take(
                it.index() as int,
            ));
        }
        match outcome {
            ChunkOutcome::Success(transcription) => {
                transcriptions.push(transcription);
            },
            ChunkOutcome::Failure { index, cause } => {
                causes.push(cause);
            },
        }
    }
    assert(outcomes@.take(outcomes@.len() as int) == outcomes@);
    if causes.len() > 0 {
        Err(AggregateError { failed_count: causes.len(), total_count, causes })
    } else {
        Ok(merge_transcriptions(sort_by_index(transcriptions)))
    }
}

} // verus!
