//! Why the order in which outcomes arrive does not matter.
//!
//! Sorting by chunk index gives an ascending sequence with the same
//! transcripts. Where no two transcripts share an index there is only one
//! such sequence, so every arrival order of a batch gives the same text.

use crate::assemble::{
    assembled, assembled_text, failures, in_index_order, insert_by_index, successes,
    AggregateError, ChunkOutcome,
};
use crate::merge::ChunkTranscription;
use vstd::prelude::*;
use vstd::seq_lib::{to_multiset_build, to_multiset_contains, to_multiset_insert, to_multiset_len};

verus! {

/// Whether the chunk indices never decrease along the sequence.
pub open spec fn ascending(s: Seq<ChunkTranscription>) -> bool {
    forall|i: int, j: int| 0 <= i < j < s.len() ==> s[i].index <= s[j].index
}

/// Whether the chunk indices grow along the sequence.
pub open spec fn strictly_ascending(s: Seq<ChunkTranscription>) -> bool {
    forall|i: int, j: int| 0 <= i < j < s.len() ==> s[i].index < s[j].index
}

/// Whether no two transcripts belong to the same chunk.
pub open spec fn distinct_indices(s: Seq<ChunkTranscription>) -> bool {
    forall|i: int, j: int| 0 <= i < j < s.len() ==> s[i].index != s[j].index
}

/// Whether every chunk has at most one outcome.
pub open spec fn one_outcome_per_chunk(outcomes: Seq<ChunkOutcome>) -> bool {
    forall|i: int, j: int|
        0 <= i < j < outcomes.len() ==> outcomes[i].chunk_index() != outcomes[j].chunk_index()
}

/// Where `item` comes to stand when it is inserted by index.
pub open spec fn insert_position(sorted: Seq<ChunkTranscription>, item: ChunkTranscription) -> int
    decreases sorted.len(),
{
    if sorted.len() == 0 {
        0
    } else if sorted.last().index <= item.index {
        sorted.len() as int
    } else {
        insert_position(sorted.drop_last(), item)
    }
}

/// Inserting by index puts the item at its position: behind a transcript
/// whose index is not greater, and before the transcripts whose index is.
pub proof fn lemma_insert_by_index(sorted: Seq<ChunkTranscription>, item: ChunkTranscription)
    ensures
        0 <= insert_position(sorted, item) <= sorted.len(),
        insert_by_index(sorted, item) == sorted.insert(insert_position(sorted, item), item),
        insert_position(sorted, item) > 0 ==> sorted[insert_position(sorted, item) - 1].index
            <= item.index,
        forall|i: int|
            insert_position(sorted, item) <= i < sorted.len() ==> (#[trigger] sorted[i]).index
                > item.index,
    decreases sorted.len(),
{
    if sorted.len() > 0 && sorted.last().index > item.index {
        let shorter = sorted.drop_last();
        lemma_insert_by_index(shorter, item);
        let p = insert_position(shorter, item);
        assert forall|i: int| p <= i < sorted.len() implies (#[trigger] sorted[i]).index
            > item.index by {
            if i < shorter.len() {
                assert(shorter[i] == sorted[i]);
            }
        }
    }
}

/// Sorting by index keeps every transcript, as often as it was given, and
/// the result is ascending.
pub proof fn lemma_index_order(s: Seq<ChunkTranscription>)
    ensures
        in_index_order(s).to_multiset() == s.to_multiset(),
        in_index_order(s).len() == s.len(),
        ascending(in_index_order(s)),
    decreases s.len(),
{
    if s.len() == 0 {
        assert(in_index_order(s) == s);
    } else {
        let before = in_index_order(s.drop_last());
        let item = s.last();
        lemma_index_order(s.drop_last());
        lemma_insert_by_index(before, item);
        to_multiset_insert(before, insert_position(before, item), item);
        to_multiset_build(s.drop_last(), item);
        assert(s.drop_last().push(item) == s);
    }
}

/// Where no two transcripts share an index, sorting by index gives strictly
/// growing indices.
pub proof fn lemma_index_order_strict(s: Seq<ChunkTranscription>)
    requires
        distinct_indices(s),
    ensures
        strictly_ascending(in_index_order(s)),
    decreases s.len(),
{
    if s.len() > 0 {
        let shorter = s.drop_last();
        let before = in_index_order(shorter);
        let item = s.last();
        lemma_index_order_strict(shorter);
        lemma_index_order(shorter);
        lemma_insert_by_index(before, item);
        assert forall|k: int| 0 <= k < before.len() implies (#[trigger] before[k]).index
            != item.index by {
            to_multiset_contains(before, before[k]);
            to_multiset_contains(shorter, before[k]);
        }
    }
}

/// Two sequences with strictly growing indices that hold the same
/// transcripts are the same sequence.
pub proof fn lemma_strict_order_is_unique(x: Seq<ChunkTranscription>, y: Seq<ChunkTranscription>)
    requires
        strictly_ascending(x),
        strictly_ascending(y),
        x.to_multiset() == y.to_multiset(),
    ensures
        x == y,
    decreases x.len(),
{
    to_multiset_len(x);
    to_multiset_len(y);
    if x.len() > 0 {
        to_multiset_contains(x, x.last());
        to_multiset_contains(y, x.last());
        to_multiset_contains(x, y.last());
        to_multiset_contains(y, y.last());
        assert(x.contains(x.last()));
        assert(y.contains(y.last()));
        let j = choose|j: int| 0 <= j < y.len() && y[j] == x.last();
        let i = choose|i: int| 0 <= i < x.len() && x[i] == y.last();
        assert(x.last() == y.last()) by {
            if i < x.len() - 1 {
                assert(x[i].index < x[x.len() - 1].index);
                if j < y.len() - 1 {
                    assert(y[j].index < y[y.len() - 1].index);
                }
            }
        }
        let last = x.last();
        to_multiset_build(x.drop_last(), last);
        to_multiset_build(y.drop_last(), last);
        assert(x.drop_last().push(last) == x);
        assert(y.drop_last().push(last) == y);
        assert(x.drop_last().to_multiset() =~= x.to_multiset().remove(last));
        assert(y.drop_last().to_multiset() =~= y.to_multiset().remove(last));
        lemma_strict_order_is_unique(x.drop_last(), y.drop_last());
    }
}

/// Transcripts of different chunks come out of the sorting in one order,
/// whatever order they went in.
pub proof fn lemma_index_order_ignores_input_order(
    x: Seq<ChunkTranscription>,
    y: Seq<ChunkTranscription>,
)
    requires
        x.to_multiset() == y.to_multiset(),
        distinct_indices(x),
        distinct_indices(y),
    ensures
        in_index_order(x) == in_index_order(y),
{
    lemma_index_order(x);
    lemma_index_order(y);
    lemma_index_order_strict(x);
    lemma_index_order_strict(y);
    lemma_strict_order_is_unique(in_index_order(x), in_index_order(y));
}

/// Whether some outcome belongs to the chunk with the given index.
pub open spec fn has_outcome_for(outcomes: Seq<ChunkOutcome>, index: usize) -> bool {
    exists|m: int| 0 <= m < outcomes.len() && (#[trigger] outcomes[m]).chunk_index() == index
}

/// A transcript is among the successes as often as its outcome is among the
/// outcomes.
pub proof fn lemma_successes_count(outcomes: Seq<ChunkOutcome>, transcription: ChunkTranscription)
    ensures
        successes(outcomes).to_multiset().count(transcription) == outcomes.to_multiset().count(
            ChunkOutcome::Success(transcription),
        ),
    decreases outcomes.len(),
{
    if outcomes.len() == 0 {
        to_multiset_contains(successes(outcomes), transcription);
        to_multiset_contains(outcomes, ChunkOutcome::Success(transcription));
    } else {
        let shorter = outcomes.drop_last();
        let last = outcomes.last();
        lemma_successes_count(shorter, transcription);
        assert(shorter.push(last) == outcomes);
        to_multiset_build(shorter, last);
        match last {
            ChunkOutcome::Success(other) => {
                to_multiset_build(successes(shorter), other);
            },
            ChunkOutcome::Failure { index, cause } => {},
        }
    }
}

/// Outcomes that are the same up to their order hold the same transcripts.
pub proof fn lemma_successes_ignore_order(a: Seq<ChunkOutcome>, b: Seq<ChunkOutcome>)
    requires
        a.to_multiset() == b.to_multiset(),
    ensures
        successes(a).to_multiset() == successes(b).to_multiset(),
{
    assert forall|t: ChunkTranscription|
        successes(a).to_multiset().count(t) == successes(b).to_multiset().count(t) by {
        lemma_successes_count(a, t);
        lemma_successes_count(b, t);
    }
}

/// Where every chunk has one outcome, no two transcripts among the successes
/// belong to the same chunk, and each belongs to a chunk with an outcome.
pub proof fn lemma_successes_distinct(outcomes: Seq<ChunkOutcome>)
    requires
        one_outcome_per_chunk(outcomes),
    ensures
        distinct_indices(successes(outcomes)),
        forall|k: int|
            0 <= k < successes(outcomes).len() ==> has_outcome_for(
                outcomes,
                (#[trigger] successes(outcomes)[k]).index,
            ),
    decreases outcomes.len(),
{
    if outcomes.len() > 0 {
        let shorter = outcomes.drop_last();
        lemma_successes_distinct(shorter);
    }
}

/// A batch has no failure exactly if every outcome is a success.
pub proof fn lemma_no_failures(outcomes: Seq<ChunkOutcome>)
    ensures
        failures(outcomes).len() == 0 <==> forall|i: int|
            0 <= i < outcomes.len() ==> #[trigger] outcomes[i] is Success,
        failures(outcomes).len() <= outcomes.len(),
    decreases outcomes.len(),
{
    if outcomes.len() > 0 {
        let shorter = outcomes.drop_last();
        lemma_no_failures(shorter);
        if failures(outcomes).len() == 0 {
            assert forall|i: int| 0 <= i < outcomes.len() implies #[trigger] outcomes[i]
                is Success by {
                if i < shorter.len() {
                    assert(shorter[i] == outcomes[i]);
                }
            }
        }
    }
}

/// The text of a batch without failures does not depend on the order in
/// which the outcomes arrive: two batches that hold the same outcomes, each
/// with one outcome per chunk, give the same result.
pub proof fn lemma_arrival_order_is_irrelevant(
    a: Seq<ChunkOutcome>,
    b: Seq<ChunkOutcome>,
    r: Result<String, AggregateError>,
)
    requires
        a.to_multiset() == b.to_multiset(),
        one_outcome_per_chunk(a),
        one_outcome_per_chunk(b),
        failures(a).len() == 0,
        assembled(a, r),
    ensures
        failures(b).len() == 0,
        assembled_text(a) == assembled_text(b),
        assembled(b, r),
{
    lemma_no_failures(a);
    lemma_no_failures(b);
    assert forall|i: int| 0 <= i < b.len() implies #[trigger] b[i] is Success by {
        to_multiset_contains(b, b[i]);
        to_multiset_contains(a, b[i]);
    }
    lemma_successes_ignore_order(a, b);
    lemma_successes_distinct(a);
    lemma_successes_distinct(b);
    lemma_index_order_ignores_input_order(successes(a), successes(b));
}

/// One failure among the outcomes fails the batch, however many chunks
/// succeeded: the result is the error, it counts at least one failure, and no
/// text is returned.
pub proof fn lemma_any_failure_fails_the_batch(
    outcomes: Seq<ChunkOutcome>,
    i: int,
    r: Result<String, AggregateError>,
)
    requires
        0 <= i < outcomes.len(),
        outcomes[i] is Failure,
        assembled(outcomes, r),
    ensures
        r is Err,
        1 <= r->Err_0.failed_count <= r->Err_0.total_count,
        r->Err_0.total_count == outcomes.len(),
{
    lemma_no_failures(outcomes);
}

} // verus!
