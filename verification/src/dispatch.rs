//! Admission of chunk uploads and bookkeeping of their outcomes.
//!
//! Every chunk of a batch is a unit of work, named by its position in the
//! batch. All units are started at once. Before a unit calls the provider it
//! asks the dispatcher for a token, and it hands the token back with the
//! result of the call. The dispatcher holds a fixed number of tokens and
//! gives them out in the order in which they were asked for.
//!
//! The dispatcher only decides. The caller runs the units, makes a unit wait
//! that was queued, and wakes the unit that a completion names.

use crate::adapter::AudioChunk;
use crate::assemble::{failures, successes, ChunkOutcome};
use crate::error::TranscriptionError;
use crate::merge::ChunkTranscription;
use crate::order::{has_outcome_for, one_outcome_per_chunk};
use vstd::prelude::*;
use vstd::set_lib::{lemma_int_range, lemma_len_subset, lemma_subset_equality, set_int_range};

verus! {

/// Number of provider calls that are in flight at once unless the caller
/// asks for another number.
pub const MAX_CONCURRENT_REQUESTS: usize = 3;

/// Where a unit of work stands.
#[derive(Debug, Clone, Copy, PartialEq, Eq, Structural)]
pub enum UnitState {
    /// Started; it has not asked for a token yet.
    Scheduled,
    /// It has asked for a token and waits for one.
    Waiting,
    /// It holds a token; its provider call may be under way.
    InFlight,
    /// Its outcome is recorded.
    Finished,
}

/// The answer to a unit that asks for a token.
#[derive(Debug, Clone, Copy, PartialEq, Eq, Structural)]
pub enum Admission {
    /// The unit holds a token and may call the provider.
    Granted,
    /// No token is free. The unit waits until a completion names it.
    Queued,
    /// The unit is unknown or has asked before. Nothing changed.
    Refused,
}

/// A progress report: so many chunks of the batch are transcribed.
#[derive(Debug, Clone, Copy, PartialEq, Eq, Structural)]
pub struct Progress {
    /// Number of chunks that are transcribed so far.
    pub completed: usize,
    /// Number of chunks in the batch.
    pub total: usize,
}

/// What follows from the end of a unit.
#[derive(Debug, Clone, Copy, PartialEq, Eq, Structural)]
pub struct Completion {
    /// Whether the outcome was recorded. If not, nothing changed.
    pub accepted: bool,
    /// For a success: the progress to report.
    pub progress: Option<Progress>,
    /// The waiting unit that now holds the token that became free.
    pub next: Option<usize>,
}

/// The number of units in the given state.
pub open spec fn count_of(states: Seq<UnitState>, state: UnitState) -> nat
    decreases states.len(),
{
    if states.len() == 0 {
        0
    } else {
        count_of(states.drop_last(), state) + if states.last() == state {
            1nat
        } else {
            0nat
        }
    }
}

/// No more units are in a state than there are units.
pub proof fn lemma_count_bound(states: Seq<UnitState>, state: UnitState)
    ensures
        count_of(states, state) <= states.len(),
    decreases states.len(),
{
    if states.len() > 0 {
        lemma_count_bound(states.drop_last(), state);
    }
}

/// Where the count of a state is not zero, some unit is in that state.
pub proof fn lemma_count_witness(states: Seq<UnitState>, state: UnitState)
    requires
        count_of(states, state) > 0,
    ensures
        exists|u: int| 0 <= u < states.len() && #[trigger] states[u] == state,
    decreases states.len(),
{
    if states.last() == state {
        assert(states[states.len() - 1] == state);
    } else {
        lemma_count_witness(states.drop_last(), state);
        let u = choose|u: int|
            0 <= u < states.drop_last().len() && #[trigger] states.drop_last()[u] == state;
        assert(states[u] == state);
    }
}

/// Moving one unit to another state takes one from the count of its old
/// state and adds one to the count of its new state.
pub proof fn lemma_count_update(
    states: Seq<UnitState>,
    unit: int,
    to: UnitState,
    state: UnitState,
)
    requires
        0 <= unit < states.len(),
    ensures
        count_of(states.update(unit, to), state) + (if states[unit] == state {
            1nat
        } else {
            0nat
        }) == count_of(states, state) + (if to == state {
            1nat
        } else {
            0nat
        }),
    decreases states.len(),
{
    let updated = states.update(unit, to);
    if unit == states.len() - 1 {
        assert(updated.drop_last() == states.drop_last());
    } else {
        lemma_count_update(states.drop_last(), unit, to, state);
        assert(updated.drop_last() == states.drop_last().update(unit, to));
    }
}

/// The token pool and the record of one batch.
pub struct Dispatcher {
    capacity: usize,
    indices: Vec<usize>,
    overlaps: Vec<bool>,
    states: Vec<UnitState>,
    waiting: Vec<usize>,
    in_flight: usize,
    completed: usize,
    outcomes: Vec<ChunkOutcome>,
    finished: Ghost<Seq<usize>>,
}

impl Dispatcher {
    /// The number of tokens.
    pub closed spec fn capacity(self) -> nat {
        self.capacity as nat
    }

    /// The chunk index of each unit.
    pub closed spec fn chunk_indices(self) -> Seq<usize> {
        self.indices@
    }

    /// For each unit, whether its chunk has a leading overlap.
    pub closed spec fn overlap_marks(self) -> Seq<bool> {
        self.overlaps@
    }

    /// The state of each unit.
    pub closed spec fn states(self) -> Seq<UnitState> {
        self.states@
    }

    /// The units that wait for a token, the one that asked first in front.
    pub closed spec fn waiting(self) -> Seq<usize> {
        self.waiting@
    }

    /// The outcomes recorded so far, in the order in which the units ended.
    pub closed spec fn recorded(self) -> Seq<ChunkOutcome> {
        self.outcomes@
    }

    /// The number of units in the batch.
    pub open spec fn total(self) -> nat {
        self.states().len()
    }

    /// The number of units that hold a token.
    pub open spec fn in_flight(self) -> nat {
        count_of(self.states(), UnitState::InFlight)
    }

    /// The number of units that ended with a transcript.
    pub open spec fn completed(self) -> nat {
        successes(self.recorded()).len()
    }

    /// What holds of every dispatcher between two calls.
    pub closed spec fn wf(self) -> bool {
        &&& self.indices@.len() == self.states@.len()
        &&& self.overlaps@.len() == self.states@.len()
        &&& self.states@.len() <= usize::MAX
        &&& self.in_flight == count_of(self.states@, UnitState::InFlight)
        &&& self.in_flight <= self.capacity
        &&& forall|k: int|
            0 <= k < self.waiting@.len() ==> (#[trigger] self.waiting@[k]) < self.states@.len()
                && self.states@[self.waiting@[k] as int] == UnitState::Waiting
        &&& forall|u: usize|
            u < self.states@.len() && #[trigger] self.states@[u as int] == UnitState::Waiting
                ==> self.waiting@.contains(u)
        &&& self.waiting@.no_duplicates()
        &&& self.waiting@.len() > 0 ==> self.in_flight == self.capacity
        &&& self.outcomes@.len() == count_of(self.states@, UnitState::Finished)
        &&& self.completed == successes(self.outcomes@).len()
        &&& self.completed + failures(self.outcomes@).len() == self.outcomes@.len()
        &&& self.finished@.len() == self.outcomes@.len()
        &&& self.finished@.no_duplicates()
        &&& forall|k: int|
            0 <= k < self.finished@.len() ==> (#[trigger] self.finished@[k]) < self.states@.len()
                && self.states@[self.finished@[k] as int] == UnitState::Finished
                && self.outcomes@[k].chunk_index() == self.indices@[self.finished@[k] as int]
    }

    /// At no time do more units hold a token than there are tokens, no unit
    /// waits while a token is free, and no more outcomes are recorded or
    /// successes counted than the batch has units.
    pub proof fn lemma_bounds(self)
        requires
            self.wf(),
        ensures
            self.in_flight() <= self.capacity(),
            self.waiting().len() > 0 ==> self.in_flight() == self.capacity(),
            forall|k: int|
                0 <= k < self.waiting().len() ==> (#[trigger] self.waiting()[k]) < self.total()
                    && self.states()[self.waiting()[k] as int] == UnitState::Waiting,
            forall|u: usize|
                u < self.total() && #[trigger] self.states()[u as int] == UnitState::Waiting
                    ==> self.waiting().contains(u),
            self.waiting().no_duplicates(),
            self.recorded().len() == count_of(self.states(), UnitState::Finished),
            self.completed() <= self.recorded().len() <= self.total(),
            self.chunk_indices().len() == self.total(),
            self.overlap_marks().len() == self.total(),
            self.total() <= usize::MAX,
    {
        lemma_count_bound(self.states@, UnitState::Finished);
    }

    /// Where no two chunks of the batch share an index, no two recorded
    /// outcomes belong to the same chunk.
    pub proof fn lemma_one_outcome_per_chunk(self)
        requires
            self.wf(),
            forall|i: int, j: int|
                0 <= i < j < self.chunk_indices().len() ==> self.chunk_indices()[i]
                    != self.chunk_indices()[j],
        ensures
            one_outcome_per_chunk(self.recorded()),
    {
        let outcomes = self.outcomes@;
        assert forall|a: int, b: int| 0 <= a < b < outcomes.len() implies outcomes[a].chunk_index()
            != outcomes[b].chunk_index() by {
            let i = self.finished@[a] as int;
            let j = self.finished@[b] as int;
            assert(i != j);
            assert(self.outcomes@[a].chunk_index() == self.chunk_indices()[i]);
            assert(self.outcomes@[b].chunk_index() == self.chunk_indices()[j]);
        }
    }

    /// Once as many outcomes are recorded as the batch has units, every unit
    /// is finished and has its outcome, no unit holds a token, and none
    /// waits.
    pub proof fn lemma_complete_batch(self)
        requires
            self.wf(),
            self.recorded().len() == self.total(),
        ensures
            forall|u: int|
                0 <= u < self.total() ==> #[trigger] self.states()[u] == UnitState::Finished,
            forall|u: int|
                0 <= u < self.total() ==> has_outcome_for(
                    self.recorded(),
                    #[trigger] self.chunk_indices()[u],
                ),
            self.in_flight() == 0,
            self.waiting().len() == 0,
    {
        let total = self.states@.len() as int;
        let units = self.finished@.map_values(|u: usize| u as int);
        assert(units.no_duplicates()) by {
            assert forall|i: int, j: int|
                0 <= i < units.len() && 0 <= j < units.len() && i != j implies units[i]
                != units[j] by {
                assert(self.finished@[i] != self.finished@[j]);
            }
        }
        units.unique_seq_to_set();
        lemma_int_range(0, total);
        assert(units.to_set().subset_of(set_int_range(0, total))) by {
            assert forall|u: int| units.to_set().contains(u) implies set_int_range(
                0,
                total,
            ).contains(u) by {
                let k = choose|k: int| 0 <= k < units.len() && units[k] == u;
                assert(self.finished@[k] < self.states@.len());
            }
        }
        lemma_len_subset(units.to_set(), set_int_range(0, total));
        lemma_subset_equality(units.to_set(), set_int_range(0, total));
        assert forall|u: int| 0 <= u < total implies #[trigger] self.states@[u]
            == UnitState::Finished && has_outcome_for(self.outcomes@, self.indices@[u]) by {
            assert(set_int_range(0, total).contains(u));
            assert(units.to_set().contains(u));
            let k = choose|k: int| 0 <= k < units.len() && units[k] == u;
            assert(self.finished@[k] as int == u);
            assert(self.outcomes@[k].chunk_index() == self.indices@[u]);
        }
        assert forall|u: int| 0 <= u < total implies has_outcome_for(
            self.outcomes@,
            #[trigger] self.indices@[u],
        ) by {
            assert(self.states@[u] == UnitState::Finished);
        }
        if self.in_flight > 0 {
            lemma_count_witness(self.states@, UnitState::InFlight);
        }
        if self.waiting@.len() > 0 {
            assert(self.states@[self.waiting@[0] as int] == UnitState::Waiting);
        }
    }

    /// Progress is reported for a unit exactly if it ended with a transcript.
    /// The report counts that transcript and the ones before it, and never
    /// more than the batch has chunks.
    pub proof fn lemma_progress_counts_successes(
        self,
        before: Dispatcher,
        unit: int,
        result: Result<String, TranscriptionError>,
        completion: Completion,
    )
        requires
            before.wf(),
            self.wf(),
            self.same_batch(before),
            self.ended(before, unit, result, completion),
        ensures
            completion.progress is Some <==> result is Ok,
            self.completed() == before.completed() + if result is Ok {
                1nat
            } else {
                0nat
            },
            completion.progress matches Some(progress) ==> progress.completed == self.completed()
                && progress.total == self.total() && 1 <= progress.completed <= progress.total,
    {
        self.lemma_bounds();
        assert(self.recorded().drop_last() == before.recorded());
    }

    /// A dispatcher for the given chunks with `max_concurrency` tokens. Every
    /// unit is scheduled, and nothing is recorded.
    pub fn for_chunks(chunks: &Vec<AudioChunk>, max_concurrency: usize) -> (d: Dispatcher)
        ensures
            d.wf(),
            d.capacity() == max_concurrency,
            d.total() == chunks@.len(),
            d.states() == Seq::new(chunks@.len(), |i: int| UnitState::Scheduled),
            d.chunk_indices() == Seq::new(chunks@.len(), |i: int| chunks@[i].index),
            d.overlap_marks() == Seq::new(chunks@.len(), |i: int| chunks@[i].has_leading_overlap),
            d.waiting().len() == 0,
            d.recorded().len() == 0,
    {
        let mut indices: Vec<usize> = Vec::new();
        let mut overlaps: Vec<bool> = Vec::new();
        let mut states: Vec<UnitState> = Vec::new();
        let mut i: usize = 0;
        while i < chunks.len()
            invariant
                i <= chunks.len(),
                indices@ == Seq::new(i as nat, |k: int| chunks@[k].index),
                overlaps@ == Seq::new(i as nat, |k: int| chunks@[k].has_leading_overlap),
                states@ == Seq::new(i as nat, |k: int| UnitState::Scheduled),
                count_of(states@, UnitState::InFlight) == 0,
                count_of(states@, UnitState::Finished) == 0,
            decreases chunks.len() - i,
        {
            let ghost before = states@;
            indices.push(chunks[i].index);
            overlaps.push(chunks[i].has_leading_overlap);
            states.push(UnitState::Scheduled);
            assert(states@.drop_last() == before);
            i += 1;
        }
        Dispatcher {
            capacity: max_concurrency,
            indices,
            overlaps,
            states,
            waiting: Vec::new(),
            in_flight: 0,
            completed: 0,
            outcomes: Vec::new(),
            finished: Ghost(Seq::empty()),
        }
    }

    /// The number of tokens.
    pub fn max_concurrency(&self) -> (r: usize)
        ensures
            r == self.capacity(),
    {
        self.capacity
    }

    /// The number of units in the batch.
    pub fn total_chunks(&self) -> (r: usize)
        ensures
            r == self.total(),
    {
        self.states.len()
    }

    /// The number of units that hold a token.
    pub fn in_flight_count(&self) -> (r: usize)
        requires
            self.wf(),
        ensures
            r == self.in_flight(),
            r <= self.capacity(),
    {
        self.in_flight
    }

    /// The number of units that wait for a token.
    pub fn waiting_count(&self) -> (r: usize)
        ensures
            r == self.waiting().len(),
    {
        self.waiting.len()
    }

    /// The number of units that ended with a transcript.
    pub fn completed_count(&self) -> (r: usize)
        requires
            self.wf(),
        ensures
            r == self.completed(),
            r <= self.total(),
    {
        proof {
            self.lemma_bounds();
        }
        self.completed
    }

    /// Whether the outcome of every unit is recorded.
    pub fn is_complete(&self) -> (r: bool)
        ensures
            r == (self.recorded().len() == self.total()),
    {
        self.outcomes.len() == self.states.len()
    }

    /// The state of a unit, or `None` for a number that names no unit.
    pub fn state_of(&self, unit: usize) -> (r: Option<UnitState>)
        ensures
            r == if unit < self.total() {
                Some(self.states()[unit as int])
            } else {
                None
            },
    {
        if unit < self.states.len() {
            Some(self.states[unit])
        } else {
            None
        }
    }

    /// The outcome that is recorded for a unit that ended with `result`.
    pub open spec fn outcome_for(
        self,
        unit: int,
        result: Result<String, TranscriptionError>,
    ) -> ChunkOutcome {
        match result {
            Ok(text) => ChunkOutcome::Success(
                ChunkTranscription {
                    index: self.chunk_indices()[unit],
                    text,
                    has_leading_overlap: self.overlap_marks()[unit],
                },
            ),
            Err(cause) => ChunkOutcome::Failure { index: self.chunk_indices()[unit], cause },
        }
    }

    /// Whether `self` is `before` after the unit ended with `result`: the
    /// unit is finished, its outcome is recorded last, and the token it held,
    /// if it held one, went to the unit that waited longest.
    pub open spec fn ended(
        self,
        before: Dispatcher,
        unit: int,
        result: Result<String, TranscriptionError>,
        completion: Completion,
    ) -> bool {
        let held_token = before.states()[unit] == UnitState::InFlight;
        let was_waiting = before.states()[unit] == UnitState::Waiting;
        &&& completion.accepted
        &&& self.recorded() == before.recorded().push(before.outcome_for(unit, result))
        &&& completion.progress == match result {
            Ok(_) => Some(
                Progress {
                    completed: (before.completed() + 1) as usize,
                    total: before.total() as usize,
                },
            ),
            Err(_) => None,
        }
        &&& if held_token && before.waiting().len() > 0 {
            &&& completion.next == Some(before.waiting()[0])
            &&& self.waiting() == before.waiting().drop_first()
            &&& self.states() == before.states().update(unit, UnitState::Finished).update(
                before.waiting()[0] as int,
                UnitState::InFlight,
            )
        } else {
            &&& completion.next is None
            &&& self.states() == before.states().update(unit, UnitState::Finished)
            &&& if was_waiting {
                self.waiting() == before.waiting().remove(
                    before.waiting().index_of(unit as usize),
                )
            } else {
                self.waiting() == before.waiting()
            }
        }
    }

    /// Whether `self` is `before` with nothing changed.
    pub open spec fn unchanged(self, before: Dispatcher) -> bool {
        &&& self.capacity() == before.capacity()
        &&& self.chunk_indices() == before.chunk_indices()
        &&& self.overlap_marks() == before.overlap_marks()
        &&& self.states() == before.states()
        &&& self.waiting() == before.waiting()
        &&& self.recorded() == before.recorded()
    }

    /// Whether `self` is for the same batch and tokens as `before`.
    pub open spec fn same_batch(self, before: Dispatcher) -> bool {
        &&& self.capacity() == before.capacity()
        &&& self.chunk_indices() == before.chunk_indices()
        &&& self.overlap_marks() == before.overlap_marks()
        &&& self.total() == before.total()
    }

    /// A scheduled unit asks for a token.
    ///
    /// While a token is free the unit gets it. Otherwise the unit is put
    /// behind the units that already wait. A unit that is not scheduled any
    /// more, or a number that names no unit, is refused.
    pub fn request_token(&mut self, unit: usize) -> (r: Admission)
        requires
            old(self).wf(),
        ensures
            final(self).wf(),
            final(self).same_batch(*old(self)),
            final(self).recorded() == old(self).recorded(),
            match r {
                Admission::Refused => {
                    &&& !(unit < old(self).total() && old(self).states()[unit as int]
                        == UnitState::Scheduled)
                    &&& final(self).unchanged(*old(self))
                },
                Admission::Granted => {
                    &&& unit < old(self).total()
                    &&& old(self).states()[unit as int] == UnitState::Scheduled
                    &&& old(self).in_flight() < old(self).capacity()
                    &&& final(self).states() == old(self).states().update(
                        unit as int,
                        UnitState::InFlight,
                    )
                    &&& final(self).waiting() == old(self).waiting()
                },
                Admission::Queued => {
                    &&& unit < old(self).total()
                    &&& old(self).states()[unit as int] == UnitState::Scheduled
                    &&& old(self).in_flight() == old(self).capacity()
                    &&& final(self).states() == old(self).states().update(
                        unit as int,
                        UnitState::Waiting,
                    )
                    &&& final(self).waiting() == old(self).waiting().push(unit)
                },
            },
    {
        if unit >= self.states.len() {
            return Admission::Refused;
        }
        match self.states[unit] {
            UnitState::Scheduled => {},
            _ => {
                return Admission::Refused;
            },
        }
        let ghost before = self.states@;
        let ghost queue = self.waiting@;
        if self.in_flight < self.capacity {
            self.states.set(unit, UnitState::InFlight);
            self.in_flight = self.in_flight + 1;
            proof {
                lemma_count_update(before, unit as int, UnitState::InFlight, UnitState::InFlight);
                lemma_count_update(before, unit as int, UnitState::InFlight, UnitState::Finished);
            }
            Admission::Granted
        } else {
            self.states.set(unit, UnitState::Waiting);
            self.waiting.push(unit);
            proof {
                lemma_count_update(before, unit as int, UnitState::Waiting, UnitState::InFlight);
                lemma_count_update(before, unit as int, UnitState::Waiting, UnitState::Finished);
                assert forall|u: usize|
                    u < self.states@.len() && #[trigger] self.states@[u as int]
                        == UnitState::Waiting implies self.waiting@.contains(u) by {
                    let k = if u == unit {
                        queue.len() as int
                    } else {
                        queue.index_of(u)
                    };
                    assert(self.waiting@[k] == u);
                }
            }
            Admission::Queued
        }
    }

    /// Ends a unit that is not finished: records its outcome, and hands the
    /// token it held to the unit that waited longest.
    fn end_unit(&mut self, unit: usize, result: Result<String, TranscriptionError>) -> (r:
        Completion)
        requires
            old(self).wf(),
            unit < old(self).total(),
            old(self).states()[unit as int] != UnitState::Finished,
        ensures
            final(self).wf(),
            final(self).same_batch(*old(self)),
            final(self).ended(*old(self), unit as int, result, r),
    {
        let ghost states0 = self.states@;
        let ghost queue0 = self.waiting@;
        let ghost outcomes0 = self.outcomes@;
        let mut held_token = false;
        match self.states[unit] {
            UnitState::InFlight => {
                proof {
                    lemma_count_update(
                        states0,
                        unit as int,
                        UnitState::Finished,
                        UnitState::InFlight,
                    );
                }
                self.in_flight = self.in_flight - 1;
                held_token = true;
            },
            UnitState::Waiting => {
                let mut p: usize = 0;
                while p < self.waiting.len() && self.waiting[p] != unit
                    invariant
                        self.waiting@ == queue0,
                        p <= queue0.len(),
                        forall|k: int| 0 <= k < p ==> queue0[k] != unit,
                    decreases queue0.len() - p,
                {
                    p += 1;
                }
                self.waiting.remove(p);
                proof {
                    assert forall|u: usize|
                        u < states0.len() && u != unit && #[trigger] states0[u as int]
                            == UnitState::Waiting implies self.waiting@.contains(u) by {
                        let k = queue0.index_of(u);
                        assert(self.waiting@[if k < p { k } else { k - 1 }] == u);
                    }
                }
            },
            _ => {},
        }
        let ghost queue1 = self.waiting@;
        self.states.set(unit, UnitState::Finished);
        let ghost states1 = self.states@;
        proof {
            lemma_count_update(states0, unit as int, UnitState::Finished, UnitState::InFlight);
            lemma_count_update(states0, unit as int, UnitState::Finished, UnitState::Finished);
            lemma_count_bound(states1, UnitState::Finished);
        }
        let index = self.indices[unit];
        let has_leading_overlap = self.overlaps[unit];
        let total = self.states.len();
        let progress = match result {
            Ok(text) => {
                self.completed = self.completed + 1;
                self.outcomes.push(
                    ChunkOutcome::Success(ChunkTranscription { index, text, has_leading_overlap }),
                );
                Some(Progress { completed: self.completed, total })
            },
            Err(cause) => {
                self.outcomes.push(ChunkOutcome::Failure { index, cause });
                None
            },
        };
        assert(self.outcomes@.drop_last() == outcomes0);
        let ghost finished0 = self.finished@;
        proof {
            self.finished = Ghost(finished0.push(unit));
        }
        let mut next: Option<usize> = None;
        if held_token && self.waiting.len() > 0 {
            let woken = self.waiting.remove(0);
            self.states.set(woken, UnitState::InFlight);
            self.in_flight = self.in_flight + 1;
            next = Some(woken);
            proof {
                lemma_count_update(
                    states1,
                    woken as int,
                    UnitState::InFlight,
                    UnitState::InFlight,
                );
                lemma_count_update(
                    states1,
                    woken as int,
                    UnitState::InFlight,
                    UnitState::Finished,
                );
                assert forall|u: usize|
                    u < self.states@.len() && #[trigger] self.states@[u as int]
                        == UnitState::Waiting implies self.waiting@.contains(u) by {
                    assert(self.waiting@[queue1.index_of(u) - 1] == u);
                }
            }
        }
        Completion { accepted: true, progress, next }
    }

    /// A unit hands its token back with the result of its provider call.
    ///
    /// The outcome is recorded. A success counts as progress. The token goes
    /// to the unit that waited longest, if one waits. A unit that holds no
    /// token is refused, and nothing changes.
    pub fn finish(&mut self, unit: usize, result: Result<String, TranscriptionError>) -> (r:
        Completion)
        requires
            old(self).wf(),
        ensures
            final(self).wf(),
            final(self).same_batch(*old(self)),
            if unit < old(self).total() && old(self).states()[unit as int] == UnitState::InFlight {
                final(self).ended(*old(self), unit as int, result, r)
            } else {
                &&& final(self).unchanged(*old(self))
                &&& r == (Completion { accepted: false, progress: None, next: None })
            },
    {
        if unit < self.states.len() {
            match self.states[unit] {
                UnitState::InFlight => {
                    return self.end_unit(unit, result);
                },
                _ => {},
            }
        }
        Completion { accepted: false, progress: None, next: None }
    }

    /// The worker of a unit ended abnormally.
    ///
    /// The unit is recorded as failed with a worker fault, wherever it stood.
    /// If it held a token, the token goes to the unit that waited longest. A
    /// unit that is finished already, or a number that names no unit, is
    /// refused, and nothing changes.
    pub fn abort(&mut self, unit: usize, detail: String) -> (r: Completion)
        requires
            old(self).wf(),
        ensures
            final(self).wf(),
            final(self).same_batch(*old(self)),
            if unit < old(self).total() && old(self).states()[unit as int] != UnitState::Finished {
                final(self).ended(
                    *old(self),
                    unit as int,
                    Err(TranscriptionError::WorkerFault { detail }),
                    r,
                )
            } else {
                &&& final(self).unchanged(*old(self))
                &&& r == (Completion { accepted: false, progress: None, next: None })
            },
    {
        if unit < self.states.len() {
            match self.states[unit] {
                UnitState::Finished => {},
                _ => {
                    return self.end_unit(unit, Err(TranscriptionError::WorkerFault { detail }));
                },
            }
        }
        Completion { accepted: false, progress: None, next: None }
    }

    /// The outcomes, in the order in which the units ended.
    pub fn into_outcomes(self) -> (r: Vec<ChunkOutcome>)
        ensures
            r@ == self.recorded(),
    {
        self.outcomes
    }
}

} // verus!
