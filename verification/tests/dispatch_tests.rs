use whis::adapter::AudioChunk;
use whis::assemble::{assemble, ChunkOutcome};
use whis::dispatch::{
    Admission, Completion, Dispatcher, Progress, UnitState, MAX_CONCURRENT_REQUESTS,
};
use whis::error::TranscriptionError;
use whis::provider::TranscriptionProvider;

fn chunks(n: usize) -> Vec<AudioChunk> {
    let mut v = Vec::new();
    for i in 0..n {
        v.push(AudioChunk { index: i, data: vec![i as u8], has_leading_overlap: i > 0 });
    }
    v
}

fn decode_error() -> TranscriptionError {
    TranscriptionError::Decode { provider: TranscriptionProvider::OpenAI }
}

const REFUSED: Completion = Completion { accepted: false, progress: None, next: None };

#[test]
fn default_concurrency_is_three() {
    assert_eq!(MAX_CONCURRENT_REQUESTS, 3);
}

#[test]
fn new_dispatcher_has_everything_scheduled() {
    let d = Dispatcher::for_chunks(&chunks(4), 3);
    assert_eq!(d.max_concurrency(), 3);
    assert_eq!(d.total_chunks(), 4);
    assert_eq!(d.in_flight_count(), 0);
    assert_eq!(d.waiting_count(), 0);
    assert_eq!(d.completed_count(), 0);
    assert!(!d.is_complete());
    assert_eq!(d.state_of(0), Some(UnitState::Scheduled));
    assert_eq!(d.state_of(3), Some(UnitState::Scheduled));
    assert_eq!(d.state_of(4), None);
}

#[test]
fn empty_batch_is_complete_at_once() {
    let d = Dispatcher::for_chunks(&chunks(0), 3);
    assert!(d.is_complete());
    assert!(d.into_outcomes().is_empty());
}

#[test]
fn tokens_are_granted_up_to_the_limit() {
    let mut d = Dispatcher::for_chunks(&chunks(5), 2);
    assert_eq!(d.request_token(3), Admission::Granted);
    assert_eq!(d.request_token(0), Admission::Granted);
    assert_eq!(d.request_token(4), Admission::Queued);
    assert_eq!(d.request_token(1), Admission::Queued);
    assert_eq!(d.in_flight_count(), 2);
    assert_eq!(d.waiting_count(), 2);
    assert_eq!(d.state_of(3), Some(UnitState::InFlight));
    assert_eq!(d.state_of(4), Some(UnitState::Waiting));
    assert_eq!(d.state_of(2), Some(UnitState::Scheduled));
}

#[test]
fn second_request_of_a_unit_is_refused() {
    let mut d = Dispatcher::for_chunks(&chunks(3), 1);
    assert_eq!(d.request_token(0), Admission::Granted);
    assert_eq!(d.request_token(0), Admission::Refused);
    assert_eq!(d.request_token(1), Admission::Queued);
    assert_eq!(d.request_token(1), Admission::Refused);
    assert_eq!(d.request_token(3), Admission::Refused);
    assert_eq!(d.in_flight_count(), 1);
    assert_eq!(d.waiting_count(), 1);
}

#[test]
fn freed_token_goes_to_the_unit_that_waited_longest() {
    let mut d = Dispatcher::for_chunks(&chunks(4), 1);
    assert_eq!(d.request_token(2), Admission::Granted);
    assert_eq!(d.request_token(3), Admission::Queued);
    assert_eq!(d.request_token(0), Admission::Queued);
    assert_eq!(d.request_token(1), Admission::Queued);
    let c = d.finish(2, Ok("two".to_string()));
    assert_eq!(
        c,
        Completion {
            accepted: true,
            progress: Some(Progress { completed: 1, total: 4 }),
            next: Some(3)
        }
    );
    assert_eq!(d.state_of(3), Some(UnitState::InFlight));
    assert_eq!(d.in_flight_count(), 1);
    assert_eq!(d.finish(3, Err(decode_error())).next, Some(0));
    assert_eq!(d.finish(0, Ok("zero".to_string())).next, Some(1));
    let last = d.finish(1, Ok("one".to_string()));
    assert_eq!(last.next, None);
    assert_eq!(last.progress, Some(Progress { completed: 3, total: 4 }));
    assert_eq!(d.in_flight_count(), 0);
    assert!(d.is_complete());
}

#[test]
fn progress_is_reported_for_successes_only() {
    let mut d = Dispatcher::for_chunks(&chunks(3), 3);
    for unit in 0..3 {
        assert_eq!(d.request_token(unit), Admission::Granted);
    }
    let failed = d.finish(1, Err(decode_error()));
    assert_eq!(failed, Completion { accepted: true, progress: None, next: None });
    assert_eq!(d.completed_count(), 0);
    let first = d.finish(2, Ok("c".to_string()));
    assert_eq!(first.progress, Some(Progress { completed: 1, total: 3 }));
    let second = d.finish(0, Ok("a".to_string()));
    assert_eq!(second.progress, Some(Progress { completed: 2, total: 3 }));
    assert_eq!(d.completed_count(), 2);
    assert!(d.is_complete());
}

#[test]
fn a_unit_finishes_only_once_and_only_with_a_token() {
    let mut d = Dispatcher::for_chunks(&chunks(3), 1);
    assert_eq!(d.finish(0, Ok("early".to_string())), REFUSED);
    assert_eq!(d.request_token(0), Admission::Granted);
    assert_eq!(d.request_token(1), Admission::Queued);
    assert_eq!(d.finish(1, Ok("waiting".to_string())), REFUSED);
    assert_eq!(d.finish(7, Ok("nobody".to_string())), REFUSED);
    assert!(d.finish(0, Ok("a".to_string())).accepted);
    assert_eq!(d.finish(0, Ok("again".to_string())), REFUSED);
    assert_eq!(d.completed_count(), 1);
    assert_eq!(d.into_outcomes().len(), 1);
}

#[test]
fn outcomes_carry_index_and_overlap_of_their_chunk() {
    let batch = vec![
        AudioChunk { index: 10, data: vec![], has_leading_overlap: false },
        AudioChunk { index: 11, data: vec![], has_leading_overlap: true },
    ];
    let mut d = Dispatcher::for_chunks(&batch, 3);
    d.request_token(1);
    d.request_token(0);
    d.finish(1, Ok("b".to_string()));
    d.finish(0, Err(decode_error()));
    let outcomes = d.into_outcomes();
    assert_eq!(outcomes.len(), 2);
    match &outcomes[0] {
        ChunkOutcome::Success(t) => {
            assert_eq!((t.index, t.text.as_str(), t.has_leading_overlap), (11, "b", true))
        }
        _ => panic!("expected a success"),
    }
    match &outcomes[1] {
        ChunkOutcome::Failure { index, cause } => {
            assert_eq!(*index, 10);
            assert_eq!(*cause, decode_error());
        }
        _ => panic!("expected a failure"),
    }
}

#[test]
fn worker_fault_becomes_a_failure_and_frees_the_token() {
    let mut d = Dispatcher::for_chunks(&chunks(3), 1);
    assert_eq!(d.request_token(0), Admission::Granted);
    assert_eq!(d.request_token(1), Admission::Queued);
    let c = d.abort(0, "boom".to_string());
    assert_eq!(c, Completion { accepted: true, progress: None, next: Some(1) });
    assert_eq!(d.state_of(0), Some(UnitState::Finished));
    assert_eq!(d.state_of(1), Some(UnitState::InFlight));
    assert_eq!(d.in_flight_count(), 1);
    let outcomes = d.into_outcomes();
    match &outcomes[0] {
        ChunkOutcome::Failure { index, cause } => {
            assert_eq!(*index, 0);
            assert_eq!(*cause, TranscriptionError::WorkerFault { detail: "boom".to_string() });
        }
        _ => panic!("expected a failure"),
    }
}

#[test]
fn worker_fault_of_a_waiting_unit_leaves_the_queue_in_order() {
    let mut d = Dispatcher::for_chunks(&chunks(5), 1);
    d.request_token(0);
    d.request_token(1);
    d.request_token(2);
    d.request_token(3);
    let c = d.abort(2, "gone".to_string());
    assert_eq!(c, Completion { accepted: true, progress: None, next: None });
    assert_eq!(d.waiting_count(), 2);
    assert_eq!(d.in_flight_count(), 1);
    assert_eq!(d.finish(0, Ok("a".to_string())).next, Some(1));
    assert_eq!(d.finish(1, Ok("b".to_string())).next, Some(3));
    assert_eq!(d.abort(4, "never asked".to_string()).accepted, true);
    assert_eq!(d.abort(4, "twice".to_string()), REFUSED);
    assert_eq!(d.abort(9, "nobody".to_string()), REFUSED);
    assert_eq!(d.finish(3, Ok("d".to_string())).next, None);
    assert!(d.is_complete());
    assert_eq!(d.completed_count(), 3);
}

#[test]
fn no_token_means_that_every_unit_waits() {
    let mut d = Dispatcher::for_chunks(&chunks(2), 0);
    assert_eq!(d.request_token(0), Admission::Queued);
    assert_eq!(d.request_token(1), Admission::Queued);
    assert_eq!(d.in_flight_count(), 0);
    assert_eq!(d.finish(0, Ok("x".to_string())), REFUSED);
}

#[test]
fn in_flight_never_exceeds_the_limit_under_load() {
    let n = 200;
    let limit = 3;
    let mut d = Dispatcher::for_chunks(&chunks(n), limit);
    let mut running: Vec<usize> = Vec::new();
    let mut highest = 0;
    let mut reports = 0;
    for unit in 0..n {
        match d.request_token(unit) {
            Admission::Granted => running.push(unit),
            Admission::Queued => {}
            Admission::Refused => panic!("a fresh unit was refused"),
        }
        assert!(d.in_flight_count() <= limit);
    }
    assert_eq!(running.len(), limit);
    let mut step = 0;
    while !running.is_empty() {
        assert_eq!(d.in_flight_count(), running.len());
        highest = highest.max(running.len());
        let pick = (step * 7 + 1) % running.len();
        let unit = running.remove(pick);
        let result = if unit % 5 == 4 { Err(decode_error()) } else { Ok(format!("t{}", unit)) };
        let expect_progress = result.is_ok();
        let c = d.finish(unit, result);
        assert!(c.accepted);
        assert_eq!(c.progress.is_some(), expect_progress);
        if let Some(p) = c.progress {
            reports += 1;
            assert_eq!(p, Progress { completed: reports, total: n });
        }
        if let Some(next) = c.next {
            running.push(next);
        }
        assert!(d.in_flight_count() <= limit);
        step += 1;
    }
    assert_eq!(highest, limit);
    assert!(d.is_complete());
    assert_eq!(d.completed_count(), reports);
    assert_eq!(reports, n - n / 5);
    assert!(reports <= n);
    let outcomes = d.into_outcomes();
    assert_eq!(outcomes.len(), n);
    let mut seen = vec![false; n];
    for outcome in outcomes.iter() {
        let index = match outcome {
            ChunkOutcome::Success(t) => t.index,
            ChunkOutcome::Failure { index, .. } => *index,
        };
        assert!(!seen[index]);
        seen[index] = true;
    }
    let error = assemble(outcomes).unwrap_err();
    assert_eq!((error.failed_count, error.total_count), (n / 5, n));
}

#[test]
fn dispatched_batch_is_assembled_in_chunk_order() {
    let mut d = Dispatcher::for_chunks(&chunks(3), 2);
    d.request_token(0);
    d.request_token(1);
    d.request_token(2);
    d.finish(1, Ok("brown fox jumps".to_string()));
    d.finish(2, Ok("Jumps high".to_string()));
    d.finish(0, Ok("the brown fox".to_string()));
    assert_eq!(assemble(d.into_outcomes()).unwrap(), "the brown fox jumps high");
}
