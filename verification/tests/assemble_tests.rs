use whis::assemble::{assemble, sort_by_index, AggregateError, ChunkOutcome};
use whis::error::{status_from_display, TranscriptionError, TransportPhase};
use whis::merge::ChunkTranscription;
use whis::provider::TranscriptionProvider;

fn success(index: usize, text: &str, has_leading_overlap: bool) -> ChunkOutcome {
    ChunkOutcome::Success(ChunkTranscription { index, text: text.to_string(), has_leading_overlap })
}

fn failure(index: usize, status: u16) -> ChunkOutcome {
    ChunkOutcome::Failure {
        index,
        cause: TranscriptionError::Provider {
            provider: TranscriptionProvider::OpenAI,
            status,
            body: "no".to_string(),
        },
    }
}

fn story(order: &[usize]) -> Vec<ChunkOutcome> {
    let mut outcomes = Vec::new();
    for &index in order {
        outcomes.push(match index {
            0 => success(0, " the quick brown ", false),
            1 => success(1, "quick Brown fox jumps", true),
            2 => success(2, "jumps over the lazy dog", true),
            _ => success(3, "and runs away", false),
        });
    }
    outcomes
}

#[test]
fn no_outcomes_give_the_empty_text() {
    assert_eq!(assemble(vec![]).unwrap(), "");
}

#[test]
fn one_outcome_gives_its_trimmed_text() {
    assert_eq!(assemble(vec![success(7, " hello world ", false)]).unwrap(), "hello world");
}

#[test]
fn outcomes_are_merged_by_index() {
    let text = assemble(vec![success(1, "world", false), success(0, "hello", false)]).unwrap();
    assert_eq!(text, "hello world");
}

#[test]
fn arrival_order_does_not_change_the_text() {
    let expected = "the quick brown fox jumps over the lazy dog and runs away";
    let orders: [[usize; 4]; 6] =
        [[0, 1, 2, 3], [3, 2, 1, 0], [1, 0, 3, 2], [2, 3, 0, 1], [1, 3, 0, 2], [3, 0, 2, 1]];
    for order in orders.iter() {
        assert_eq!(assemble(story(order)).unwrap(), expected);
    }
}

#[test]
fn outcomes_with_the_same_index_keep_their_arrival_order() {
    let text = assemble(vec![
        success(1, "c", false),
        success(0, "a", false),
        success(0, "b", false),
    ])
    .unwrap();
    assert_eq!(text, "a b c");
}

#[test]
fn sorting_is_by_ascending_index() {
    let sorted = sort_by_index(vec![
        ChunkTranscription { index: 2, text: "c".to_string(), has_leading_overlap: true },
        ChunkTranscription { index: 0, text: "a".to_string(), has_leading_overlap: false },
        ChunkTranscription { index: 1, text: "b".to_string(), has_leading_overlap: true },
    ]);
    let indices: Vec<usize> = sorted.iter().map(|t| t.index).collect();
    let texts: Vec<&str> = sorted.iter().map(|t| t.text.as_str()).collect();
    assert_eq!(indices, vec![0, 1, 2]);
    assert_eq!(texts, vec!["a", "b", "c"]);
    assert!(!sorted[0].has_leading_overlap && sorted[1].has_leading_overlap);
}

#[test]
fn one_failure_fails_the_batch() {
    let result = assemble(vec![
        success(0, "hello", false),
        failure(1, 500),
        success(2, "world", false),
        success(3, "again", false),
    ]);
    let error: AggregateError = result.unwrap_err();
    assert!(error.failed_count >= 1);
    assert_eq!(error.failed_count, 1);
    assert_eq!(error.total_count, 4);
    assert_eq!(error.causes.len(), 1);
    assert!(matches!(error.causes[0], TranscriptionError::Provider { status: 500, .. }));
}

#[test]
fn a_single_failed_chunk_fails_the_batch() {
    let error = assemble(vec![failure(0, 401)]).unwrap_err();
    assert_eq!((error.failed_count, error.total_count), (1, 1));
}

#[test]
fn every_cause_is_listed_in_arrival_order() {
    let error = assemble(vec![
        failure(2, 502),
        success(0, "hello", false),
        ChunkOutcome::Failure {
            index: 1,
            cause: TranscriptionError::WorkerFault { detail: "boom".to_string() },
        },
        ChunkOutcome::Failure {
            index: 3,
            cause: TranscriptionError::Decode { provider: TranscriptionProvider::Mistral },
        },
    ])
    .unwrap_err();
    assert_eq!(error.failed_count, 3);
    assert_eq!(error.total_count, 4);
    assert_eq!(
        error.causes,
        vec![
            TranscriptionError::Provider {
                provider: TranscriptionProvider::OpenAI,
                status: 502,
                body: "no".to_string(),
            },
            TranscriptionError::WorkerFault { detail: "boom".to_string() },
            TranscriptionError::Decode { provider: TranscriptionProvider::Mistral },
        ]
    );
}

#[test]
fn aggregate_message_counts_and_lists_the_causes() {
    let error = assemble(vec![
        failure(0, 429),
        success(1, "x", false),
        ChunkOutcome::Failure {
            index: 2,
            cause: TranscriptionError::Transport {
                provider: TranscriptionProvider::Mistral,
                phase: TransportPhase::Send,
                detail: "timed out".to_string(),
            },
        },
    ])
    .unwrap_err();
    assert_eq!(
        error.message(),
        "Failed to transcribe 2 of 3 chunks:\nOpenAI API error (429 Too Many Requests): no\nFailed to send request to Mistral API"
    );
}

#[test]
fn error_messages_name_provider_and_status() {
    let provider = TranscriptionProvider::Mistral;
    assert_eq!(
        TranscriptionError::Provider { provider, status: 401, body: "{\"m\":1}".to_string() }
            .message(),
        "Mistral API error (401 Unauthorized): {\"m\":1}"
    );
    assert_eq!(
        TranscriptionError::Provider {
            provider: TranscriptionProvider::OpenAI,
            status: 65535,
            body: String::new()
        }
        .message(),
        "OpenAI API error (65535): "
    );
    assert_eq!(
        TranscriptionError::Transport {
            provider,
            phase: TransportPhase::ReadBody,
            detail: "reset".to_string()
        }
        .message(),
        "Failed to get response text"
    );
    assert_eq!(
        TranscriptionError::Decode { provider: TranscriptionProvider::OpenAI }.message(),
        "Failed to parse OpenAI API response"
    );
    assert_eq!(
        TranscriptionError::WorkerFault { detail: "index out of bounds".to_string() }.message(),
        "Task panicked: index out of bounds"
    );
}

#[test]
fn status_is_shown_with_its_reason() {
    let message = |status: u16| {
        TranscriptionError::Provider {
            provider: TranscriptionProvider::OpenAI,
            status,
            body: "b".to_string(),
        }
        .message()
    };
    assert_eq!(message(500), "OpenAI API error (500 Internal Server Error): b");
    assert_eq!(message(404), "OpenAI API error (404 Not Found): b");
    assert_eq!(message(299), "OpenAI API error (299 <unknown status code>): b");
    assert_eq!(message(99), "OpenAI API error (99): b");
    assert_eq!(message(1000), "OpenAI API error (1000): b");
    assert_eq!(message(0), "OpenAI API error (0): b");
}

#[test]
fn status_without_display_is_shown_as_a_number() {
    assert_eq!(status_from_display(418, Some("418 I'm a teapot".to_string())), "418 I'm a teapot");
    assert_eq!(status_from_display(418, None), "418");
    assert_eq!(status_from_display(0, None), "0");
}
