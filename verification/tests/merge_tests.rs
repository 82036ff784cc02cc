use whis::merge::{merge_transcriptions, ChunkTranscription};
use whis::overlap::{remove_overlap, MAX_OVERLAP_WORDS};

fn chunk(index: usize, text: &str, has_leading_overlap: bool) -> ChunkTranscription {
    ChunkTranscription { index, text: text.to_string(), has_leading_overlap }
}

fn numbered_words(from: usize, to: usize) -> String {
    let mut words: Vec<String> = Vec::new();
    for i in from..to {
        words.push(format!("w{}", i));
    }
    words.join(" ")
}

#[test]
fn no_chunks_give_the_empty_text() {
    assert_eq!(merge_transcriptions(vec![]), "");
}

#[test]
fn single_chunk_is_trimmed() {
    assert_eq!(merge_transcriptions(vec![chunk(0, " hello world ", false)]), "hello world");
}

#[test]
fn single_chunk_keeps_inner_whitespace() {
    assert_eq!(merge_transcriptions(vec![chunk(0, "\thello   world\n", true)]), "hello   world");
}

#[test]
fn two_chunks_without_overlap_are_joined_by_a_space() {
    let merged = merge_transcriptions(vec![chunk(0, "hello", false), chunk(1, "world", false)]);
    assert_eq!(merged, "hello world");
}

#[test]
fn chunks_without_overlap_mark_keep_repeated_words() {
    let merged = merge_transcriptions(vec![
        chunk(0, "the quick brown fox", false),
        chunk(1, "brown fox jumps", false),
    ]);
    assert_eq!(merged, "the quick brown fox brown fox jumps");
}

#[test]
fn overlapping_chunks_lose_the_repeated_words() {
    let merged = merge_transcriptions(vec![
        chunk(0, "...the quick brown fox", false),
        chunk(1, "brown fox jumps", true),
    ]);
    assert_eq!(merged, "...the quick brown fox jumps");
}

#[test]
fn overlap_mark_of_the_first_chunk_is_ignored() {
    let merged = merge_transcriptions(vec![chunk(0, " one two ", true), chunk(1, "two three", true)]);
    assert_eq!(merged, "one two three");
}

#[test]
fn chunk_that_only_repeats_adds_nothing() {
    let merged = merge_transcriptions(vec![chunk(0, "one two", false), chunk(1, " one TWO ", true)]);
    assert_eq!(merged, "one two");
}

#[test]
fn empty_chunk_adds_nothing() {
    let merged = merge_transcriptions(vec![
        chunk(0, "one", false),
        chunk(1, "   ", false),
        chunk(2, "two", true),
    ]);
    assert_eq!(merged, "one two");
}

#[test]
fn empty_first_chunk_leaves_a_leading_space() {
    let merged = merge_transcriptions(vec![chunk(0, " ", false), chunk(1, "two", false)]);
    assert_eq!(merged, " two");
}

#[test]
fn three_chunks_are_folded_from_the_left() {
    let merged = merge_transcriptions(vec![
        chunk(0, "a b c", false),
        chunk(1, "b c d e", true),
        chunk(2, "d e f", true),
    ]);
    assert_eq!(merged, "a b c d e f");
}

#[test]
fn merge_follows_the_given_order_not_the_indices() {
    let merged = merge_transcriptions(vec![chunk(5, "later", false), chunk(1, "earlier", false)]);
    assert_eq!(merged, "later earlier");
}

#[test]
fn overlap_of_two_words_is_removed() {
    assert_eq!(remove_overlap("...the quick brown fox", "brown fox jumps"), "jumps");
}

#[test]
fn longest_overlap_wins_over_a_shorter_one() {
    assert_eq!(remove_overlap("x a b a", "a b a c"), "c");
    assert_eq!(remove_overlap("a a a", "a a b"), "b");
}

#[test]
fn overlap_ignores_ascii_case() {
    assert_eq!(remove_overlap("I love New York", "new york is big"), "is big");
}

#[test]
fn overlap_does_not_ignore_case_outside_ascii() {
    assert_eq!(remove_overlap("sehr sch\u{f6}n", "SCH\u{d6}N ist es"), "SCH\u{d6}N ist es");
    assert_eq!(remove_overlap("sehr sch\u{f6}n", "SCH\u{f6}N ist es"), "ist es");
}

#[test]
fn text_without_overlap_comes_back_unchanged() {
    assert_eq!(remove_overlap("one two", "  three   four "), "  three   four ");
}

#[test]
fn removed_overlap_normalises_the_spacing_of_the_rest() {
    assert_eq!(remove_overlap("one two", " two   three \t four "), "three four");
}

#[test]
fn empty_sides_leave_the_text_unchanged() {
    assert_eq!(remove_overlap("", "one two"), "one two");
    assert_eq!(remove_overlap("  \n ", " one"), " one");
    assert_eq!(remove_overlap("one", ""), "");
    assert_eq!(remove_overlap("one", "  "), "  ");
}

#[test]
fn punctuation_is_part_of_a_word() {
    assert_eq!(remove_overlap("brown fox.", "fox jumps"), "fox jumps");
}

#[test]
fn words_are_split_at_unicode_whitespace() {
    assert_eq!(remove_overlap("a\u{a0}b", "b\u{3000}c"), "c");
    assert_eq!(remove_overlap("a\u{200b}b", "b c"), "b c");
}

#[test]
fn overlap_of_the_widest_search_is_found() {
    assert_eq!(MAX_OVERLAP_WORDS, 15);
    let existing = format!("start {}", numbered_words(0, 15));
    let incoming = format!("{} tail", numbered_words(0, 15));
    assert_eq!(remove_overlap(&existing, &incoming), "tail");
}

#[test]
fn overlap_beyond_the_widest_search_is_not_found() {
    let existing = format!("start {}", numbered_words(0, 16));
    let incoming = format!("{} tail", numbered_words(0, 16));
    assert_eq!(remove_overlap(&existing, &incoming), incoming);
}

#[test]
fn overlap_that_is_the_whole_text_leaves_nothing() {
    assert_eq!(remove_overlap("one two three", "Two Three"), "");
}
