//! Removal of wording that a fragment repeats from the text before it.
//!
//! Adjacent audio chunks share a little audio, so the transcript of a chunk
//! may begin with the words that end the transcript so far. The search
//! compares whole words, ignores ASCII case, and looks at no more than
//! [`MAX_OVERLAP_WORDS`] words on either side.

use crate::text::{
    from_chars, join, join_words, same_word, split_words, to_chars, word_views, words,
    words_match,
};
use vstd::prelude::*;

verus! {

/// Largest number of words compared when looking for an overlap.
pub const MAX_OVERLAP_WORDS: usize = 15;

/// Whether the last `k` words of `existing` equal the first `k` words of
/// `incoming`, word by word and up to ASCII case.
pub open spec fn tail_matches_head(
    existing: Seq<Seq<char>>,
    incoming: Seq<Seq<char>>,
    k: int,
) -> bool {
    &&& 0 <= k <= existing.len()
    &&& k <= incoming.len()
    &&& forall|i: int|
        0 <= i < k ==> same_word(#[trigger] existing[existing.len() - k + i], incoming[i])
}

/// The largest overlap length that is searched for: the cap, or the word
/// count of the shorter side.
pub open spec fn overlap_limit(existing: Seq<Seq<char>>, incoming: Seq<Seq<char>>) -> int {
    let shorter = if existing.len() <= incoming.len() {
        existing.len()
    } else {
        incoming.len()
    };
    if shorter <= MAX_OVERLAP_WORDS {
        shorter as int
    } else {
        MAX_OVERLAP_WORDS as int
    }
}

/// The largest `k` with `1 <= k <= upto` for which the last `k` words of
/// `existing` match the first `k` words of `incoming`; 0 if there is none.
pub open spec fn longest_overlap(
    existing: Seq<Seq<char>>,
    incoming: Seq<Seq<char>>,
    upto: int,
) -> int
    decreases upto,
{
    if upto <= 0 {
        0
    } else if tail_matches_head(existing, incoming, upto) {
        upto
    } else {
        longest_overlap(existing, incoming, upto - 1)
    }
}

/// The number of leading words of `incoming` that repeat the end of
/// `existing`, within the search limit.
pub open spec fn overlap_len(existing: Seq<Seq<char>>, incoming: Seq<Seq<char>>) -> int {
    longest_overlap(existing, incoming, overlap_limit(existing, incoming))
}

/// `incoming` without the leading words that repeat the end of `existing`.
///
/// Where an overlap is found the remaining words are joined by single spaces;
/// where none is found, `incoming` is returned as it is.
pub open spec fn without_overlap(existing: Seq<char>, incoming: Seq<char>) -> Seq<char> {
    let k = overlap_len(words(existing), words(incoming));
    if k > 0 {
        join(words(incoming).skip(k))
    } else {
        incoming
    }
}

/// What `longest_overlap` returns is 0 or a matching length, it lies within
/// the bound, and no longer length within the bound matches.
pub proof fn lemma_longest_overlap(
    existing: Seq<Seq<char>>,
    incoming: Seq<Seq<char>>,
    upto: int,
)
    ensures
        0 <= longest_overlap(existing, incoming, upto),
        upto >= 0 ==> longest_overlap(existing, incoming, upto) <= upto,
        longest_overlap(existing, incoming, upto) > 0 ==> tail_matches_head(
            existing,
            incoming,
            longest_overlap(existing, incoming, upto),
        ),
        forall|k: int|
            longest_overlap(existing, incoming, upto) < k <= upto ==> !tail_matches_head(
                existing,
                incoming,
                k,
            ),
    decreases upto,
{
    if upto > 0 && !tail_matches_head(existing, incoming, upto) {
        lemma_longest_overlap(existing, incoming, upto - 1);
    }
}

/// Any matching length within the search limit is at most the overlap that is
/// removed: the search keeps the longest match.
pub proof fn lemma_overlap_is_longest(
    existing: Seq<Seq<char>>,
    incoming: Seq<Seq<char>>,
    k: int,
)
    requires
        1 <= k <= overlap_limit(existing, incoming),
        tail_matches_head(existing, incoming, k),
    ensures
        k <= overlap_len(existing, incoming) <= MAX_OVERLAP_WORDS,
{
    lemma_longest_overlap(existing, incoming, overlap_limit(existing, incoming));
}

/// No more words are removed than the search looks at, and no more than
/// either side has.
pub proof fn lemma_overlap_within_cap(existing: Seq<Seq<char>>, incoming: Seq<Seq<char>>)
    ensures
        0 <= overlap_len(existing, incoming) <= MAX_OVERLAP_WORDS,
        overlap_len(existing, incoming) <= existing.len(),
        overlap_len(existing, incoming) <= incoming.len(),
        overlap_len(existing, incoming) > 0 ==> tail_matches_head(
            existing,
            incoming,
            overlap_len(existing, incoming),
        ),
{
    lemma_longest_overlap(existing, incoming, overlap_limit(existing, incoming));
}

/// Tests whether the last `k` words of `existing` match the first `k` words of
/// `incoming`.
fn overlap_matches(existing: &Vec<Vec<char>>, incoming: &Vec<Vec<char>>, k: usize) -> (r: bool)
    requires
        k <= existing.len(),
        k <= incoming.len(),
    ensures
        r == tail_matches_head(word_views(existing@), word_views(incoming@), k as int),
{
    let base: usize = existing.len() - k;
    let mut i: usize = 0;
    while i < k
        invariant
            i <= k,
            k <= existing.len(),
            k <= incoming.len(),
            base == existing.len() - k,
            forall|j: int|
                0 <= j < i ==> same_word(
                    #[trigger] word_views(existing@)[existing.len() - k + j],
                    word_views(incoming@)[j],
                ),
        decreases k - i,
    {
        if !words_match(&existing[base + i], &incoming[i]) {
            proof {
                assert(word_views(existing@)[existing.len() - k + i] == existing@[base + i]@);
            }
            return false;
        }
        i += 1;
    }
    true
}

/// Removes from the start of `incoming` the words that repeat the end of
/// `existing`.
pub fn remove_overlap_chars(existing: &Vec<char>, incoming: &Vec<char>) -> (r: Vec<char>)
    ensures
        r@ == without_overlap(existing@, incoming@),
{
    let existing_words = split_words(existing);
    let incoming_words = split_words(incoming);
    if existing_words.len() == 0 || incoming_words.len() == 0 {
        return incoming.clone();
    }
    let shorter = if existing_words.len() <= incoming_words.len() {
        existing_words.len()
    } else {
        incoming_words.len()
    };
    let limit = if shorter <= MAX_OVERLAP_WORDS {
        shorter
    } else {
        MAX_OVERLAP_WORDS
    };
    let mut best: usize = 0;
    let mut k: usize = 1;
    while k <= limit
        invariant
            1 <= k <= limit + 1,
            limit <= existing_words.len(),
            limit <= incoming_words.len(),
            limit <= MAX_OVERLAP_WORDS,
            best == longest_overlap(
                word_views(existing_words@),
                word_views(incoming_words@),
                k - 1,
            ),
        decreases limit + 1 - k,
    {
        if overlap_matches(&existing_words, &incoming_words, k) {
            best = k;
        }
        k += 1;
    }
    proof {
        lemma_longest_overlap(
            word_views(existing_words@),
            word_views(incoming_words@),
            limit as int,
        );
    }
    if best > 0 {
        join_words(&incoming_words, best)
    } else {
        incoming.clone()
    }
}

/// Removes from the start of `new_text` the words that repeat the end of
/// `existing`.
///
/// Both texts are split into words at whitespace. The longest run of at most
/// [`MAX_OVERLAP_WORDS`] words that ends `existing` and, up to ASCII case,
/// starts `new_text` is dropped, and the words that are left are joined by
/// single spaces. Where no such run exists, `new_text` comes back unchanged.
pub fn remove_overlap(existing: &str, new_text: &str) -> (r: String)
    ensures
        r@ == without_overlap(existing@, new_text@),
{
    let existing_chars = to_chars(existing);
    let incoming_chars = to_chars(new_text);
    let cleaned = remove_overlap_chars(&existing_chars, &incoming_chars);
    from_chars(&cleaned)
}

} // verus!
