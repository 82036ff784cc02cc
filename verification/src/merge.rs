//! Merging the transcripts of consecutive chunks into one text.

use crate::overlap::{remove_overlap_chars, without_overlap};
use crate::text::{from_chars, to_chars, trim, trim_chars};
use vstd::prelude::*;

verus! {

/// The transcript of one chunk.
#[derive(Debug)]
pub struct ChunkTranscription {
    /// Position of the chunk in the recording.
    pub index: usize,
    /// What the provider heard in the chunk.
    pub text: String,
    /// Whether the chunk starts with audio that also ends the chunk before it.
    pub has_leading_overlap: bool,
}

/// `acc` followed by `piece`, with one space between them unless `acc` ends
/// in a space, `piece` starts with one, or `piece` is empty.
pub open spec fn append_piece(acc: Seq<char>, piece: Seq<char>) -> Seq<char> {
    if (acc.len() == 0 || acc.last() != ' ') && piece.len() > 0 && piece[0] != ' ' {
        acc.push(' ') + piece
    } else {
        acc + piece
    }
}

/// The text so far extended by the transcript of the next chunk.
///
/// The transcript is trimmed. Where the chunk has a leading overlap, the
/// words that repeat the end of the text so far are removed first.
pub open spec fn append_chunk(acc: Seq<char>, text: Seq<char>, has_leading_overlap: bool) -> Seq<
    char,
> {
    let trimmed = trim(text);
    if has_leading_overlap {
        append_piece(acc, without_overlap(acc, trimmed))
    } else {
        append_piece(acc, trimmed)
    }
}

/// The text that the chunks give when they are merged in the order given.
///
/// No chunk gives the empty text and one chunk gives its trimmed transcript.
/// Every further chunk is appended to what the chunks before it gave.
pub open spec fn merged_text(chunks: Seq<ChunkTranscription>) -> Seq<char>
    decreases chunks.len(),
{
    if chunks.len() == 0 {
        Seq::empty()
    } else if chunks.len() == 1 {
        trim(chunks[0].text@)
    } else {
        append_chunk(
            merged_text(chunks.drop_last()),
            chunks.last().text@,
            chunks.last().has_leading_overlap,
        )
    }
}

/// The merged text depends on the transcripts and the overlap marks alone,
/// taken in order: chunk lists that agree in both give the same text,
/// whatever the indices say.
pub proof fn lemma_merged_text_reads_texts_and_marks(
    a: Seq<ChunkTranscription>,
    b: Seq<ChunkTranscription>,
)
    requires
        a.len() == b.len(),
        forall|i: int|
            0 <= i < a.len() ==> (#[trigger] a[i]).text@ == b[i].text@ && a[i].has_leading_overlap
                == b[i].has_leading_overlap,
    ensures
        merged_text(a) == merged_text(b),
    decreases a.len(),
{
    if a.len() > 1 {
        lemma_merged_text_reads_texts_and_marks(a.drop_last(), b.drop_last());
    }
}

/// Appends `piece` to `acc`, separated by one space where neither side
/// provides one and `piece` is not empty.
fn push_piece(acc: &mut Vec<char>, piece: &Vec<char>)
    ensures
        final(acc)@ == append_piece(old(acc)@, piece@),
{
    let ends_with_space = acc.len() > 0 && acc[acc.len() - 1] == ' ';
    if !ends_with_space && piece.len() > 0 && piece[0] != ' ' {
        acc.push(' ');
    }
    let ghost base = acc@;
    let mut i: usize = 0;
    while i < piece.len()
        invariant
            i <= piece.len(),
            acc@ == base + piece@.take(i as int),
        decreases piece.len() - i,
    {
        acc.push(piece[i]);
        i += 1;
    }
}

/// Merges the transcripts of consecutive chunks, in the order given.
///
/// Each transcript is trimmed. A chunk with a leading overlap loses the words
/// that repeat the end of the text merged so far. Pieces are separated by
/// single spaces.
pub fn merge_transcriptions(transcriptions: Vec<ChunkTranscription>) -> (merged: String)
    ensures
        merged@ == merged_text(transcriptions@),
{
    let mut acc: Vec<char> = Vec::new();
    let mut i: usize = 0;
    while i < transcriptions.len()
        invariant
            i <= transcriptions.len(),
            acc@ == merged_text(transcriptions@.take(i as int)),
        decreases transcriptions.len() - i,
    {
        let chunk = &transcriptions[i];
        let text = trim_chars(&to_chars(chunk.text.as_str()));
        proof {
            assert(transcriptions@.take(i as int + 1).drop_last() == transcriptions@.take(
                i as int,
            ));
        }
        if i == 0 {
            acc = text;
        } else if chunk.has_leading_overlap {
            let cleaned = remove_overlap_chars(&acc, &text);
            push_piece(&mut acc, &cleaned);
        } else {
            push_piece(&mut acc, &text);
        }
        i += 1;
    }
    assert(transcriptions@.take(i as int) == transcriptions@);
    from_chars(&acc)
}

} // verus!
