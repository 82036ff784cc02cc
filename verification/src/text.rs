//! Characters, whitespace and words.
//!
//! Text is modelled as `Seq<char>`. The executable functions work on
//! `Vec<char>`; [`to_chars`] and [`from_chars`] move between strings and
//! character vectors without changing the view.

use vstd::prelude::*;

verus! {

/// `String::push` appends the character to the end of the string.
pub assume_specification[ String::push ](s: &mut String, c: char)
    ensures
        final(s)@ == old(s)@.push(c),
;

/// Whether `c` is one of the Unicode `White_Space` code points.
pub open spec fn white_space(c: char) -> bool {
    let u = c as u32;
    ||| 0x09 <= u <= 0x0D
    ||| u == 0x20
    ||| u == 0x85
    ||| u == 0xA0
    ||| u == 0x1680
    ||| 0x2000 <= u <= 0x200A
    ||| u == 0x2028
    ||| u == 0x2029
    ||| u == 0x202F
    ||| u == 0x205F
    ||| u == 0x3000
}

/// The code point of `c` with the ASCII capital letters mapped to their
/// lower-case counterparts. Two characters are equal up to ASCII case exactly
/// when their folded code points are equal.
pub open spec fn ascii_fold(c: char) -> u32 {
    let u = c as u32;
    if 0x41 <= u <= 0x5A {
        (u + 0x20) as u32
    } else {
        u
    }
}

/// Whether two words are equal up to ASCII case.
pub open spec fn same_word(a: Seq<char>, b: Seq<char>) -> bool {
    &&& a.len() == b.len()
    &&& forall|i: int| 0 <= i < a.len() ==> ascii_fold(#[trigger] a[i]) == ascii_fold(b[i])
}

/// `s` without its leading whitespace.
pub open spec fn trim_start(s: Seq<char>) -> Seq<char>
    decreases s.len(),
{
    if s.len() > 0 && white_space(s[0]) {
        trim_start(s.drop_first())
    } else {
        s
    }
}

/// `s` without its trailing whitespace.
pub open spec fn trim_end(s: Seq<char>) -> Seq<char>
    decreases s.len(),
{
    if s.len() > 0 && white_space(s.last()) {
        trim_end(s.drop_last())
    } else {
        s
    }
}

/// `s` without its leading and trailing whitespace.
pub open spec fn trim(s: Seq<char>) -> Seq<char> {
    trim_end(trim_start(s))
}

/// The words of `s`: its maximal runs of characters that are not whitespace,
/// from left to right.
///
/// The definition follows the text from its end: a whitespace character adds
/// nothing, a character that follows another word character extends the last
/// word, and any other character starts a new word.
pub open spec fn words(s: Seq<char>) -> Seq<Seq<char>>
    decreases s.len(),
{
    if s.len() == 0 {
        Seq::empty()
    } else {
        let before = words(s.drop_last());
        let c = s.last();
        if white_space(c) {
            before
        } else if s.len() >= 2 && !white_space(s[s.len() - 2]) {
            before.drop_last().push(before.last().push(c))
        } else {
            before.push(seq![c])
        }
    }
}

/// The words joined by single spaces.
pub open spec fn join(parts: Seq<Seq<char>>) -> Seq<char>
    decreases parts.len(),
{
    if parts.len() == 0 {
        Seq::empty()
    } else if parts.len() == 1 {
        parts[0]
    } else {
        join(parts.drop_last()) + seq![' '] + parts.last()
    }
}

/// The text of an optional string.
pub open spec fn optional_text(value: Option<String>) -> Option<Seq<char>> {
    match value {
        Some(text) => Some(text@),
        None => None,
    }
}

/// The texts of a sequence of strings.
pub open spec fn texts(lines: Seq<String>) -> Seq<Seq<char>> {
    Seq::new(lines.len(), |i: int| lines[i]@)
}

/// The views of a vector of words.
pub open spec fn word_views(v: Seq<Vec<char>>) -> Seq<Seq<char>> {
    Seq::new(v.len(), |i: int| v[i]@)
}

/// Whether `word` can be a word: it is not empty and holds no whitespace.
pub open spec fn is_word(word: Seq<char>) -> bool {
    &&& word.len() > 0
    &&& forall|i: int| 0 <= i < word.len() ==> !white_space(#[trigger] word[i])
}

/// Every word of a text is a word: not empty and free of whitespace. A text
/// that ends in a word character ends in its last word.
pub proof fn lemma_words_are_words(s: Seq<char>)
    ensures
        forall|k: int| 0 <= k < words(s).len() ==> is_word(#[trigger] words(s)[k]),
        s.len() > 0 && !white_space(s.last()) ==> words(s).len() > 0,
    decreases s.len(),
{
    if s.len() > 0 {
        let shorter = s.drop_last();
        let before = words(shorter);
        let c = s.last();
        lemma_words_are_words(shorter);
    }
}

/// A text followed by a word that does not touch its last word has that
/// word as one more word.
pub proof fn lemma_words_of_appended_word(s: Seq<char>, word: Seq<char>)
    requires
        is_word(word),
        s.len() == 0 || white_space(s.last()),
    ensures
        words(s + word) == words(s).push(word),
    decreases word.len(),
{
    let text = s + word;
    let c = word.last();
    assert(text.drop_last() == s + word.drop_last());
    if word.len() == 1 {
        assert(word == seq![c]);
    } else {
        let head = word.drop_last();
        lemma_words_of_appended_word(s, head);
        assert(head.push(c) == word);
    }
}

/// Splitting what joining made gives the words back.
pub proof fn lemma_words_of_joined(parts: Seq<Seq<char>>)
    requires
        forall|k: int| 0 <= k < parts.len() ==> is_word(#[trigger] parts[k]),
    ensures
        words(join(parts)) == parts,
    decreases parts.len(),
{
    if parts.len() == 1 {
        lemma_words_of_appended_word(Seq::empty(), parts[0]);
    } else if parts.len() > 1 {
        let shorter = parts.drop_last();
        lemma_words_of_joined(shorter);
        let spaced = join(shorter) + seq![' '];
        assert(spaced.drop_last() == join(shorter));
        lemma_words_of_appended_word(spaced, parts.last());
    }
}

/// The characters of `s`, in order.
pub fn to_chars(s: &str) -> (v: Vec<char>)
    ensures
        v@ == s@,
{
    let mut v: Vec<char> = Vec::new();
    for c in it: s.chars()
        invariant
            it.seq() == s@,
            v@ == s@.take(it.index() as int),
    {
        v.push(c);
    }
    v
}

/// The string whose characters are `v`, in order.
pub fn from_chars(v: &Vec<char>) -> (s: String)
    ensures
        s@ == v@,
{
    let mut s = String::new();
    let mut i: usize = 0;
    while i < v.len()
        invariant
            i <= v.len(),
            s@ == v@.take(i as int),
        decreases v.len() - i,
    {
        s.push(v[i]);
        i += 1;
    }
    s
}

/// Tests a character for the `White_Space` property.
pub fn is_whitespace(c: char) -> (b: bool)
    ensures
        b == white_space(c),
{
    let u: u32 = c as u32;
    (0x09 <= u && u <= 0x0D) || u == 0x20 || u == 0x85 || u == 0xA0 || u == 0x1680 || (0x2000 <= u
        && u <= 0x200A) || u == 0x2028 || u == 0x2029 || u == 0x202F || u == 0x205F || u == 0x3000
}

/// Computes the folded code point of a character.
pub fn fold_ascii(c: char) -> (u: u32)
    ensures
        u == ascii_fold(c),
{
    let u: u32 = c as u32;
    if 0x41 <= u && u <= 0x5A {
        u + 0x20
    } else {
        u
    }
}

/// Compares two words up to ASCII case.
pub fn words_match(a: &Vec<char>, b: &Vec<char>) -> (r: bool)
    ensures
        r == same_word(a@, b@),
{
    if a.len() != b.len() {
        return false;
    }
    let mut i: usize = 0;
    while i < a.len()
        invariant
            i <= a.len(),
            a.len() == b.len(),
            forall|j: int| 0 <= j < i ==> ascii_fold(#[trigger] a@[j]) == ascii_fold(b@[j]),
        decreases a.len() - i,
    {
        if fold_ascii(a[i]) != fold_ascii(b[i]) {
            return false;
        }
        i += 1;
    }
    true
}

/// Removes leading and trailing whitespace.
pub fn trim_chars(s: &Vec<char>) -> (r: Vec<char>)
    ensures
        r@ == trim(s@),
{
    let mut start: usize = 0;
    assert(s@.skip(0) == s@);
    while start < s.len() && is_whitespace(s[start])
        invariant
            start <= s.len(),
            trim_start(s@) == trim_start(s@.skip(start as int)),
        decreases s.len() - start,
    {
        proof {
            assert(s@.skip(start as int).drop_first() == s@.skip(start as int + 1));
        }
        start += 1;
    }
    let mut end: usize = s.len();
    while end > start && is_whitespace(s[end - 1])
        invariant
            start <= end <= s.len(),
            trim(s@) == trim_end(s@.subrange(start as int, end as int)),
        decreases end,
    {
        proof {
            assert(s@.subrange(start as int, end as int).drop_last() == s@.subrange(
                start as int,
                end as int - 1,
            ));
        }
        end -= 1;
    }
    let mut r: Vec<char> = Vec::new();
    let mut i: usize = start;
    while i < end
        invariant
            start <= i <= end <= s.len(),
            r@ == s@.subrange(start as int, i as int),
        decreases end - i,
    {
        r.push(s[i]);
        i += 1;
    }
    r
}

/// Splits a text into its words.
pub fn split_words(s: &Vec<char>) -> (r: Vec<Vec<char>>)
    ensures
        word_views(r@) == words(s@),
{
    let mut done: Vec<Vec<char>> = Vec::new();
    let mut current: Vec<char> = Vec::new();
    let mut i: usize = 0;
    while i < s.len()
        invariant
            i <= s.len(),
            current@.len() > 0 <==> (i > 0 && !white_space(s@[i - 1])),
            words(s@.take(i as int)) == if current@.len() > 0 {
                word_views(done@).push(current@)
            } else {
                word_views(done@)
            },
        decreases s.len() - i,
    {
        let c = s[i];
        proof {
            assert(s@.take(i as int + 1).drop_last() == s@.take(i as int));
        }
        if is_whitespace(c) {
            if current.len() > 0 {
                done.push(current);
                current = Vec::new();
            }
        } else {
            let ghost before = current@;
            current.push(c);
            proof {
                if before.len() == 0 {
                    assert(current@ == seq![c]);
                }
            }
        }
        i += 1;
    }
    assert(s@.take(i as int) == s@);
    if current.len() > 0 {
        done.push(current);
    }
    done
}

/// Joins words with single spaces.
pub fn join_words(parts: &Vec<Vec<char>>, from: usize) -> (r: Vec<char>)
    requires
        from <= parts.len(),
    ensures
        r@ == join(word_views(parts@).skip(from as int)),
{
    let mut r: Vec<char> = Vec::new();
    let mut i: usize = from;
    while i < parts.len()
        invariant
            from <= i <= parts.len(),
            r@ == join(word_views(parts@).subrange(from as int, i as int)),
        decreases parts.len() - i,
    {
        let ghost before = r@;
        if i > from {
            r.push(' ');
        }
        let word = &parts[i];
        let mut j: usize = 0;
        while j < word.len()
            invariant
                j <= word.len(),
                r@ == (if i > from {
                    before.push(' ')
                } else {
                    before
                }) + word@.take(j as int),
            decreases word.len() - j,
        {
            r.push(word[j]);
            j += 1;
        }
        proof {
            let all = word_views(parts@);
            assert(all.subrange(from as int, i as int + 1).drop_last() == all.subrange(
                from as int,
                i as int,
            ));
        }
        i += 1;
    }
    r
}

/// Whether two texts hold the same characters.
pub fn same_text(a: &str, b: &str) -> (r: bool)
    ensures
        r == (a@ == b@),
{
    let x = to_chars(a);
    let y = to_chars(b);
    if x.len() != y.len() {
        return false;
    }
    let mut i: usize = 0;
    while i < x.len()
        invariant
            i <= x.len(),
            x.len() == y.len(),
            x@ == a@,
            y@ == b@,
            x@.take(i as int) == y@.take(i as int),
        decreases x.len() - i,
    {
        if x[i] != y[i] {
            return false;
        }
        i += 1;
    }
    assert(x@.take(i as int) == x@);
    assert(y@.take(i as int) == y@);
    true
}

/// Appends the characters of `piece` to `acc`.
pub fn push_text(acc: &mut Vec<char>, piece: &str)
    ensures
        final(acc)@ == old(acc)@ + piece@,
{
    let chars = to_chars(piece);
    let ghost base = acc@;
    let mut i: usize = 0;
    while i < chars.len()
        invariant
            i <= chars.len(),
            acc@ == base + chars@.take(i as int),
        decreases chars.len() - i,
    {
        acc.push(chars[i]);
        i += 1;
    }
}

/// The lower-case form of a text under the Unicode case mapping.
pub uninterp spec fn lowercase_of(s: Seq<char>) -> Seq<char>;

/// Calls `str::to_lowercase`, which returns the lower-case equivalent of the
/// text as a new string. The mapping is the one of the Unicode character
/// database; here the result only has a name.
#[verifier::external_body]
pub(crate) fn lowercase(s: &str) -> (r: String)
    ensures
        r@ == lowercase_of(s@),
{
    s.to_lowercase()
}

} // verus!
