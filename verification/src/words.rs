//! Splitting text into the words that line packing keeps whole.

use vstd::prelude::*;

verus! {

/// The byte of a space. In UTF-8 it occurs only as the space character, so
/// a text cut after it is cut between characters.
pub const SPACE: u8 = 32;

/// The bytes of one word: from `start` up to, not including, `end`.
#[derive(Clone, Copy, Debug, PartialEq, Eq)]
pub struct WordRange {
    pub start: usize,
    pub end: usize,
}

/// The range holds at least one byte of the text, ends after a space or at
/// the end of the text, and holds no space before its last byte.
pub open spec fn is_word(text: Seq<u8>, r: WordRange) -> bool {
    &&& r.start < r.end <= text.len()
    &&& (r.end == text.len() || text[r.end - 1] == SPACE)
    &&& forall|k: int| r.start <= k < r.end - 1 ==> text[k] != SPACE
}

/// The ranges are words of the text, each begins where the one before it
/// ends, and together they are the first `upto` bytes.
pub open spec fn splits_prefix(text: Seq<u8>, ranges: Seq<WordRange>, upto: int) -> bool {
    &&& forall|i: int| 0 <= i < ranges.len() ==> is_word(text, #[trigger] ranges[i])
    &&& forall|i: int| 0 <= i < ranges.len() - 1 ==> (#[trigger] ranges[i]).end == ranges[i + 1].start
    &&& ranges.len() > 0 ==> ranges[0].start == 0 && ranges[ranges.len() - 1].end == upto
    &&& ranges.len() == 0 ==> upto == 0
}

/// The ranges are the words of the text: none is empty, they adjoin, they
/// cover the text, and each ends after a space or at the end of the text and
/// nowhere later.
pub open spec fn is_word_split(text: Seq<u8>, ranges: Seq<WordRange>) -> bool {
    splits_prefix(text, ranges, text.len() as int)
}

/// Cuts a text after every space. Each word keeps the space that follows
/// it; what follows the last space is the last word; an empty text has no
/// words.
pub fn word_ranges(text: &[u8]) -> (ranges: Vec<WordRange>)
    ensures
        is_word_split(text@, ranges@),
{
    let n = text.len();
    let mut ranges: Vec<WordRange> = Vec::new();
    let mut start: usize = 0;
    let mut i: usize = 0;
    while i < n
        invariant
            n == text@.len(),
            start <= i <= n,
            splits_prefix(text@, ranges@, start as int),
            forall|j: int| 0 <= j < ranges@.len() ==> text@[(#[trigger] ranges@[j]).end - 1] == SPACE,
            forall|k: int| start <= k < i ==> text@[k] != SPACE,
        decreases n - i,
    {
        if text[i] == SPACE {
            let ghost before = ranges@;
            ranges.push(WordRange { start, end: i + 1 });
            proof {
                assert forall|j: int| 0 <= j < ranges@.len() implies is_word(text@, #[trigger] ranges@[j]) by {
                    if j < before.len() {
                        assert(ranges@[j] == before[j]);
                    }
                }
                assert forall|j: int| 0 <= j < ranges@.len() - 1 implies (#[trigger] ranges@[j]).end == ranges@[j
                    + 1].start by {
                    assert(ranges@[j] == before[j]);
                    if j + 1 < before.len() {
                        assert(ranges@[j + 1] == before[j + 1]);
                    }
                }
            }
            start = i + 1;
        }
        i += 1;
    }
    if start < n {
        let ghost before = ranges@;
        ranges.push(WordRange { start, end: n });
        proof {
            assert forall|j: int| 0 <= j < ranges@.len() implies is_word(text@, #[trigger] ranges@[j]) by {
                if j < before.len() {
                    assert(ranges@[j] == before[j]);
                }
            }
            assert forall|j: int| 0 <= j < ranges@.len() - 1 implies (#[trigger] ranges@[j]).end == ranges@[j
                + 1].start by {
                assert(ranges@[j] == before[j]);
                if j + 1 < before.len() {
                    assert(ranges@[j + 1] == before[j + 1]);
                }
            }
        }
    }
    ranges
}

/// Two splits of one text into words agree on every word that both have.
pub proof fn lemma_same_word_at(text: Seq<u8>, a: Seq<WordRange>, b: Seq<WordRange>, i: int)
    requires
        is_word_split(text, a),
        is_word_split(text, b),
        0 <= i < a.len(),
        i < b.len(),
    ensures
        a[i] == b[i],
    decreases i,
{
    if i > 0 {
        lemma_same_word_at(text, a, b, i - 1);
        assert(a[i - 1].end == a[i].start);
        assert(b[i - 1].end == b[i].start);
    }
    assert(is_word(text, a[i]));
    assert(is_word(text, b[i]));
    if a[i].end < b[i].end {
        assert(text[a[i].end - 1] == SPACE);
    }
    if b[i].end < a[i].end {
        assert(text[b[i].end - 1] == SPACE);
    }
}

/// A text has one split into words.
pub proof fn lemma_word_split_unique(text: Seq<u8>, a: Seq<WordRange>, b: Seq<WordRange>)
    requires
        is_word_split(text, a),
        is_word_split(text, b),
    ensures
        a == b,
{
    if a.len() < b.len() {
        let n = a.len() as int;
        if n > 0 {
            lemma_same_word_at(text, a, b, n - 1);
            assert(b[n - 1].end == b[n].start);
        }
        assert(is_word(text, b[n]));
    }
    if b.len() < a.len() {
        let n = b.len() as int;
        if n > 0 {
            lemma_same_word_at(text, a, b, n - 1);
            assert(a[n - 1].end == a[n].start);
        }
        assert(is_word(text, a[n]));
    }
    assert forall|i: int| 0 <= i < a.len() implies a[i] == b[i] by {
        lemma_same_word_at(text, a, b, i);
    }
    assert(a =~= b);
}

} // verus!
