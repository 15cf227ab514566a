//! The mathematical model of a text: which characters are word characters,
//! where words begin, and the three counts the LIX score is built from.

use vstd::prelude::*;

verus! {

/// The class of word characters: Unicode letters, digits and connector
/// punctuation, as the `\w` character class of the `regex` crate decides it.
/// The class is far too large to write out, so it is left uninterpreted and
/// pinned down only by the contracts of the functions that call `regex`.
pub uninterp spec fn word_char(c: char) -> bool;

/// A sentence terminator is one of `.`, `!` or `?`.
pub open spec fn sentence_terminator(c: char) -> bool {
    c == '.' || c == '!' || c == '?'
}

/// A word begins at `i` when a word character stands there and no word
/// character stands directly before it: `i` starts a maximal run.
pub open spec fn word_start(t: Seq<char>, i: int) -> bool {
    &&& 0 <= i < t.len()
    &&& word_char(t[i])
    &&& (i == 0 || !word_char(t[i - 1]))
}

/// A long word begins at `i` when a word begins there and the run of word
/// characters from `i` is at least seven characters long.
pub open spec fn long_word_start(t: Seq<char>, i: int) -> bool {
    &&& word_start(t, i)
    &&& i + 7 <= t.len()
    &&& forall|k: int| i <= k < i + 7 ==> word_char(t[k])
}

/// Number of sentence terminators among the first `n` characters of `t`.
pub open spec fn sentence_count_upto(t: Seq<char>, n: int) -> nat
    decreases n,
{
    if n <= 0 {
        0
    } else {
        sentence_count_upto(t, n - 1) + (if 0 <= n - 1 < t.len() && sentence_terminator(
            t[n - 1],
        ) {
            1nat
        } else {
            0nat
        })
    }
}

/// Number of sentence terminators in `t`.
pub open spec fn sentence_count(t: Seq<char>) -> nat {
    sentence_count_upto(t, t.len() as int)
}

/// Number of words beginning among the first `n` characters of `t`.
pub open spec fn word_count_upto(t: Seq<char>, n: int) -> nat
    decreases n,
{
    if n <= 0 {
        0
    } else {
        word_count_upto(t, n - 1) + (if word_start(t, n - 1) {
            1nat
        } else {
            0nat
        })
    }
}

/// Number of words in `t`: the number of maximal runs of word characters.
pub open spec fn word_count(t: Seq<char>) -> nat {
    word_count_upto(t, t.len() as int)
}

/// Number of long words beginning among the first `n` characters of `t`.
pub open spec fn long_word_count_upto(t: Seq<char>, n: int) -> nat
    decreases n,
{
    if n <= 0 {
        0
    } else {
        long_word_count_upto(t, n - 1) + (if long_word_start(t, n - 1) {
            1nat
        } else {
            0nat
        })
    }
}

/// Number of long words in `t`: maximal runs of at least seven word characters.
pub open spec fn long_word_count(t: Seq<char>) -> nat {
    long_word_count_upto(t, t.len() as int)
}

/// In a text without a single word character no word begins anywhere, so
/// every prefix holds zero words.
pub proof fn lemma_no_word_chars_no_words(t: Seq<char>, n: int)
    requires
        forall|i: int| 0 <= i < t.len() ==> !word_char(t[i]),
    ensures
        word_count_upto(t, n) == 0,
    decreases n,
{
    if n > 0 {
        lemma_no_word_chars_no_words(t, n - 1);
    }
}

} // verus!
