//! LIX readability scores.
//!
//! The LIX score of a text combines its average sentence length with the
//! share of long words in it: `words / sentences + 100 * long_words / words`,
//! clamped to `[0, 100]`. This crate counts sentences, words and long words
//! with contracts that pin each count to the model in [`model`], and reports
//! the score exactly — the counts together with the exact value and clamp
//! decision in [`score`] — so a caller can render it as the float of its
//! choosing.

use vstd::prelude::*;

pub mod model;
pub mod score;

use crate::model::{
    long_word_count, sentence_count, sentence_count_upto, word_char, word_count,
};
pub use crate::score::LixScore;

verus! {

/// Computes LIX readability scores. Stateless: one instance serves any number
/// of calls, from any number of threads.
pub struct LixNumber;

impl LixNumber {
    /// A new calculator.
    pub fn new() -> Self {
        LixNumber
    }

    /// Counts sentences, words and long words in `text` and returns the three
    /// counts, from which the score is the exact fraction
    /// [`LixScore::num`]` / `[`LixScore::den`].
    pub fn calculate(&self, text: &str) -> (score: LixScore)
        ensures
            score.words as nat == word_count(text@),
            score.sentences as nat == sentence_count(text@),
            score.long_words as nat == long_word_count(text@),
    {
        let sentences = self.count_sentences(text);
        let words = self.count_words(text);
        let long_words = self.count_long_words(text);
        LixScore { words, sentences, long_words }
    }

    /// Counts the sentence terminators (`.`, `!`, `?`) in `text`.
    fn count_sentences(&self, text: &str) -> (n: usize)
        ensures
            n as nat == sentence_count(text@),
    {
        let len = text.unicode_len();
        let mut i: usize = 0;
        let mut n: usize = 0;
        while i < len
            invariant
                len as nat == text@.len(),
                i <= len,
                n <= i,
                n as nat == sentence_count_upto(text@, i as int),
            decreases len - i,
        {
            let c = text.get_char(i);
            if c == '.' || c == '!' || c == '?' {
                n = n + 1;
            }
            i = i + 1;
        }
        n
    }

    /// Relies on `regex`: `\w+` matches precisely the maximal runs of word
    /// characters, and `find_iter` yields each non-overlapping match once
    /// from the left, so the number of matches is the word count.
    #[verifier::external_body]
    fn count_words(&self, text: &str) -> (n: usize)
        ensures
            n as nat == word_count(text@),
            n > 0 ==> exists|i: int| 0 <= i < text@.len() && word_char(text@[i]),
    {
        let re = regex::Regex::new(r"\w+").unwrap();
        re.find_iter(text).count()
    }

    /// Relies on `regex`: `\b\w{7,}\b` — Unicode word boundaries around seven
    /// or more word characters — matches precisely the maximal runs of at
    /// least seven word characters, so the number of matches is the long-word
    /// count.
    #[verifier::external_body]
    fn count_long_words(&self, text: &str) -> (n: usize)
        ensures
            n as nat == long_word_count(text@),
    {
        let re = regex::Regex::new(r"\b\w{7,}\b").unwrap();
        re.find_iter(text).count()
    }
}

} // verus!
