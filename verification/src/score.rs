//! The LIX score itself: the exact value of the clamped formula
//! `words / sentences + 100 * long_words / words` as a fraction of integers,
//! the policy for degenerate texts, and the laws the score obeys.

use vstd::prelude::*;

use crate::model::{long_word_count, sentence_count, word_char, word_count};

verus! {

/// Numerator of the unclamped score `w/s + 100*l/w` brought over the common
/// denominator `s * w`.
pub open spec fn raw_num(w: int, s: int, l: int) -> int {
    w * w + 100 * l * s
}

/// The common denominator `s * w` of the unclamped score.
pub open spec fn raw_den(w: int, s: int) -> int {
    s * w
}

/// The upper clamp: with words present the score saturates at 100 when the
/// text has no sentence terminator (the first term divides by zero, read as
/// unbounded) or when the raw score reaches 100.
pub open spec fn score_is_max(w: int, s: int, l: int) -> bool {
    w > 0 && (s == 0 || raw_num(w, s, l) >= 100 * raw_den(w, s))
}

/// Numerator of the final score. A text without words scores 0 by policy; a
/// saturated score is exactly 100; otherwise the score is the exact fraction
/// `raw_num / raw_den`.
pub open spec fn score_num(w: int, s: int, l: int) -> int {
    if w <= 0 {
        0
    } else if score_is_max(w, s, l) {
        100
    } else {
        raw_num(w, s, l)
    }
}

/// Denominator of the final score; positive whenever the counts are.
pub open spec fn score_den(w: int, s: int, l: int) -> int {
    if w <= 0 {
        1
    } else if score_is_max(w, s, l) {
        1
    } else {
        raw_den(w, s)
    }
}

/// The result of a LIX calculation: the three counts the formula is built
/// from. The score of the text is `self.num() / self.den()`, an exact
/// fraction in [0, 100]; [`Self::frac`] returns it, and a caller that wants
/// a float divides the two.
#[derive(Clone, Copy, Debug, PartialEq, Eq, Structural)]
pub struct LixScore {
    /// Number of words: maximal runs of word characters.
    pub words: usize,
    /// Number of sentence terminators: `.`, `!` and `?`.
    pub sentences: usize,
    /// Number of long words: maximal runs of at least seven word characters.
    pub long_words: usize,
}

impl LixScore {
    /// Numerator of the exact clamped score.
    pub open spec fn num(self) -> int {
        score_num(self.words as int, self.sentences as int, self.long_words as int)
    }

    /// Denominator of the exact clamped score.
    pub open spec fn den(self) -> int {
        score_den(self.words as int, self.sentences as int, self.long_words as int)
    }

    /// True when the degenerate-input policy applies: no words, score 0.
    pub fn is_zero(&self) -> (r: bool)
        ensures
            r == (self.num() == 0),
    {
        proof {
            lemma_score_frac_in_range(
                self.words as int,
                self.sentences as int,
                self.long_words as int,
            );
        }
        self.words == 0
    }

    /// The exact clamp decision: true when the score of the counted text is
    /// exactly 100 because the raw formula reached or passed it.
    pub fn is_max(&self) -> (r: bool)
        ensures
            r == score_is_max(self.words as int, self.sentences as int, self.long_words as int),
    {
        let w = self.words;
        let s = self.sentences;
        let l = self.long_words;
        if w == 0 {
            false
        } else if s == 0 {
            true
        } else if l >= w {
            // The long-word term alone is at least 100.
            proof {
                assert(raw_num(w as int, s as int, l as int) >= 100 * raw_den(w as int, s as int))
                    by (nonlinear_arith)
                    requires
                        w >= 1,
                        s >= 1,
                        l >= w,
                ;
            }
            true
        } else {
            let wide_w: u128 = w as u128;
            let wide_s: u128 = s as u128;
            proof {
                lemma_square_of_u64_fits(wide_w);
            }
            let lhs: u128 = wide_w * wide_w;
            let short_fall: u128 = (w - l) as u128;
            let scaled_s: u128 = 100 * wide_s;
            let quot: u128 = u128::MAX / scaled_s;
            proof {
                lemma_scaled_comparison(w as int, s as int, l as int);
                lemma_product_within_cap(short_fall as int, scaled_s as int, u128::MAX as int);
            }
            if short_fall > quot {
                // The right-hand side exceeds u128::MAX, so it exceeds lhs.
                false
            } else {
                let rhs: u128 = scaled_s * short_fall;
                lhs >= rhs
            }
        }
    }

    /// The exact clamped score as a fraction of machine integers, numerator
    /// first. `None` only when the numerator does not fit 128 bits, which
    /// takes a text of astronomical length; every real text gets `Some`.
    pub fn frac(&self) -> (r: Option<(u128, u128)>)
        ensures
            match r {
                Some(f) => f.0 as int == self.num() && f.1 as int == self.den(),
                None => self.num() > u128::MAX as int,
            },
    {
        let w = self.words;
        let s = self.sentences;
        let l = self.long_words;
        if w == 0 {
            Some((0, 1))
        } else if self.is_max() {
            Some((100, 1))
        } else {
            // Words and sentences are both present and the raw fraction
            // `(w*w + 100*l*s) / (s*w)` stays below 100.
            let wide_w: u128 = w as u128;
            let wide_s: u128 = s as u128;
            let wide_l: u128 = l as u128;
            proof {
                lemma_square_of_u64_fits(wide_w);
                assert(wide_s * wide_w <= u64::MAX as u128 * u64::MAX as u128) by (nonlinear_arith)
                    requires
                        wide_s <= u64::MAX as u128,
                        wide_w <= u64::MAX as u128,
                ;
            }
            let den: u128 = wide_s * wide_w;
            let square: u128 = wide_w * wide_w;
            let scaled_s: u128 = 100 * wide_s;
            let quot: u128 = u128::MAX / scaled_s;
            proof {
                lemma_product_within_cap(wide_l as int, scaled_s as int, u128::MAX as int);
                assert(scaled_s as int * wide_l as int == 100 * (l as int) * (s as int))
                    by (nonlinear_arith)
                    requires
                        scaled_s as int == 100 * (s as int),
                        wide_l as int == l as int,
                ;
            }
            if wide_l > quot {
                None
            } else {
                let long_term: u128 = scaled_s * wide_l;
                if square > u128::MAX - long_term {
                    None
                } else {
                    Some((square + long_term, den))
                }
            }
        }
    }
}

/// The square of a value that fits 64 bits fits 128 bits.
proof fn lemma_square_of_u64_fits(x: u128)
    requires
        x <= u64::MAX as u128,
    ensures
        x as int * x as int <= (u64::MAX as int) * (u64::MAX as int),
        (u64::MAX as int) * (u64::MAX as int) < u128::MAX as int,
{
    assert(x as int * x as int <= u64::MAX as int * u64::MAX as int) by (nonlinear_arith)
        requires
            0 <= x as int <= u64::MAX as int,
    ;
}

/// For positive `b` and a non-negative cap, comparing `a` against the integer
/// quotient `cap / b` decides whether the product `b * a` stays within `cap`.
proof fn lemma_product_within_cap(a: int, b: int, cap: int)
    requires
        a >= 0,
        b >= 1,
        cap >= 0,
    ensures
        (b * a <= cap) == (a <= cap / b),
{
    let q = cap / b;
    let r = cap % b;
    vstd::arithmetic::div_mod::lemma_fundamental_div_mod(cap, b);
    vstd::arithmetic::div_mod::lemma_mod_division_less_than_divisor(cap, b);
    if a <= q {
        assert(b * a <= b * q) by (nonlinear_arith)
            requires
                a <= q,
                b >= 1,
        ;
    } else {
        assert(b * a >= b * q + b) by (nonlinear_arith)
            requires
                a >= q + 1,
                b >= 1,
        ;
    }
}

/// `raw_num >= 100 * raw_den` compared as `w*w` against `100*s*(w - l)`, the
/// form the executable clamp test uses.
proof fn lemma_scaled_comparison(w: int, s: int, l: int)
    ensures
        (raw_num(w, s, l) >= 100 * raw_den(w, s)) == (w * w >= 100 * s * (w - l)),
{
    assert((w * w + 100 * l * s >= 100 * (s * w)) == (w * w >= 100 * s * (w - l)))
        by (nonlinear_arith);
}

/// Range bounds of the score for any non-negative counts: the denominator is
/// positive and `0 <= num/den <= 100`, stated by cross-multiplication.
proof fn lemma_score_frac_in_range(w: int, s: int, l: int)
    requires
        w >= 0,
        s >= 0,
        l >= 0,
    ensures
        score_den(w, s, l) > 0,
        0 <= score_num(w, s, l),
        score_num(w, s, l) <= 100 * score_den(w, s, l),
        score_num(w, s, l) == 0 <==> w == 0,
{
    if w > 0 && !score_is_max(w, s, l) {
        assert(s > 0);
        assert(raw_den(w, s) > 0 && raw_num(w, s, l) >= w * w >= w >= 1) by (nonlinear_arith)
            requires
                w >= 1,
                s >= 1,
                l >= 0,
        ;
    }
}

/// Range law: for every text, the score is a well-formed fraction that lies
/// in [0, 100] — the denominator is positive and `0 <= num <= 100 * den`.
pub proof fn lemma_score_in_range(t: Seq<char>)
    ensures
        score_den(word_count(t) as int, sentence_count(t) as int, long_word_count(t) as int) > 0,
        0 <= score_num(word_count(t) as int, sentence_count(t) as int, long_word_count(t) as int),
        score_num(word_count(t) as int, sentence_count(t) as int, long_word_count(t) as int) <= 100
            * score_den(word_count(t) as int, sentence_count(t) as int, long_word_count(t) as int),
{
    lemma_score_frac_in_range(
        word_count(t) as int,
        sentence_count(t) as int,
        long_word_count(t) as int,
    );
}

/// Empty-text law: a text with no characters has no words, no sentences and
/// no long words, and by the degenerate-input policy its score is exactly 0.
pub proof fn lemma_empty_text_scores_zero(t: Seq<char>)
    requires
        t.len() == 0,
    ensures
        word_count(t) == 0,
        sentence_count(t) == 0,
        long_word_count(t) == 0,
        score_num(word_count(t) as int, sentence_count(t) as int, long_word_count(t) as int) == 0,
        score_den(word_count(t) as int, sentence_count(t) as int, long_word_count(t) as int) == 1,
{
}

/// No-words law: a text in which no character is a word character has word
/// count 0, and by the degenerate-input policy its score is exactly 0.
pub proof fn lemma_no_word_chars_scores_zero(t: Seq<char>)
    requires
        forall|i: int| 0 <= i < t.len() ==> !word_char(t[i]),
    ensures
        word_count(t) == 0,
        score_num(word_count(t) as int, sentence_count(t) as int, long_word_count(t) as int) == 0,
        score_den(word_count(t) as int, sentence_count(t) as int, long_word_count(t) as int) == 1,
{
    crate::model::lemma_no_word_chars_no_words(t, t.len() as int);
}

/// Monotonicity law: with the word and sentence counts held fixed, raising
/// the long-word count never lowers the score. The two fractions are compared
/// by cross-multiplication.
pub proof fn lemma_score_monotone_in_long_words(w: int, s: int, l1: int, l2: int)
    requires
        w >= 0,
        s >= 0,
        0 <= l1 <= l2,
    ensures
        score_num(w, s, l1) * score_den(w, s, l2) <= score_num(w, s, l2) * score_den(w, s, l1),
{
    lemma_score_frac_in_range(w, s, l1);
    lemma_score_frac_in_range(w, s, l2);
    if w > 0 && s > 0 {
        assert(raw_num(w, s, l1) <= raw_num(w, s, l2)) by (nonlinear_arith)
            requires
                s >= 0,
                l1 <= l2,
        ;
        if score_is_max(w, s, l1) {
            assert(score_is_max(w, s, l2));
        } else if score_is_max(w, s, l2) {
            // The unclamped left score is below 100 = the right score.
            assert(score_num(w, s, l1) * 1 <= 100 * score_den(w, s, l1));
        } else {
            assert(raw_num(w, s, l1) * raw_den(w, s) <= raw_num(w, s, l2) * raw_den(w, s))
                by (nonlinear_arith)
                requires
                    raw_num(w, s, l1) <= raw_num(w, s, l2),
                    raw_den(w, s) >= 0,
            ;
        }
    }
}

/// Determinism law: the score is a function of the text alone. Any two
/// results that satisfy the contract of `LixNumber::calculate` for the same
/// text are equal.
pub proof fn lemma_calculate_deterministic(t: Seq<char>, a: LixScore, b: LixScore)
    requires
        a.words as nat == word_count(t),
        a.sentences as nat == sentence_count(t),
        a.long_words as nat == long_word_count(t),
        b.words as nat == word_count(t),
        b.sentences as nat == sentence_count(t),
        b.long_words as nat == long_word_count(t),
    ensures
        a == b,
{
}

} // verus!

