//! What holds of every frequency model and of every correction.
use vstd::prelude::*;
use vstd::multiset::Multiset;
use crate::checker::{SpellChecker, known_words, candidate_words, most_frequent, corrected};
use crate::text::tokens_of;

verus! {

/// The sum of the multiplicities in `m` of the words of the set `s`.
pub open spec fn sum_of_counts(m: Multiset<Seq<char>>, s: Set<Seq<char>>) -> nat
    decreases s.len(),
{
    if s.finite() && s.len() > 0 {
        let x = s.choose();
        m.count(x) + sum_of_counts(m, s.remove(x))
    } else {
        0
    }
}

/// The sum over a set depends only on the counts of the set's words.
proof fn lemma_sum_agrees(m1: Multiset<Seq<char>>, m2: Multiset<Seq<char>>, s: Set<Seq<char>>)
    requires
        s.finite(),
        forall|x: Seq<char>| s.contains(x) ==> m1.count(x) == m2.count(x),
    ensures
        sum_of_counts(m1, s) == sum_of_counts(m2, s),
    decreases s.len(),
{
    if s.len() > 0 {
        let x = s.choose();
        lemma_sum_agrees(m1, m2, s.remove(x));
    }
}

/// Any word of the set can be taken out of the sum first.
proof fn lemma_sum_remove(m: Multiset<Seq<char>>, s: Set<Seq<char>>, x: Seq<char>)
    requires
        s.finite(),
        s.contains(x),
    ensures
        sum_of_counts(m, s) == m.count(x) + sum_of_counts(m, s.remove(x)),
    decreases s.len(),
{
    let y = s.choose();
    if y != x {
        lemma_sum_remove(m, s.remove(y), x);
        lemma_sum_remove(m, s.remove(x), y);
        assert(s.remove(y).remove(x) =~= s.remove(x).remove(y));
    }
}

/// The counts of the words of a multiset add up to its size.
proof fn lemma_counts_sum_to_len(m: Multiset<Seq<char>>)
    ensures
        sum_of_counts(m, m.dom()) == m.len(),
    decreases m.len(),
{
    if m.len() == 0 {
        assert forall|v: Seq<char>| m.count(v) == 0 by {}
        assert(m.dom() =~= Set::empty());
    } else {
        let x = m.choose();
        let m2 = m.remove(x);
        assert(m2.len() == m.len() - 1);
        lemma_counts_sum_to_len(m2);
        lemma_sum_remove(m, m.dom(), x);
        if m.count(x) >= 2 {
            assert(m2.dom() =~= m.dom());
            lemma_sum_remove(m2, m.dom(), x);
            lemma_sum_agrees(m, m2, m.dom().remove(x));
        } else {
            assert(m2.dom() =~= m.dom().remove(x));
            lemma_sum_agrees(m, m2, m.dom().remove(x));
        }
    }
}

/// Frequencies are probabilities: a word's count is at most the total, so
/// its probability `count / total` lies in `[0, 1]`; and the counts of the
/// vocabulary add up to the total, so on a non-empty corpus the
/// probabilities of the vocabulary sum to one.
pub proof fn lemma_frequencies_form_a_distribution(checker: &SpellChecker, w: Seq<char>)
    ensures
        checker@.count(w) <= checker@.len(),
        sum_of_counts(checker@, checker@.dom()) == checker@.len(),
{
    lemma_counts_sum_to_len(checker@);
}

/// A word that is not among the tokens of the corpus has count zero, hence
/// probability zero.
pub proof fn lemma_unseen_word_has_count_zero(text: Seq<char>, w: Seq<char>)
    requires
        !tokens_of(text).contains(w),
    ensures
        tokens_of(text).to_multiset().count(w) == 0,
{
    tokens_of(text).to_multiset_ensures();
}

/// A known word is corrected to itself.
pub proof fn lemma_known_word_is_kept(checker: &SpellChecker, w: Seq<char>)
    requires
        checker@.contains(w),
    ensures
        corrected(checker@, w) == w,
{
    assert(candidate_words(checker@, w) == seq![w]);
    assert(most_frequent(seq![w], checker@) == w);
}

/// On an empty corpus every word has count zero, and every word is its own
/// correction.
pub proof fn lemma_empty_corpus(checker: &SpellChecker, w: Seq<char>)
    requires
        checker@.len() == 0,
    ensures
        checker@.count(w) == 0,
        corrected(checker@, w) == w,
{
    let m = checker@;
    assert forall|ws: Seq<Seq<char>>| known_words(m, ws).len() == 0 by {
        let k = known_words(m, ws);
        if k.len() > 0 {
            ws.lemma_filter_pred(|v: Seq<char>| m.contains(v), 0);
        }
    }
    assert(candidate_words(m, w) == seq![w]);
    assert(most_frequent(seq![w], m) == w);
}

/// Correcting a correction that is a known word changes nothing.
pub proof fn lemma_correction_idempotent(checker: &SpellChecker, w: Seq<char>)
    requires
        checker@.contains(corrected(checker@, w)),
    ensures
        corrected(checker@, corrected(checker@, w)) == corrected(checker@, w),
{
    lemma_known_word_is_kept(checker, corrected(checker@, w));
}

} // verus!
