//! The frequency model and the correction engine.
use vstd::prelude::*;
use vstd::hash_map::StringHashMap;
use vstd::multiset::Multiset;
use crate::edits::{alphabet, deletes, transposes, replaces, inserts, single_edits, double_edits};
use crate::text::{views, tokens_of, tokenize, chars_of, push_char, push_chars};
use vstd::arithmetic::div_mod::lemma_fundamental_div_mod_converse;

verus! {

/// The words of `ws` that occur in `m`, in order.
pub open spec fn known_words(m: Multiset<Seq<char>>, ws: Seq<Seq<char>>) -> Seq<Seq<char>> {
    ws.filter(|v: Seq<char>| m.contains(v))
}

/// The candidates for correcting `w`: `w` itself if it is known; else the
/// known single edits of `w` if there are any; else the known double edits of
/// `w` if there are any; else `w` itself.
pub open spec fn candidate_words(m: Multiset<Seq<char>>, w: Seq<char>) -> Seq<Seq<char>> {
    if m.contains(w) {
        seq![w]
    } else if known_words(m, single_edits(w)).len() > 0 {
        known_words(m, single_edits(w))
    } else if known_words(m, double_edits(w)).len() > 0 {
        known_words(m, double_edits(w))
    } else {
        seq![w]
    }
}

/// The first of the words in `c` whose count in `m` is the largest.
pub open spec fn most_frequent(c: Seq<Seq<char>>, m: Multiset<Seq<char>>) -> Seq<char>
    decreases c.len(),
{
    if c.len() <= 1 {
        c[0]
    } else {
        let b = most_frequent(c.drop_last(), m);
        if m.count(c.last()) > m.count(b) {
            c.last()
        } else {
            b
        }
    }
}

/// The correction of `w`: its most frequent candidate.
pub open spec fn corrected(m: Multiset<Seq<char>>, w: Seq<char>) -> Seq<char> {
    most_frequent(candidate_words(m, w), m)
}

/// Word counts of a corpus, and the corrector built on them.
///
/// Its view is the multiset of the corpus's word tokens: the multiplicity of
/// a word is its count, and the size of the multiset is the total number of
/// tokens.
pub struct SpellChecker {
    words: StringHashMap<usize>,
    total_words: usize,
    bag: Ghost<Multiset<Seq<char>>>,
}

impl View for SpellChecker {
    type V = Multiset<Seq<char>>;

    closed spec fn view(&self) -> Multiset<Seq<char>> {
        self.bag@
    }
}

impl SpellChecker {
    /// The map holds exactly the words of the multiset, each with its
    /// multiplicity, and the total is the size of the multiset.
    #[verifier::type_invariant]
    closed spec fn counts_match(self) -> bool {
        &&& self.total_words == self.bag@.len()
        &&& forall|w: Seq<char>| #[trigger]
            self.words@.contains_key(w) <==> self.bag@.count(w) > 0
        &&& forall|w: Seq<char>| #[trigger]
            self.words@.contains_key(w) ==> self.words@[w] == self.bag@.count(w)
    }

    /// Counts the given word tokens.
    pub fn from_tokens(tokens: &Vec<String>) -> (r: SpellChecker)
        ensures
            r@ == views(tokens@).to_multiset(),
    {
        broadcast use vstd::seq_lib::group_to_multiset_ensures;

        let mut words: StringHashMap<usize> = StringHashMap::new();
        let mut total: usize = 0;
        let ghost mut bag: Multiset<Seq<char>> = Multiset::empty();
        let mut i: usize = 0;
        while i < tokens.len()
            invariant
                i <= tokens@.len(),
                bag == views(tokens@.subrange(0, i as int)).to_multiset(),
                total == bag.len(),
                forall|w: Seq<char>| #[trigger] words@.contains_key(w) <==> bag.count(w) > 0,
                forall|w: Seq<char>| #[trigger]
                    words@.contains_key(w) ==> words@[w] == bag.count(w),
            decreases tokens@.len() - i,
        {
            let ghost prefix = views(tokens@.subrange(0, i as int));
            let t = &tokens[i];
            let c: usize = match words.get(t.as_str()) {
                Some(n) => *n,
                None => 0,
            };
            proof {
                prefix.to_multiset_ensures();
            }
            assert(prefix.len() == i);
            assert(bag.count(t@) <= bag.len());
            assert(views(tokens@.subrange(0, i + 1)) =~= prefix.push(t@));
            assert(prefix.push(t@).to_multiset() =~= bag.insert(t@));
            words.insert(t.clone(), c + 1);
            total = total + 1;
            proof {
                bag = bag.insert(t@);
            }
            i = i + 1;
        }
        assert(tokens@.subrange(0, tokens@.len() as int) =~= tokens@);
        SpellChecker { words, total_words: total, bag: Ghost(bag) }
    }

    /// Counts the word tokens of `text`.
    pub fn from_text(text: &str) -> (r: SpellChecker)
        ensures
            r@ == tokens_of(text@).to_multiset(),
    {
        let tokens = tokenize(text);
        SpellChecker::from_tokens(&tokens)
    }

    /// How many times `word` occurs in the corpus.
    pub fn count(&self, word: &str) -> (r: usize)
        ensures
            r == self@.count(word@),
    {
        proof {
            use_type_invariant(self);
        }
        match self.words.get(word) {
            Some(n) => *n,
            None => 0,
        }
    }

    /// The number of word tokens in the corpus.
    pub fn total(&self) -> (r: usize)
        ensures
            r == self@.len(),
    {
        proof {
            use_type_invariant(self);
        }
        self.total_words
    }

    /// Whether `word` occurs in the corpus.
    pub fn is_known(&self, word: &str) -> (r: bool)
        ensures
            r == self@.contains(word@),
    {
        proof {
            use_type_invariant(self);
        }
        self.words.contains_key(word)
    }

    /// Every string one elementary edit away from `word`, in the order of
    /// [`single_edits`].
    pub fn edits1(&self, word: &str) -> (r: Vec<String>)
        ensures
            views(r@) == single_edits(word@),
    {
        let ghost w = word@;
        let cs = chars_of(word);
        let n = cs.len();
        let letters: Vec<char> = vec![
            'a', 'b', 'c', 'd', 'e', 'f', 'g', 'h', 'i', 'j', 'k', 'l', 'm',
            'n', 'o', 'p', 'q', 'r', 's', 't', 'u', 'v', 'w', 'x', 'y', 'z',
        ];
        assert(letters@ =~= alphabet());
        let mut out: Vec<String> = Vec::new();
        let mut i: usize = 0;
        while i < n
            invariant
                cs@ == w,
                n == w.len(),
                i <= n,
                views(out@) =~= deletes(w).subrange(0, i as int),
            decreases n - i,
        {
            let mut s = String::new();
            push_chars(&mut s, &cs, 0, i);
            push_chars(&mut s, &cs, i + 1, n);
            let ghost prev = views(out@);
            out.push(s);
            assert(views(out@) =~= prev.push(s@));
            i = i + 1;
        }
        assert(views(out@) =~= deletes(w));
        let ghost base = views(out@);
        i = 0;
        while i + 1 < n
            invariant
                cs@ == w,
                n == w.len(),
                n == 0 ==> i == 0,
                n > 0 ==> i < n,
                base == deletes(w),
                views(out@) =~= base + transposes(w).subrange(0, i as int),
            decreases n - i,
        {
            let mut s = String::new();
            push_chars(&mut s, &cs, 0, i);
            push_char(&mut s, cs[i + 1]);
            push_char(&mut s, cs[i]);
            push_chars(&mut s, &cs, i + 2, n);
            assert(s@ =~= transposes(w)[i as int]);
            let ghost prev = views(out@);
            out.push(s);
            assert(views(out@) =~= prev.push(s@));
            i = i + 1;
        }
        assert(views(out@) =~= deletes(w) + transposes(w));
        let ghost base = views(out@);
        i = 0;
        while i < n
            invariant
                cs@ == w,
                letters@ == alphabet(),
                n == w.len(),
                i <= n,
                base == deletes(w) + transposes(w),
                views(out@) =~= base + replaces(w).subrange(0, 26 * i),
            decreases n - i,
        {
            let mut j: usize = 0;
            while j < 26
                invariant
                    cs@ == w,
                    letters@ == alphabet(),
                    n == w.len(),
                    i < n,
                    j <= 26,
                    base == deletes(w) + transposes(w),
                    views(out@) =~= base + replaces(w).subrange(0, 26 * i + j),
                decreases 26 - j,
            {
                proof {
                    lemma_fundamental_div_mod_converse(26 * i + j, 26, i as int, j as int);
                }
                let mut s = String::new();
                push_chars(&mut s, &cs, 0, i);
                push_char(&mut s, letters[j]);
                push_chars(&mut s, &cs, i + 1, n);
                assert(s@ =~= replaces(w)[26 * i + j]);
                let ghost prev = views(out@);
            out.push(s);
            assert(views(out@) =~= prev.push(s@));
                j = j + 1;
            }
            i = i + 1;
        }
        assert(views(out@) =~= deletes(w) + transposes(w) + replaces(w));
        let ghost base = views(out@);
        i = 0;
        while i <= n
            invariant_except_break
                views(out@) =~= base + inserts(w).subrange(0, 26 * i),
            invariant
                cs@ == w,
                letters@ == alphabet(),
                n == w.len(),
                i <= n,
                base == deletes(w) + transposes(w) + replaces(w),
            ensures
                views(out@) =~= base + inserts(w),
            decreases n - i,
        {
            let mut j: usize = 0;
            while j < 26
                invariant
                    cs@ == w,
                    letters@ == alphabet(),
                    n == w.len(),
                    i <= n,
                    j <= 26,
                    base == deletes(w) + transposes(w) + replaces(w),
                    views(out@) =~= base + inserts(w).subrange(0, 26 * i + j),
                decreases 26 - j,
            {
                proof {
                    lemma_fundamental_div_mod_converse(26 * i + j, 26, i as int, j as int);
                }
                let mut s = String::new();
                push_chars(&mut s, &cs, 0, i);
                push_char(&mut s, letters[j]);
                push_chars(&mut s, &cs, i, n);
                assert(s@ =~= inserts(w)[26 * i + j]);
                let ghost prev = views(out@);
            out.push(s);
            assert(views(out@) =~= prev.push(s@));
                j = j + 1;
            }
            if i == n {
                break;
            }
            i = i + 1;
        }
        out
    }

    /// The words of `words` that occur in the corpus, in order.
    pub fn known(&self, words: Vec<String>) -> (r: Vec<String>)
        ensures
            views(r@) == known_words(self@, views(words@)),
    {
        let ghost m = self@;
        let mut out: Vec<String> = Vec::new();
        let mut i: usize = 0;
        while i < words.len()
            invariant
                m == self@,
                i <= words@.len(),
                views(out@) == known_words(m, views(words@.subrange(0, i as int))),
            decreases words@.len() - i,
        {
            let ghost prev = views(out@);
            let ghost pre = views(words@.subrange(0, i as int));
            let w = &words[i];
            assert(views(words@.subrange(0, i + 1)) =~= pre.push(w@));
            assert(pre.push(w@).drop_last() =~= pre);
            proof {
                reveal(Seq::filter);
            }
            if self.is_known(w.as_str()) {
                out.push(w.clone());
                assert(views(out@) =~= prev.push(w@));
            }
            i = i + 1;
        }
        assert(words@.subrange(0, words@.len() as int) =~= words@);
        out
    }

    /// The candidates for correcting `word`, tier by tier: the word itself
    /// if known, else its known single edits, else its known double edits,
    /// else the word itself.
    pub fn candidates(&self, word: &str) -> (r: Vec<String>)
        ensures
            views(r@) == candidate_words(self@, word@),
    {
        let ghost m = self@;
        let ghost w = word@;
        if self.is_known(word) {
            let r = vec![String::from_str(word)];
            assert(views(r@) =~= seq![w]);
            return r;
        }
        let e1 = self.edits1(word);
        let e1_copy = e1.clone();
        assert(e1_copy@ =~= e1@);
        let k1 = self.known(e1_copy);
        if k1.len() > 0 {
            return k1;
        }
        let mut k2: Vec<String> = Vec::new();
        let mut i: usize = 0;
        while i < e1.len()
            invariant
                m == self@,
                views(e1@) == single_edits(w),
                i <= e1@.len(),
                views(k2@) == known_words(
                    m,
                    single_edits(w).subrange(0, i as int).map_values(
                        |e: Seq<char>| single_edits(e),
                    ).flatten(),
                ),
            decreases e1@.len() - i,
        {
            let ghost prev = views(k2@);
            let ghost pre = single_edits(w).subrange(0, i as int).map_values(
                |e: Seq<char>| single_edits(e),
            );
            let e = self.edits1(e1[i].as_str());
            let mut ke = self.known(e);
            k2.append(&mut ke);
            proof {
                let f = |e: Seq<char>| single_edits(e);
                let x = single_edits(e1@[i as int]@);
                assert(single_edits(w).subrange(0, i + 1).map_values(f) =~= pre.push(x));
                pre.lemma_flatten_push(x);
                Seq::filter_distributes_over_add(pre.flatten(), x, |v: Seq<char>| m.contains(v));
                assert(views(k2@) =~= prev + known_words(m, x));
            }
            i = i + 1;
        }
        assert(single_edits(w).subrange(0, e1@.len() as int) =~= single_edits(w));
        if k2.len() > 0 {
            return k2;
        }
        let r = vec![String::from_str(word)];
        assert(views(r@) =~= seq![w]);
        r
    }

    /// The correction of `word`: among its candidates, the one with the
    /// highest count, the first one in candidate order on a tie. As every
    /// word's probability is its count over the same total, this is the most
    /// probable candidate.
    pub fn correction(&self, word: &str) -> (r: String)
        ensures
            r@ == corrected(self@, word@),
    {
        let ghost m = self@;
        let cands = self.candidates(word);
        let ghost c = views(cands@);
        assert(c.len() > 0);
        let mut best: usize = 0;
        let mut best_count: usize = self.count(cands[0].as_str());
        assert(c.subrange(0, 1).len() == 1);
        let mut i: usize = 1;
        while i < cands.len()
            invariant
                m == self@,
                c == views(cands@),
                1 <= i <= cands@.len(),
                best < i,
                c[best as int] == most_frequent(c.subrange(0, i as int), m),
                best_count == m.count(c[best as int]),
            decreases cands@.len() - i,
        {
            assert(c.subrange(0, i + 1).drop_last() =~= c.subrange(0, i as int));
            let n = self.count(cands[i].as_str());
            if n > best_count {
                best = i;
                best_count = n;
            }
            i = i + 1;
        }
        assert(c.subrange(0, c.len() as int) =~= c);
        cands[best].clone()
    }
}

} // verus!
