//! The elementary edits of a word, as mathematical sequences.
//!
//! A word of length `n` is split at every position `i` in `0..=n` into a
//! left part `w[0..i]` and a right part `w[i..n]`. Each edit family is listed
//! in the order of its split position, and for the families that use a
//! letter, in alphabetical order within one split position.
use vstd::prelude::*;

verus! {

/// The 26 lowercase letters of the Latin alphabet, in order.
pub open spec fn alphabet() -> Seq<char> {
    seq![
        'a', 'b', 'c', 'd', 'e', 'f', 'g', 'h', 'i', 'j', 'k', 'l', 'm',
        'n', 'o', 'p', 'q', 'r', 's', 't', 'u', 'v', 'w', 'x', 'y', 'z',
    ]
}

/// `w` with the character at `i` dropped, for each `i`.
pub open spec fn deletes(w: Seq<char>) -> Seq<Seq<char>> {
    Seq::new(w.len(), |i: int| w.subrange(0, i) + w.subrange(i + 1, w.len() as int))
}

/// `w` with the characters at `i` and `i + 1` swapped, for each `i`.
pub open spec fn transposes(w: Seq<char>) -> Seq<Seq<char>> {
    Seq::new(
        if w.len() == 0 { 0 } else { (w.len() - 1) as nat },
        |i: int| w.subrange(0, i) + seq![w[i + 1], w[i]] + w.subrange(i + 2, w.len() as int),
    )
}

/// `w` with the character at `k / 26` replaced by letter `k % 26`, for each `k`.
pub open spec fn replaces(w: Seq<char>) -> Seq<Seq<char>> {
    Seq::new(
        26 * w.len(),
        |k: int| w.subrange(0, k / 26) + seq![alphabet()[k % 26]] + w.subrange(
            k / 26 + 1,
            w.len() as int,
        ),
    )
}

/// `w` with letter `k % 26` inserted before position `k / 26`, for each `k`.
pub open spec fn inserts(w: Seq<char>) -> Seq<Seq<char>> {
    Seq::new(
        26 * (w.len() + 1),
        |k: int| w.subrange(0, k / 26) + seq![alphabet()[k % 26]] + w.subrange(
            k / 26,
            w.len() as int,
        ),
    )
}

/// Every string one elementary edit away from `w`, duplicates included:
/// the deletes, then the transposes, the replaces and the inserts.
pub open spec fn single_edits(w: Seq<char>) -> Seq<Seq<char>> {
    deletes(w) + transposes(w) + replaces(w) + inserts(w)
}

/// The single edits of each single edit of `w`, in order.
pub open spec fn double_edits(w: Seq<char>) -> Seq<Seq<char>> {
    single_edits(w).map_values(|e: Seq<char>| single_edits(e)).flatten()
}

/// A word of length `n` has `n` deletes, `n - 1` transposes (none for the
/// empty word), `26 n` replaces and `26 (n + 1)` inserts.
pub proof fn lemma_single_edits_len(w: Seq<char>)
    ensures
        deletes(w).len() == w.len(),
        transposes(w).len() == if w.len() == 0 { 0 } else { w.len() - 1 },
        replaces(w).len() == 26 * w.len(),
        inserts(w).len() == 26 * (w.len() + 1),
        single_edits(w).len() == if w.len() == 0 { 26 } else { 54 * w.len() + 25 },
{
}

} // verus!
