//! A statistical spelling corrector.
//!
//! A [`SpellChecker`] counts the words of a corpus and corrects a query word
//! to the most frequent known word within two elementary edits of it.
use vstd::prelude::*;

pub mod checker;
pub mod edits;
pub mod theorems;
pub mod text;

pub use checker::SpellChecker;
pub use text::tokenize;

verus! {

} // verus!
