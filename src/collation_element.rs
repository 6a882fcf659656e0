//! Collation elements held in the buffer while non-starters are gathered.
use vstd::prelude::*;

verus! {

/// What a buffered element stands for.
#[derive(Clone, Copy)]
pub enum CollationElementValue {
    /// One packed weight word.
    SingleWeights(u32),
    /// A starter with a canonical decomposition: the trie node at this position.
    Decomposition(u16),
    /// A trie node that may still combine with the non-starters that follow.
    Trie(u16),
    /// `len` packed weight words of the tries table, from `pos` on.
    TrieWeights(u32, u8),
}

/// A buffered element: canonical combining class, code point, value.
#[derive(Clone, Copy)]
pub struct CollationElement {
    pub ccc: u8,
    pub code: u32,
    pub value: CollationElementValue,
}

impl CollationElement {
    /// A starter has combining class 0.
    pub fn is_starter(&self) -> (r: bool)
        ensures
            r == (self.ccc == 0),
    {
        self.ccc == 0
    }
}

} // verus!
