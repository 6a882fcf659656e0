//! Sort keys for the Unicode Collation Algorithm over packed CLDR weight tables.
//!
//! A string's code points are resolved to packed records through a two-tier index; the
//! engine turns them into a stream of 32-bit weight words, applying expansions,
//! contractions, decompositions and canonical reordering on the way; the key composer
//! splits that stream by level into the final key.
use vstd::prelude::*;

pub mod codepoint;
pub mod collation_element;
pub mod data;
pub mod engine;
pub mod hangul;
pub mod implicit;
pub mod key;
pub mod laws;
pub mod model;
pub mod options;
pub mod trie;
pub mod weights;

use crate::data::{Tables, WeightsData};

verus! {

/// A collator over borrowed tables of weights. It never changes after construction.
pub struct Collator<'a> {
    /// Records of code points with one weight word.
    pub scalars64: &'a [u64],
    /// Records of code points that refer into `expansions` or `tries`.
    pub scalars32: &'a [u32],
    /// Two-tier index of 16-bit cells.
    pub index: &'a [u16],
    /// Weight words of starter expansions.
    pub expansions: &'a [u32],
    /// Contractions, many-to-many sequences and decompositions.
    pub tries: &'a [u32],
    /// The blocks of the code points up to this one lie in order from cell 0x600 on.
    pub continuous_block_end: u32,
}

impl<'a> View for Collator<'a> {
    type V = Tables;

    open spec fn view(&self) -> Tables {
        Tables {
            index: self.index@,
            scalars32: self.scalars32@,
            scalars64: self.scalars64@,
            expansions: self.expansions@,
            tries: self.tries@,
            continuous_block_end: self.continuous_block_end,
        }
    }
}

impl<'a> Collator<'a> {
    /// The tries table is addressed by 16-bit positions.
    pub open spec fn wf(&self) -> bool {
        self@.tries.len() <= 0x10000
    }

    /// A collator over the given tables.
    pub fn from_baked(weights_data: WeightsData<'a>) -> (r: Collator<'a>)
        requires
            weights_data.tries@.len() <= 0x10000,
        ensures
            r@ == weights_data@,
            r.wf(),
    {
        Collator {
            scalars64: weights_data.scalars64,
            scalars32: weights_data.scalars32,
            index: weights_data.index,
            expansions: weights_data.expansions,
            tries: weights_data.tries,
            continuous_block_end: weights_data.continuous_block_end,
        }
    }
}

} // verus!
