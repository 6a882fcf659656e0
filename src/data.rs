//! The five tables of precomputed weights, and the resolver from a code point to its
//! packed record.
use vstd::prelude::*;

verus! {

/// Highest block of 128 code points with tabular data (the block of U+2FA1D).
pub const LAST_CODEPOINT_BLOCK: u32 = 0x5F4;
/// First block of the tag and variation-selector region U+E0000..U+E0200.
pub const IGNORABLES_BLOCKS_START: u32 = 0x1C00;
/// End (exclusive) of the blocks of that region.
pub const IGNORABLES_BLOCKS_END: u32 = 0x1C04;
/// The region's first-tier cells are stored this many cells lower.
pub const IGNORABLES_SHIFT: u32 = 0x160B;

/// Borrowed tables of weights.
pub struct WeightsData<'a> {
    /// Two-tier index of 16-bit cells.
    pub index: &'a [u16],
    /// Records of code points that refer into `expansions` or `tries`.
    pub scalars32: &'a [u32],
    /// Records of code points with one weight word.
    pub scalars64: &'a [u64],
    /// Weight words of starter expansions.
    pub expansions: &'a [u32],
    /// Contractions, many-to-many sequences and decompositions.
    pub tries: &'a [u32],
    /// The blocks of the code points up to this one lie in order from cell 0x600 on.
    pub continuous_block_end: u32,
}

/// The tables as mathematical sequences.
pub struct Tables {
    pub index: Seq<u16>,
    pub scalars32: Seq<u32>,
    pub scalars64: Seq<u64>,
    pub expansions: Seq<u32>,
    pub tries: Seq<u32>,
    pub continuous_block_end: u32,
}

impl<'a> View for WeightsData<'a> {
    type V = Tables;

    open spec fn view(&self) -> Tables {
        Tables {
            index: self.index@,
            scalars32: self.scalars32@,
            scalars64: self.scalars64@,
            expansions: self.expansions@,
            tries: self.tries@,
            continuous_block_end: self.continuous_block_end,
        }
    }
}

/// Cell `i` of the index, if there is one.
pub open spec fn index_cell(index: Seq<u16>, i: int) -> Option<u16> {
    if 0 <= i < index.len() {
        Some(index[i])
    } else {
        None
    }
}

/// Cell of the index where the data block of `code` starts; `None` for the code points
/// past the last block with tabular data (but for the tag region) and where the index
/// ends first.
pub open spec fn block_base(d: Tables, code: u32) -> Option<u16> {
    if code <= d.continuous_block_end {
        Some((0x600 | ((code >> 3) & 0xFFF0)) as u16)
    } else {
        let g = code >> 7;
        if g > LAST_CODEPOINT_BLOCK {
            if IGNORABLES_BLOCKS_START <= g < IGNORABLES_BLOCKS_END {
                index_cell(d.index, g - IGNORABLES_SHIFT)
            } else {
                None
            }
        } else {
            index_cell(d.index, g as int)
        }
    }
}

/// The packed record of `code`: from `scalars64` where the index cell is odd, else from
/// `scalars32` widened; 0 (implicit weights) where the tables hold nothing for it.
pub open spec fn data_value(d: Tables, code: u32) -> u64 {
    match block_base(d, code) {
        None => 0,
        Some(base) => {
            let off = (code & 0x7F) as u16;
            match index_cell(d.index, (base | (off >> 3u16)) as int) {
                None => 0,
                Some(cell) => {
                    let di = ((cell >> 1u16) | (off & 7u16)) as int;
                    if cell & 1 != 0 {
                        if di < d.scalars64.len() {
                            d.scalars64[di]
                        } else {
                            0
                        }
                    } else {
                        if di < d.scalars32.len() {
                            d.scalars32[di] as u64
                        } else {
                            0
                        }
                    }
                },
            }
        },
    }
}

/// The packed record of `code` in the given tables.
pub fn resolve(
    index: &[u16],
    scalars64: &[u64],
    scalars32: &[u32],
    continuous_block_end: u32,
    code: u32,
) -> (r: u64)
    ensures
        r == data_value(
            Tables {
                index: index@,
                scalars32: scalars32@,
                scalars64: scalars64@,
                expansions: Seq::empty(),
                tries: Seq::empty(),
                continuous_block_end,
            },
            code,
        ),
{
    let base: u16 = if code <= continuous_block_end {
        (0x600 | ((code >> 3) & 0xFFF0)) as u16
    } else {
        let g = code >> 7;
        let mut group = g;
        if g > LAST_CODEPOINT_BLOCK {
            if IGNORABLES_BLOCKS_START <= g && g < IGNORABLES_BLOCKS_END {
                group = g - IGNORABLES_SHIFT;
            } else {
                return 0;
            }
        }
        if group as usize >= index.len() {
            return 0;
        }
        index[group as usize]
    };
    let off = (code & 0x7F) as u16;
    let block_index = base | (off >> 3u16);
    if block_index as usize >= index.len() {
        return 0;
    }
    let cell = index[block_index as usize];
    let di = ((cell >> 1u16) | (off & 7u16)) as usize;
    if cell & 1 != 0 {
        if di < scalars64.len() {
            scalars64[di]
        } else {
            0
        }
    } else {
        if di < scalars32.len() {
            scalars32[di] as u64
        } else {
            0
        }
    }
}

} // verus!
