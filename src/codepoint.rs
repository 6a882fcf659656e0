//! Code points with their packed records, and the iterator that resolves them.
use vstd::prelude::*;
use crate::collation_element::{CollationElement, CollationElementValue};
use crate::data::{data_value, resolve, Tables};
use crate::trie::table_slice;
use vstd::std_specs::iter::IteratorSpec;

verus! {

/// Weights are computed (implicit weights).
pub const MARKER_IMPLICIT: u8 = 0;
/// A starter with one weight word.
pub const MARKER_STARTER_SINGLE: u8 = 1;
/// A starter with several weight words in `expansions`.
pub const MARKER_STARTER_EXPANSION: u8 = 2;
/// A starter with a canonical decomposition in `tries`.
pub const MARKER_STARTER_DECOMPOSITION: u8 = 3;
/// A starter that begins a contraction or a many-to-many sequence in `tries`.
pub const MARKER_STARTER_TRIE: u8 = 4;
/// A non-starter with one weight word.
pub const MARKER_NONSTARTER_SINGLE: u8 = 5;
/// A non-starter with a list of nodes in `tries`.
pub const MARKER_NONSTARTER_TRIE: u8 = 6;

/// In place of a combining class: the code point begins a sequence.
pub const MARKER_CCC_SEQUENCE: u8 = 0xFF;
/// In place of a combining class: a precomposed Hangul syllable.
pub const MARKER_CCC_HANGUL: u8 = 0xFE;

/// Kind of a record, in its low three bits.
pub open spec fn record_marker(v: u64) -> u8 {
    (v & 7) as u8
}

/// Weight word of a record with one weight word (bits 4..35).
pub open spec fn record_weights(v: u64) -> u32 {
    (v >> 4) as u32
}

/// Combining class of a record with one weight word (bits 36..43).
pub open spec fn record_ccc(v: u64) -> u8 {
    (v >> 36) as u8
}

/// Position in `expansions` or `tries` (bits 4..19).
pub open spec fn record_pos(v: u64) -> u16 {
    (v >> 4) as u16
}

/// Length of an expansion, or combining class or sentinel of a trie record (bits 20..27).
pub open spec fn record_ccc_or_len(v: u64) -> u8 {
    (v >> 20) as u8
}

/// A starter whose weights come straight from its record.
pub open spec fn starter_marker(v: u64) -> bool {
    record_marker(v) == MARKER_STARTER_SINGLE || record_marker(v) == MARKER_STARTER_EXPANSION
}

/// Weights of a starter with one weight word or an expansion.
pub open spec fn starter_weights(expansions: Seq<u32>, v: u64) -> Seq<u32> {
    if record_marker(v) == MARKER_STARTER_SINGLE {
        seq![record_weights(v)]
    } else {
        table_slice(expansions, record_pos(v) as int, record_ccc_or_len(v) as int)
    }
}

/// Appends `s` to `result`.
pub(crate) fn append_slice(result: &mut Vec<u32>, s: &[u32])
    ensures
        final(result)@ == old(result)@ + s@,
{
    let mut i: usize = 0;
    while i < s.len()
        invariant
            i <= s@.len(),
            result@ == old(result)@ + s@.subrange(0, i as int),
        decreases s@.len() - i,
    {
        result.push(s[i]);
        i = i + 1;
        assert(result@ =~= old(result)@ + s@.subrange(0, i as int));
    }
    assert(s@.subrange(0, i as int) =~= s@);
}

/// A code point and its packed record.
#[derive(Clone, Copy)]
pub struct CodepointWithData {
    pub data: u64,
    pub code: u32,
}

impl CodepointWithData {
    /// Kind of the record.
    pub fn marker(&self) -> (r: u8)
        ensures
            r == record_marker(self.data),
    {
        (self.data & 7) as u8
    }

    /// A starter with one weight word or an expansion.
    pub fn is_starter(&self) -> (r: bool)
        ensures
            r == starter_marker(self.data),
    {
        let marker = self.marker();
        marker == MARKER_STARTER_SINGLE || marker == MARKER_STARTER_EXPANSION
    }

    /// Appends the weights of a starter with one weight word or an expansion.
    pub fn write_starter_weights(&self, result: &mut Vec<u32>, expansions: &[u32])
        requires
            starter_marker(self.data),
        ensures
            final(result)@ == old(result)@ + starter_weights(expansions@, self.data),
    {
        if self.marker() == MARKER_STARTER_SINGLE {
            result.push(self.single_weights());
            assert(final(result)@ =~= old(result)@ + starter_weights(expansions@, self.data));
        } else {
            append_slice(result, self.expansion_weights(expansions));
        }
    }

    /// The weight word of a record with one weight word.
    pub fn single_weights(&self) -> (r: u32)
        ensures
            r == record_weights(self.data),
    {
        (self.data >> 4) as u32
    }

    /// The weights of an expansion, as a slice of `expansions`; none where the table
    /// ends first.
    pub fn expansion_weights<'a>(&self, expansions: &'a [u32]) -> (r: &'a [u32])
        ensures
            r@ == table_slice(
                expansions@,
                record_pos(self.data) as int,
                record_ccc_or_len(self.data) as int,
            ),
    {
        let start = self.data_pos() as usize;
        let end = start + self.ccc_or_len() as usize;
        if end <= expansions.len() {
            crate::trie::slice_range(expansions, start, end)
        } else {
            crate::trie::slice_range(expansions, 0, 0)
        }
    }

    /// Combining class of a record with one weight word.
    pub fn single_weights_ccc(&self) -> (r: u8)
        ensures
            r == record_ccc(self.data),
    {
        (self.data >> 36) as u8
    }

    /// Position in `expansions` or `tries`.
    pub fn data_pos(&self) -> (r: u16)
        ensures
            r == record_pos(self.data),
    {
        (self.data >> 4) as u16
    }

    /// Length of an expansion, or combining class or sentinel of a trie record.
    pub fn ccc_or_len(&self) -> (r: u8)
        ensures
            r == record_ccc_or_len(self.data),
    {
        (self.data >> 20) as u8
    }

    /// The buffered element of a non-starter with one weight word.
    pub fn as_ce_single_weights(&self) -> (r: CollationElement)
        ensures
            r == (CollationElement {
                ccc: record_ccc(self.data),
                code: self.code,
                value: CollationElementValue::SingleWeights(record_weights(self.data)),
            }),
    {
        CollationElement {
            ccc: self.single_weights_ccc(),
            code: self.code,
            value: CollationElementValue::SingleWeights(self.single_weights()),
        }
    }

    /// The buffered element of a starter with a decomposition.
    pub fn as_ce_decomposition(&self) -> (r: CollationElement)
        ensures
            r == (CollationElement {
                ccc: 0,
                code: self.code,
                value: CollationElementValue::Decomposition(record_pos(self.data)),
            }),
    {
        CollationElement {
            ccc: 0,
            code: self.code,
            value: CollationElementValue::Decomposition(self.data_pos()),
        }
    }
}

/// The code points of a string.
pub open spec fn codes_of(s: Seq<char>) -> Seq<u32> {
    s.map_values(|c: char| c as u32)
}

/// The code points of `input`, in order.
pub fn code_points(input: &str) -> (r: Vec<u32>)
    ensures
        r@ == codes_of(input@),
{
    broadcast use vstd::string::group_string_axioms;

    let mut it = input.chars();
    let mut r: Vec<u32> = Vec::new();
    loop
        invariant
            it.obeys_prophetic_iter_laws(),
            r@.len() <= input@.len(),
            it.remaining() == input@.subrange(r@.len() as int, input@.len() as int),
            r@ == codes_of(input@.subrange(0, r@.len() as int)),
        decreases input@.len() - r@.len(),
    {
        match it.next() {
            Some(c) => {
                r.push(c as u32);
                assert(r@ =~= codes_of(input@.subrange(0, r@.len() as int)));
            },
            None => {
                assert(input@.subrange(0, r@.len() as int) =~= input@);
                return r;
            },
        }
    }
}

/// Iterator over the code points of a string, each with its packed record.
pub struct CodepointsIter<'a> {
    pub codes: Vec<u32>,
    /// Index of the next code point.
    pub pos: usize,
    pub scalars64: &'a [u64],
    pub scalars32: &'a [u32],
    pub index: &'a [u16],
    pub continuous_block_end: u32,
}

impl<'a> CodepointsIter<'a> {
    /// The tables that the iterator resolves code points in.
    pub open spec fn tables(&self) -> Tables {
        Tables {
            index: self.index@,
            scalars32: self.scalars32@,
            scalars64: self.scalars64@,
            expansions: Seq::empty(),
            tries: Seq::empty(),
            continuous_block_end: self.continuous_block_end,
        }
    }

    /// Iterator over the code points of `input`, resolved in the given tables.
    pub fn new(
        input: &str,
        scalars64: &'a [u64],
        scalars32: &'a [u32],
        index: &'a [u16],
        continuous_block_end: u32,
    ) -> (r: CodepointsIter<'a>)
        ensures
            r.codes@ == codes_of(input@),
            r.pos == 0,
            r.scalars64 == scalars64,
            r.scalars32 == scalars32,
            r.index == index,
            r.continuous_block_end == continuous_block_end,
    {
        CodepointsIter {
            codes: code_points(input),
            pos: 0,
            scalars64,
            scalars32,
            index,
            continuous_block_end,
        }
    }

    /// The next code point and its record.
    pub fn next(&mut self) -> (r: Option<CodepointWithData>)
        ensures
            final(self).codes == old(self).codes,
            final(self).tables() == old(self).tables(),
            old(self).pos < old(self).codes@.len() ==> {
                &&& r == Some(
                    CodepointWithData {
                        code: old(self).codes@[old(self).pos as int],
                        data: data_value(
                            old(self).tables(),
                            old(self).codes@[old(self).pos as int],
                        ),
                    },
                )
                &&& final(self).pos == old(self).pos + 1
            },
            old(self).pos >= old(self).codes@.len() ==> r is None && final(self).pos
                == old(self).pos,
    {
        if self.pos >= self.codes.len() {
            return None;
        }
        let code = self.codes[self.pos];
        let data = resolve(
            self.index,
            self.scalars64,
            self.scalars32,
            self.continuous_block_end,
            code,
        );
        self.pos = self.pos + 1;
        Some(CodepointWithData { data, code })
    }

    /// The next code point and its record; at the end, `on_none` runs.
    pub fn next_or_else<F: FnOnce()>(&mut self, on_none: F) -> (r: Option<CodepointWithData>)
        requires
            call_requires(on_none, ()),
        ensures
            final(self).codes == old(self).codes,
            final(self).tables() == old(self).tables(),
            old(self).pos < old(self).codes@.len() ==> {
                &&& r == Some(
                    CodepointWithData {
                        code: old(self).codes@[old(self).pos as int],
                        data: data_value(
                            old(self).tables(),
                            old(self).codes@[old(self).pos as int],
                        ),
                    },
                )
                &&& final(self).pos == old(self).pos + 1
            },
            old(self).pos >= old(self).codes@.len() ==> r is None && final(self).pos
                == old(self).pos,
    {
        match self.next() {
            None => {
                on_none();
                None
            },
            value => value,
        }
    }
}

} // verus!
