//! The tries table: nodes of contractions, many-to-many sequences and decompositions,
//! stored as a flat sequence of 32-bit words.
//!
//! A node word holds `has_children` in bit 0, `is_last_sibling` in bit 1, the combining
//! class in bits 2..7, the code point in bits 8..25 and the number of weight words that
//! follow it in bits 26..31. The children of a node follow its weights.
use vstd::prelude::*;
use crate::collation_element::{CollationElement, CollationElementValue};

verus! {

/// Code point of a node word.
pub open spec fn node_code(v: u32) -> u32 {
    (v >> 8) & 0x3FFFF
}

/// Canonical combining class of a node word.
pub open spec fn node_ccc(v: u32) -> u8 {
    ((v >> 2) & 0x3F) as u8
}

/// The node has a subtrie of children.
pub open spec fn node_has_children(v: u32) -> bool {
    v & 1 != 0
}

/// The node closes its list of siblings.
pub open spec fn node_is_last(v: u32) -> bool {
    v & 2 != 0
}

/// Number of weight words after a node word.
pub open spec fn node_weights_len(v: u32) -> u8 {
    (v >> 26) as u8
}

/// Position right after the node at `p` and its weights: its first child, if any.
pub open spec fn after_node(t: Seq<u32>, p: int) -> int {
    p + 1 + node_weights_len(t[p])
}

/// The weights of the node at `p`; none where the table ends before them.
pub open spec fn node_weights_at(t: Seq<u32>, p: int) -> Seq<u32> {
    if 0 <= p < t.len() && after_node(t, p) <= t.len() {
        t.subrange(p + 1, after_node(t, p))
    } else {
        Seq::empty()
    }
}

/// `len` words of the table from `p` on; none where the table ends before them.
pub open spec fn table_slice(t: Seq<u32>, p: int, len: int) -> Seq<u32> {
    if 0 <= p && 0 <= len && p + len <= t.len() {
        t.subrange(p, p + len)
    } else {
        Seq::empty()
    }
}

/// Reading the table from the node at `p`, with `level` lists of siblings still open:
/// how many words past the end of that node the next sibling at level zero starts.
/// `None` where the table ends first.
pub open spec fn skip_extra(t: Seq<u32>, p: int, level: nat) -> Option<nat>
    decreases t.len() - p,
{
    if 0 <= p < t.len() {
        let v = t[p];
        let l: nat = if node_has_children(v) {
            level + 1
        } else {
            level
        };
        let w = node_weights_len(v) as nat;
        let q = p + 1 + w;
        if q >= t.len() {
            None
        } else if l == 0 {
            Some(w)
        } else {
            let l2: nat = if node_is_last(t[q]) {
                (l - 1) as nat
            } else {
                l
            };
            match skip_extra(t, q, l2) {
                Some(e) => Some(w + 1 + e),
                None => None,
            }
        }
    } else {
        None
    }
}

/// The node that an iterator at `cursor` hands out next: the node at the cursor itself
/// when nothing has been handed out yet, else the next sibling of the node there.
pub open spec fn iter_next(t: Seq<u32>, cursor: int, first: bool) -> Option<int> {
    if !(0 <= cursor < t.len()) {
        None
    } else if first {
        Some(cursor)
    } else if node_is_last(t[cursor]) {
        None
    } else {
        match skip_extra(t, cursor, 0) {
            Some(e) => Some(cursor + 1 + e),
            None => None,
        }
    }
}

/// A measure that every step of an iterator decreases.
pub open spec fn iter_measure(t: Seq<u32>, cursor: int, first: bool) -> nat {
    if 0 <= cursor < t.len() {
        (2 * (t.len() - cursor) + if first {
            1int
        } else {
            0
        }) as nat
    } else {
        0
    }
}

/// Positions of the siblings that an iterator at `cursor` still hands out, in order.
pub open spec fn siblings(t: Seq<u32>, cursor: int, first: bool) -> Seq<int>
    decreases iter_measure(t, cursor, first),
{
    match iter_next(t, cursor, first) {
        Some(q) => seq![q] + siblings(t, q, false),
        None => Seq::empty(),
    }
}

/// Skipping ends inside the table.
pub proof fn lemma_skip_in_table(t: Seq<u32>, p: int, level: nat)
    ensures
        skip_extra(t, p, level) matches Some(e) ==> p + 1 + e < t.len(),
    decreases t.len() - p,
{
    if 0 <= p < t.len() {
        let v = t[p];
        let l: nat = if node_has_children(v) {
            level + 1
        } else {
            level
        };
        let q = p + 1 + node_weights_len(v);
        if q < t.len() && l != 0 {
            let l2: nat = if node_is_last(t[q]) {
                (l - 1) as nat
            } else {
                l
            };
            lemma_skip_in_table(t, q, l2);
        }
    }
}

/// Every position that an iterator hands out is inside the table.
pub proof fn lemma_iter_next_in_table(t: Seq<u32>, cursor: int, first: bool)
    ensures
        iter_next(t, cursor, first) matches Some(q) ==> 0 <= q < t.len(),
{
    if 0 <= cursor < t.len() && !first {
        lemma_skip_in_table(t, cursor, 0);
    }
}

/// A node of the tries table: its word and its position.
#[derive(Clone, Copy)]
pub struct TrieNode {
    pub value: u32,
    pub pos: u16,
}

impl TrieNode {
    /// The node whose word is `value`, at `pos`.
    pub fn new(value: u32, pos: u16) -> (r: TrieNode)
        ensures
            r.value == value,
            r.pos == pos,
    {
        TrieNode { value, pos }
    }

    /// The node whose word is `value`, at `pos`.
    pub fn from_value(value: u32, pos: u16) -> (r: TrieNode)
        ensures
            r.value == value,
            r.pos == pos,
    {
        TrieNode { value, pos }
    }

    /// The node at `pos` of the table `source`.
    pub fn from_slice(source: &[u32], pos: u16) -> (r: TrieNode)
        requires
            pos < source@.len(),
        ensures
            r.value == source@[pos as int],
            r.pos == pos,
    {
        TrieNode { value: source[pos as usize], pos }
    }

    /// The node at `pos` of the table `source`.
    pub fn from(source: &[u32], pos: u16) -> (r: TrieNode)
        requires
            pos < source@.len(),
        ensures
            r.value == source@[pos as int],
            r.pos == pos,
    {
        TrieNode { value: source[pos as usize], pos }
    }

    /// Code point.
    pub fn code(&self) -> (r: u32)
        ensures
            r == node_code(self.value),
    {
        (self.value >> 8) & 0x3FFFF
    }

    /// Canonical combining class.
    pub fn ccc(&self) -> (r: u8)
        ensures
            r == node_ccc(self.value),
    {
        ((self.value >> 2) & 0x3F) as u8
    }

    /// A starter has combining class 0.
    pub fn is_starter(&self) -> (r: bool)
        ensures
            r == (node_ccc(self.value) == 0),
    {
        self.ccc() == 0
    }

    /// Position in the table.
    pub fn pos(&self) -> (r: u16)
        ensures
            r == self.pos,
    {
        self.pos
    }

    /// The node has children.
    pub fn has_children(&self) -> (r: bool)
        ensures
            r == node_has_children(self.value),
    {
        self.value & 1 != 0
    }

    /// Number of weight words after the node word.
    pub fn weights_len(&self) -> (r: u8)
        ensures
            r == node_weights_len(self.value),
    {
        (self.value >> 26) as u8
    }

    /// Position of the first weight word.
    pub fn weights_offset(&self) -> (r: u32)
        ensures
            r == self.pos + 1,
    {
        self.pos as u32 + 1
    }

    /// Position of the first weight word.
    pub fn weights_pos(&self) -> (r: u32)
        ensures
            r == self.pos + 1,
    {
        self.pos as u32 + 1
    }

    /// Position right after the node and its weights, where its children start.
    pub fn next_offset(&self) -> (r: u32)
        ensures
            r == self.pos + 1 + node_weights_len(self.value),
    {
        self.pos as u32 + 1 + self.weights_len() as u32
    }

    /// Position right after the node and its weights, where its children start.
    pub fn next_pos(&self) -> (r: u32)
        ensures
            r == self.pos + 1 + node_weights_len(self.value),
    {
        self.next_offset()
    }

    /// The node's weights, as a slice of `from`.
    pub fn weights<'a>(&self, from: &'a [u32]) -> (r: &'a [u32])
        requires
            self.pos + 1 + node_weights_len(self.value) <= from@.len(),
        ensures
            r@ == from@.subrange(self.pos + 1, self.pos + 1 + node_weights_len(self.value)),
    {
        let start = self.pos as usize + 1;
        slice_range(from, start, start + self.weights_len() as usize)
    }

    /// The element that writes the node's weights.
    pub fn as_ce_weights(&self) -> (r: CollationElement)
        ensures
            r == node_element(self.value, self.pos as int),
    {
        CollationElement {
            ccc: self.ccc(),
            code: self.code(),
            value: CollationElementValue::TrieWeights(self.weights_pos(), self.weights_len()),
        }
    }

    /// The element of a node that may combine with the non-starters that follow.
    pub fn as_ce_trie(&self) -> (r: CollationElement)
        ensures
            r == (CollationElement {
                ccc: node_ccc(self.value),
                code: node_code(self.value),
                value: CollationElementValue::Trie(self.pos),
            }),
    {
        CollationElement {
            ccc: self.ccc(),
            code: self.code(),
            value: CollationElementValue::Trie(self.pos),
        }
    }

    /// The element of an inner node of a sequence, buffered as a starter.
    pub fn as_ce_trie_node(&self) -> (r: CollationElement)
        ensures
            r == (CollationElement {
                ccc: 0,
                code: node_code(self.value),
                value: CollationElementValue::Trie(self.pos),
            }),
    {
        CollationElement { ccc: 0, code: self.code(), value: CollationElementValue::Trie(self.pos) }
    }
}

/// Iterator over a list of sibling nodes, skipping the subtries between them.
pub struct TrieIter<'a> {
    pub source: &'a [u32],
    /// Position of the node handed out last, or of the first one while `is_first`.
    pub cursor: usize,
    /// Nothing has been handed out yet.
    pub is_first: bool,
}

impl<'a> TrieIter<'a> {
    /// Iterator over the list of siblings that starts at `offset`.
    pub fn new(source: &'a [u32], offset: usize) -> (r: TrieIter<'a>)
        ensures
            r.source == source,
            r.cursor == offset,
            r.is_first,
    {
        TrieIter { source, cursor: offset, is_first: true }
    }

    /// The next sibling, if any.
    pub fn next(&mut self) -> (r: Option<TrieNode>)
        requires
            old(self).source@.len() <= 0x10000,
        ensures
            final(self).source == old(self).source,
            match iter_next(old(self).source@, old(self).cursor as int, old(self).is_first) {
                Some(q) => {
                    &&& r == Some(TrieNode { value: old(self).source@[q], pos: q as u16 })
                    &&& 0 <= q < old(self).source@.len()
                    &&& final(self).cursor == q
                    &&& !final(self).is_first
                },
                None => r is None && *final(self) == *old(self),
            },
    {
        let len = self.source.len();
        if self.cursor >= len {
            return None;
        }
        if self.is_first {
            self.is_first = false;
            let node = self.current_node();
            return Some(node);
        }
        if self.source[self.cursor] & 2 != 0 {
            return None;
        }
        match self.skip_to_next() {
            Some(q) => {
                self.cursor = q;
                let node = self.current_node();
                Some(node)
            },
            None => None,
        }
    }

    /// The next sibling, if any; at the end, `on_none` runs.
    pub fn next_or_else<F: FnOnce()>(&mut self, on_none: F) -> (r: Option<TrieNode>)
        requires
            old(self).source@.len() <= 0x10000,
            call_requires(on_none, ()),
        ensures
            final(self).source == old(self).source,
            match iter_next(old(self).source@, old(self).cursor as int, old(self).is_first) {
                Some(q) => {
                    &&& r == Some(TrieNode { value: old(self).source@[q], pos: q as u16 })
                    &&& 0 <= q < old(self).source@.len()
                    &&& final(self).cursor == q
                    &&& !final(self).is_first
                },
                None => r is None && *final(self) == *old(self),
            },
    {
        match self.next() {
            None => {
                on_none();
                None
            },
            value => value,
        }
    }

    /// Position of the next sibling of the node at the cursor.
    fn skip_to_next(&self) -> (r: Option<usize>)
        requires
            self.cursor < self.source@.len() <= 0x10000,
        ensures
            r matches Some(q) ==> q < self.source@.len(),
            match skip_extra(self.source@, self.cursor as int, 0) {
                Some(e) => r matches Some(q) && q == self.cursor + 1 + e,
                None => r is None,
            },
    {
        let t = self.source;
        let len = t.len();
        let mut p = self.cursor;
        let mut level: usize = 0;
        loop
            invariant
                len == t@.len() <= 0x10000,
                t == self.source,
                self.cursor <= p < len,
                level <= p - self.cursor,
                match skip_extra(t@, self.cursor as int, 0) {
                    Some(e) => match skip_extra(t@, p as int, level as nat) {
                        Some(e2) => self.cursor + 1 + e == p + 1 + e2,
                        None => false,
                    },
                    None => skip_extra(t@, p as int, level as nat) is None,
                },
            decreases len - p,
        {
            let v = t[p];
            assert((v >> 26) <= 63) by (bit_vector);
            if v & 1 != 0 {
                level = level + 1;
            }
            let q = p + 1 + (v >> 26) as usize;
            if q >= len {
                return None;
            }
            if level == 0 {
                return Some(q);
            }
            if t[q] & 2 != 0 {
                level = level - 1;
            }
            p = q;
        }
    }

    /// The node at the cursor.
    pub fn current_node(&self) -> (r: TrieNode)
        requires
            self.cursor < self.source@.len() <= 0x10000,
        ensures
            r == (TrieNode { value: self.source@[self.cursor as int], pos: self.cursor as u16 }),
    {
        TrieNode { value: self.source[self.cursor], pos: self.cursor as u16 }
    }
}

/// The element that writes the weights of the node word `v` at `p`.
pub open spec fn node_element(v: u32, p: int) -> CollationElement {
    CollationElement {
        ccc: node_ccc(v),
        code: node_code(v),
        value: CollationElementValue::TrieWeights((p + 1) as u32, node_weights_len(v)),
    }
}

/// `s[start..end]`.
pub(crate) fn slice_range<'a>(s: &'a [u32], start: usize, end: usize) -> (r: &'a [u32])
    requires
        start <= end <= s@.len(),
    ensures
        r@ == s@.subrange(start as int, end as int),
{
    &s[start..end]
}

} // verus!
