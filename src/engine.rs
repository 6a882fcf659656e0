//! The weighting engine: from code points to a stream of packed weight words.
use vstd::prelude::*;
use crate::codepoint::{
    append_slice, code_points, codes_of, record_ccc_or_len, record_marker, record_pos,
    starter_marker, starter_weights, MARKER_CCC_HANGUL, MARKER_CCC_SEQUENCE,
    MARKER_NONSTARTER_SINGLE, MARKER_NONSTARTER_TRIE, MARKER_STARTER_DECOMPOSITION,
    MARKER_STARTER_EXPANSION, MARKER_STARTER_SINGLE, MARKER_STARTER_TRIE,
};
use crate::collation_element::{CollationElement, CollationElementValue};
use crate::data::{data_value, resolve};
use crate::hangul::{hangul_syllable, write_hangul_syllable, HANGUL_S_BASE, HANGUL_S_COUNT};
use crate::implicit::implicit_weights;
use crate::key::{compose_key, is_key_of, Key};
use crate::options::CollatorOptions;
use crate::model::{
    advance, ce_weights, decomposed, flat, flush_out, has_children_at, lemma_advance,
    lemma_insert_by_ccc, lemma_ns_loop_len, lemma_write_buf_prefix, ns_loop, ns_match, push_nodes,
    run, sort_by_ccc, starters_loop, starters_seq, starts_with_sequence, trie_element, weights_of,
    write_buf,
};
use crate::trie::{
    after_node, iter_measure, iter_next, node_element, node_weights_at, siblings, slice_range,
    table_slice,
    TrieIter, TrieNode,
};
use crate::Collator;

verus! {

/// Position and length, or position and combining class, of a reference record.
pub fn parse_expansion_or_trie_info(data_value: u64) -> (r: (u16, u8))
    ensures
        r == (record_pos(data_value), record_ccc_or_len(data_value)),
{
    ((data_value >> 4) as u16, (data_value >> 20) as u8)
}

/// A starter whose weights come straight from its record.
pub fn is_starter_marker(marker: u8) -> (r: bool)
    ensures
        r == (marker == MARKER_STARTER_SINGLE || marker == MARKER_STARTER_EXPANSION),
{
    marker == MARKER_STARTER_SINGLE || marker == MARKER_STARTER_EXPANSION
}

/// Sorts `buffer` stably by combining class.
pub fn sort_by_ccc_in_place(buffer: &mut Vec<CollationElement>)
    ensures
        final(buffer)@ == sort_by_ccc(old(buffer)@),
{
    let mut sorted: Vec<CollationElement> = Vec::new();
    let mut k: usize = 0;
    while k < buffer.len()
        invariant
            k <= buffer@.len(),
            buffer@ == old(buffer)@,
            sorted@ == sort_by_ccc(buffer@.subrange(0, k as int)),
        decreases buffer@.len() - k,
    {
        let x = buffer[k];
        let mut p = sorted.len();
        while p > 0 && sorted[p - 1].ccc > x.ccc
            invariant
                p <= sorted@.len(),
                forall|m: int| p <= m < sorted@.len() ==> sorted@[m].ccc > x.ccc,
            decreases p,
        {
            p = p - 1;
        }
        proof {
            lemma_insert_by_ccc(sorted@, x, p as int);
            assert(buffer@.subrange(0, k + 1).drop_last() =~= buffer@.subrange(0, k as int));
        }
        sorted.insert(p, x);
        k = k + 1;
    }
    assert(buffer@.subrange(0, k as int) =~= buffer@);
    *buffer = sorted;
}

impl<'a> Collator<'a> {
    /// The packed record of `code`.
    pub fn get_data_value(&self, code: u32) -> (r: u64)
        ensures
            r == data_value(self@, code),
    {
        resolve(self.index, self.scalars64, self.scalars32, self.continuous_block_end, code)
    }

    /// Appends the weights of a trie node.
    pub fn write_node_weights(&self, node: TrieNode, result: &mut Vec<u32>)
        requires
            self.wf(),
            node.pos < self@.tries.len(),
            node.value == self@.tries[node.pos as int],
        ensures
            final(result)@ == old(result)@ + node_weights_at(self@.tries, node.pos as int),
    {
        let start = node.pos as usize + 1;
        let end = start + node.weights_len() as usize;
        if end <= self.tries.len() {
            append_slice(result, slice_range(self.tries, start, end));
        } else {
            assert(node_weights_at(self@.tries, node.pos as int) =~= Seq::empty());
            assert(old(result)@ + Seq::<u32>::empty() =~= old(result)@);
        }
    }

    /// The weights of a starter expansion, as a slice of the expansions table.
    pub fn get_starter_expansion_weights_slice(&self, data_value: u64) -> (r: &'a [u32])
        ensures
            r@ == table_slice(
                self@.expansions,
                record_pos(data_value) as int,
                record_ccc_or_len(data_value) as int,
            ),
    {
        let (pos, len) = parse_expansion_or_trie_info(data_value);
        let start = pos as usize;
        let end = start + len as usize;
        if end <= self.expansions.len() {
            slice_range(self.expansions, start, end)
        } else {
            slice_range(self.expansions, 0, 0)
        }
    }

    /// Appends the weights of a starter with one weight word or an expansion.
    pub fn write_starter(&self, data_value: u64, result: &mut Vec<u32>)
        requires
            starter_marker(data_value),
        ensures
            final(result)@ == old(result)@ + starter_weights(self@.expansions, data_value),
    {
        if (data_value & 7) as u8 == MARKER_STARTER_SINGLE {
            result.push((data_value >> 4) as u32);
            assert(final(result)@ =~= old(result)@ + starter_weights(self@.expansions, data_value));
        } else {
            append_slice(result, self.get_starter_expansion_weights_slice(data_value));
        }
    }

    /// Appends the weights of one buffered element.
    fn write_element(&self, ce: CollationElement, result: &mut Vec<u32>)
        requires
            self.wf(),
        ensures
            final(result)@ == old(result)@ + ce_weights(self@.tries, ce),
    {
        match ce.value {
            CollationElementValue::SingleWeights(w) => {
                result.push(w);
                assert(final(result)@ =~= old(result)@ + ce_weights(self@.tries, ce));
            },
            CollationElementValue::Decomposition(p) | CollationElementValue::Trie(p) => {
                if (p as usize) < self.tries.len() {
                    self.write_node_weights(TrieNode::from_slice(self.tries, p), result);
                } else {
                    assert(final(result)@ =~= old(result)@ + ce_weights(self@.tries, ce));
                }
            },
            CollationElementValue::TrieWeights(p, n) => {
                let start = p as usize;
                if start <= self.tries.len() && n as usize <= self.tries.len() - start {
                    append_slice(result, slice_range(self.tries, start, start + n as usize));
                } else {
                    assert(final(result)@ =~= old(result)@ + ce_weights(self@.tries, ce));
                }
            },
        }
    }
}


impl<'a> Collator<'a> {
    /// Takes apart a buffer that starts with a starter with a decomposition, or with a
    /// trie node: returns the starter's node, and leaves in the buffer the non-starters
    /// (the decomposition's, then the others) stably sorted by combining class.
    pub fn decompose(&self, buffer: &mut Vec<CollationElement>) -> (r: Option<TrieNode>)
        requires
            self.wf(),
            starts_with_sequence(old(buffer)@),
        ensures
            final(buffer)@ == decomposed(self@.tries, old(buffer)@).1,
            match decomposed(self@.tries, old(buffer)@).0 {
                Some(s) => r matches Some(n) && n.pos == s && s < self@.tries.len() && n.value
                    == self@.tries[s],
                None => r is None,
            },
    {
        let ghost t = self@.tries;
        let len = self.tries.len();
        match buffer[0].value {
            CollationElementValue::Trie(p) => {
                buffer.remove(0);
                assert(buffer@ =~= old(buffer)@.drop_first());
                sort_by_ccc_in_place(buffer);
                if (p as usize) < len {
                    Some(TrieNode::from_slice(self.tries, p))
                } else {
                    None
                }
            },
            CollationElementValue::Decomposition(p) => {
                let ghost ch = if (p as int) < t.len() {
                    siblings(t, after_node(t, p as int), true)
                } else {
                    Seq::empty()
                };
                let mut items: Vec<CollationElement> = Vec::new();
                let mut starter: Option<TrieNode> = None;
                if (p as usize) < len {
                    let head = TrieNode::from_slice(self.tries, p);
                    let mut it = TrieIter::new(self.tries, head.next_offset() as usize);
                    let ghost c0 = it.cursor as int;
                    match it.next() {
                        None => {
                            assert(siblings(t, c0, true) =~= Seq::<int>::empty());
                        },
                        Some(s) => {
                            assert(
                                siblings(t, c0, true)
                                    =~= seq![s.pos as int] + siblings(t, s.pos as int, false)
                            );
                            starter = Some(s);
                            let ghost mut seen: Seq<int> = seq![s.pos as int];
                            loop
                                invariant
                                    it.source == self.tries,
                                    it.source@ == t,
                                    len == t.len() <= 0x10000,
                                    ch == seen + siblings(t, it.cursor as int, it.is_first),
                                    seen.len() >= 1,
                                    seen[0] == s.pos as int,
                                    items@ == seen.drop_first().map_values(
                                        |q: int| node_element(t[q], q),
                                    ),
                                ensures
                                    ch == seen,
                                    seen.len() >= 1,
                                    seen[0] == s.pos as int,
                                    items@ == seen.drop_first().map_values(
                                        |q: int| node_element(t[q], q),
                                    ),
                                decreases iter_measure(t, it.cursor as int, it.is_first),
                            {
                                let ghost c = it.cursor as int;
                                let ghost f = it.is_first;
                                match it.next() {
                                    Some(n) => {
                                        proof {
                                            let q = n.pos as int;
                                            assert(
                                                siblings(t, c, f)
                                                    =~= seq![q] + siblings(t, q, false)
                                            );
                                            assert(
                                                seen + (seq![q] + siblings(t, q, false))
                                                    =~= seen.push(q) + siblings(t, q, false)
                                            );
                                            assert(
                                                seen.push(q).drop_first()
                                                    =~= seen.drop_first().push(q)
                                            );
                                            seen = seen.push(q);
                                        }
                                        items.push(n.as_ce_weights());
                                        assert(items@ =~= seen.drop_first().map_values(
                                            |q: int| node_element(t[q], q),
                                        ));
                                    },
                                    None => {
                                        assert(siblings(t, c, f) =~= Seq::<int>::empty());
                                        assert(ch =~= seen);
                                        break;
                                    },
                                }
                            }
                        },
                    }
                }
                assert(starter is None ==> ch.len() == 0 && items@.len() == 0);
                assert(
                    starter matches Some(s)
                        ==> ch.len() > 0 && ch[0] == s.pos && items@ == ch.drop_first().map_values(
                        |q: int| node_element(t[q], q),
                    )
                );
                let ghost decomposition = items@;
                let mut k: usize = 1;
                while k < buffer.len()
                    invariant
                        1 <= k <= buffer@.len(),
                        buffer@ == old(buffer)@,
                        items@ == decomposition + buffer@.subrange(1, k as int),
                    decreases buffer@.len() - k,
                {
                    items.push(buffer[k]);
                    k = k + 1;
                    assert(items@ =~= decomposition + buffer@.subrange(1, k as int));
                }
                assert(buffer@.subrange(1, k as int) =~= buffer@.drop_first());
                sort_by_ccc_in_place(&mut items);
                *buffer = items;
                starter
            },
            _ => {
                assert(false);
                None
            },
        }
    }
}


impl<'a> Collator<'a> {
    /// Matches the non-starters of the buffer from `index` on against the children of
    /// `node`, taking matched elements out; returns the deepest matched node.
    fn nonstarters_match(
        &self,
        node: TrieNode,
        buffer: &mut Vec<CollationElement>,
        index: usize,
    ) -> (r: TrieNode)
        requires
            self.wf(),
            node.pos < self@.tries.len(),
            node.value == self@.tries[node.pos as int],
        ensures
            (r.pos as int, final(buffer)@) == ns_match(
                self@.tries,
                node.pos as int,
                old(buffer)@,
                index as int,
            ),
            r.pos < self@.tries.len(),
            r.value == self@.tries[r.pos as int],
            final(buffer)@.len() <= old(buffer)@.len(),
            index <= old(buffer)@.len() ==> index <= final(buffer)@.len(),
    {
        let ghost t = self@.tries;
        proof {
            let p = node.pos as int;
            lemma_ns_loop_len(t, p, after_node(t, p), true, buffer@, index as int);
        }
        let ghost node0 = node.pos as int;
        let ghost index0 = index as int;
        let mut cur = node;
        let mut it = TrieIter::new(self.tries, cur.next_offset() as usize);
        let mut at = index;
        loop
            invariant
                self.wf(),
                it.source == self.tries,
                it.source@ == t,
                t == self@.tries,
                cur.pos < t.len(),
                cur.value == t[cur.pos as int],
                node0 == node.pos as int,
                index0 == index as int,
                ns_match(t, node0, old(buffer)@, index0).1.len() <= old(buffer)@.len(),
                index0 <= old(buffer)@.len() ==> index0 <= ns_match(
                    t,
                    node0,
                    old(buffer)@,
                    index0,
                ).1.len(),
                ns_loop(t, cur.pos as int, it.cursor as int, it.is_first, buffer@, at as int)
                    == ns_match(t, node0, old(buffer)@, index0),
            decreases iter_measure(t, it.cursor as int, it.is_first),
        {
            if at >= buffer.len() {
                assert(
                    ns_loop(t, cur.pos as int, it.cursor as int, it.is_first, buffer@, at as int)
                        == (cur.pos as int, buffer@)
                );
                return cur;
            }
            let ghost c = it.cursor as int;
            let ghost f = it.is_first;
            let ghost b = buffer@;
            let q = match it.next() {
                None => {
                    assert(iter_next(t, c, f) is None);
                    assert(
                        ns_loop(t, cur.pos as int, c, f, buffer@, at as int)
                            == (cur.pos as int, buffer@)
                    );
                    return cur;
                },
                Some(q) => q,
            };
            assert(iter_next(t, c, f) == Some(q.pos as int));
            let tc = q.ccc();
            let mut k = at;
            while k < buffer.len() && buffer[k].ccc < tc
                invariant
                    at <= k <= buffer@.len(),
                    advance(buffer@, k as int, tc) == advance(buffer@, at as int, tc),
                decreases buffer@.len() - k,
            {
                k = k + 1;
            }
            assert(advance(b, k as int, tc) == k as int);
            if k >= buffer.len() {
                return cur;
            }
            if buffer[k].ccc != tc || buffer[k].code != q.code() {
                at = k;
                continue;
            }
            buffer.remove(k);
            if !q.has_children() {
                assert(ns_loop(t, cur.pos as int, c, f, b, at as int) == (q.pos as int, buffer@));
                return q;
            }
            cur = q;
            it = TrieIter::new(self.tries, q.next_offset() as usize);
            at = k;
        }
    }

    /// Writes the buffer from `from` on: each element's weights, but where a trie node
    /// with children stands, the elements after it are first matched against it.
    pub fn write_buffer(
        &self,
        buffer: &mut Vec<CollationElement>,
        from: usize,
        result: &mut Vec<u32>,
    )
        requires
            self.wf(),
        ensures
            final(result)@ == write_buf(self@.tries, old(buffer)@, from as int, old(result)@),
    {
        let ghost t = self@.tries;
        let mut k = from;
        loop
            invariant
                self.wf(),
                t == self@.tries,
                write_buf(t, buffer@, k as int, result@) == write_buf(
                    t,
                    old(buffer)@,
                    from as int,
                    old(result)@,
                ),
            decreases if k < buffer@.len() {
                buffer@.len() - k
            } else {
                0
            },
        {
            if k >= buffer.len() {
                return;
            }
            let ce = buffer[k];
            let mut matched = false;
            if let CollationElementValue::Trie(p) = ce.value {
                if (p as usize) < self.tries.len() && self.tries[p as usize] & 1 != 0 {
                    let node = TrieNode::from_slice(self.tries, p);
                    let n = self.nonstarters_match(node, buffer, k + 1);
                    self.write_node_weights(n, result);
                    matched = true;
                }
            }
            if !matched {
                self.write_element(ce, result);
            }
            k = k + 1;
        }
    }

    /// Matches the non-starters of the buffer from `from` on against the children of
    /// `node`, then writes the deepest matched node's weights and the rest of the buffer.
    pub fn handle_trie_nonstarters_sequence(
        &self,
        node: TrieNode,
        result: &mut Vec<u32>,
        buffer: &mut Vec<CollationElement>,
        from: usize,
    )
        requires
            self.wf(),
            node.pos < self@.tries.len(),
            node.value == self@.tries[node.pos as int],
        ensures
            ({
                let m = ns_match(self@.tries, node.pos as int, old(buffer)@, from as int);
                final(result)@ == write_buf(
                    self@.tries,
                    m.1,
                    from as int,
                    old(result)@ + node_weights_at(self@.tries, m.0),
                )
            }),
            final(buffer)@.len() == 0,
    {
        let n = self.nonstarters_match(node, buffer, from);
        self.write_node_weights(n, result);
        self.write_buffer(buffer, from, result);
        buffer.clear();
    }
}


impl<'a> Collator<'a> {
    /// Flushes the buffer: writes its weights and empties it. `simple_case`: no
    /// reordering or matching is pending.
    pub fn handle_buffer(
        &self,
        result: &mut Vec<u32>,
        buffer: &mut Vec<CollationElement>,
        simple_case: bool,
    )
        requires
            self.wf(),
        ensures
            final(result)@ == old(result)@ + flush_out(self@.tries, old(buffer)@, simple_case),
            final(buffer)@.len() == 0,
    {
        let ghost t = self@.tries;
        let ghost b = buffer@;
        if buffer.len() == 0 {
            assert(old(result)@ + flush_out(t, b, simple_case) =~= old(result)@);
            return;
        }
        if simple_case || buffer.len() == 1 {
            let mut k: usize = 0;
            while k < buffer.len()
                invariant
                    self.wf(),
                    t == self@.tries,
                    buffer@ == b,
                    k <= b.len(),
                    result@ == old(result)@ + flat(t, b.subrange(0, k as int)),
                decreases b.len() - k,
            {
                let ce = buffer[k];
                self.write_element(ce, result);
                proof {
                    assert(b.subrange(0, k + 1).drop_last() =~= b.subrange(0, k as int));
                    assert(result@ =~= old(result)@ + flat(t, b.subrange(0, k + 1)));
                }
                k = k + 1;
            }
            assert(b.subrange(0, k as int) =~= b);
            buffer.clear();
            return;
        }
        let ghost r0 = result@;
        if buffer[0].ccc == 0 && matches!(
            buffer[0].value,
            CollationElementValue::Decomposition(_) | CollationElementValue::Trie(_)
        ) {
            match self.decompose(buffer) {
                Some(s) => {
                    if s.has_children() {
                        self.handle_trie_nonstarters_sequence(s, result, buffer, 0);
                        proof {
                            let m = ns_match(t, s.pos as int, decomposed(t, b).1, 0);
                            lemma_write_buf_prefix(t, m.1, 0, r0, node_weights_at(t, m.0));
                        }
                    } else {
                        self.write_node_weights(s, result);
                        self.write_buffer(buffer, 0, result);
                        proof {
                            let rest = decomposed(t, b).1;
                            lemma_write_buf_prefix(t, rest, 0, r0, node_weights_at(t, s.pos as int));
                        }
                    }
                },
                None => {
                    self.write_buffer(buffer, 0, result);
                    proof {
                        assert(r0 + Seq::<u32>::empty() =~= r0);
                        lemma_write_buf_prefix(t, decomposed(t, b).1, 0, r0, Seq::empty());
                    }
                },
            }
        } else {
            sort_by_ccc_in_place(buffer);
            self.write_buffer(buffer, 0, result);
            proof {
                assert(r0 + Seq::<u32>::empty() =~= r0);
                lemma_write_buf_prefix(t, sort_by_ccc(b), 0, r0, Seq::empty());
            }
        }
        buffer.clear();
    }

    /// Buffers the nodes of a non-starter whose record refers to the tries table: a node
    /// with children waits for matching, one without is its weights. Returns the new
    /// combining class state.
    fn push_nonstarter_trie(
        &self,
        pos: u16,
        buffer: &mut Vec<CollationElement>,
        last: u8,
    ) -> (r: u8)
        requires
            self.wf(),
        ensures
            (final(buffer)@, r) == push_nodes(
                self@.tries,
                siblings(self@.tries, pos as int, true),
                old(buffer)@,
                last,
            ),
    {
        let ghost t = self@.tries;
        let ghost last0 = last;
        let mut it = TrieIter::new(self.tries, pos as usize);
        let mut state = last;
        loop
            invariant
                self.wf(),
                it.source == self.tries,
                it.source@ == t,
                t == self@.tries,
                last0 == last,
                push_nodes(t, siblings(t, it.cursor as int, it.is_first), buffer@, state)
                    == push_nodes(t, siblings(t, pos as int, true), old(buffer)@, last0),
            decreases iter_measure(t, it.cursor as int, it.is_first),
        {
            let ghost c = it.cursor as int;
            let ghost f = it.is_first;
            match it.next() {
                None => {
                    assert(siblings(t, c, f) =~= Seq::<int>::empty());
                    return state;
                },
                Some(node) => {
                    let ghost q = node.pos as int;
                    assert(siblings(t, c, f) =~= seq![q] + siblings(t, q, false));
                    assert(
                        (seq![q] + siblings(t, q, false)).drop_first()
                            =~= siblings(t, q, false)
                    );
                    if node.has_children() {
                        buffer.push(node.as_ce_trie());
                        state = 0xFF;
                    } else {
                        let ccc = node.ccc();
                        buffer.push(node.as_ce_weights());
                        state = if ccc < state {
                            0xFF
                        } else {
                            ccc
                        };
                    }
                },
            }
        }
    }
}


impl<'a> Collator<'a> {
    /// Matches a contraction head at `pos` against the starters of `codes` from `i` on.
    /// Writes what it resolves, buffers the node where non-starters may still combine
    /// with it, and returns how many code points after the head it used up.
    pub fn handle_starters_sequence(
        &self,
        pos: u16,
        result: &mut Vec<u32>,
        buffer: &mut Vec<CollationElement>,
        codes: &Vec<u32>,
        i: usize,
    ) -> (r: usize)
        requires
            self.wf(),
            i <= codes@.len(),
        ensures
            ({
                let (o, n, pushed) = starters_seq(self@, codes@, i as int, pos as int);
                &&& final(result)@ == old(result)@ + o
                &&& final(buffer)@ == old(buffer)@ + pushed
                &&& r == n
                &&& i + n <= codes@.len()
            }),
    {
        let ghost t = self@.tries;
        let ghost d = self@;
        if pos as usize >= self.tries.len() {
            assert(old(result)@ + Seq::<u32>::empty() =~= old(result)@);
            assert(old(buffer)@ + Seq::<CollationElement>::empty() =~= old(buffer)@);
            return 0;
        }
        let head = TrieNode::from_slice(self.tries, pos);
        let c0 = head.next_offset() as usize;
        if !(c0 < self.tries.len() && TrieNode::from_slice(self.tries, c0 as u16).is_starter()) {
            buffer.push(head.as_ce_trie_node());
            assert(old(result)@ + Seq::<u32>::empty() =~= old(result)@);
            assert(final(buffer)@ =~= old(buffer)@ + seq![trie_element(t, pos as int)]);
            return 0;
        }
        if i >= codes.len() {
            self.write_node_weights(head, result);
            assert(old(buffer)@ + Seq::<CollationElement>::empty() =~= old(buffer)@);
            return 0;
        }
        let first_code = codes[i];
        let first_value = self.get_data_value(first_code);
        if !is_starter_marker((first_value & 7) as u8) {
            buffer.push(head.as_ce_trie_node());
            assert(old(result)@ + Seq::<u32>::empty() =~= old(result)@);
            assert(final(buffer)@ =~= old(buffer)@ + seq![trie_element(t, pos as int)]);
            return 0;
        }
        let mut node = head;
        let mut it = TrieIter::new(self.tries, c0);
        let mut code = first_code;
        let mut value = first_value;
        let mut j = i + 1;
        let mut n: usize = 1;
        let ghost r0 = result@;
        let ghost b0 = buffer@;
        loop
            invariant
                self.wf(),
                it.source == self.tries,
                it.source@ == t,
                t == self@.tries,
                d == self@,
                r0 == old(result)@,
                b0 == old(buffer)@,
                result@ == r0,
                buffer@ == b0,
                node.pos < t.len(),
                node.value == t[node.pos as int],
                j == i + n,
                j <= codes@.len(),
                starter_marker(value),
                starters_loop(
                    d,
                    codes@,
                    j as int,
                    node.pos as int,
                    it.cursor as int,
                    it.is_first,
                    code,
                    value,
                    n as nat,
                )
                    == starters_seq(d, codes@, i as int, pos as int),
            decreases iter_measure(t, it.cursor as int, it.is_first),
        {
            match it.next() {
                None => {
                    self.write_node_weights(node, result);
                    self.write_starter(value, result);
                    assert(old(buffer)@ + Seq::<CollationElement>::empty() =~= old(buffer)@);
                    assert(
                        final(result)@
                            =~= r0 + (node_weights_at(t, node.pos as int) + starter_weights(
                        d.expansions,
                        value,
                    ))
                    );
                    return n;
                },
                Some(q) => {
                    if q.code() == code {
                        if !q.has_children() || j >= codes.len() {
                            self.write_node_weights(q, result);
                            assert(
                                old(buffer)@ + Seq::<CollationElement>::empty()
                                    =~= old(buffer)@
                            );
                            return n;
                        }
                        let next_code = codes[j];
                        let next_value = self.get_data_value(next_code);
                        if !is_starter_marker((next_value & 7) as u8) {
                            buffer.push(q.as_ce_trie_node());
                            assert(old(result)@ + Seq::<u32>::empty() =~= old(result)@);
                            assert(
                                final(buffer)@
                                    =~= old(buffer)@ + seq![trie_element(t, q.pos as int)]
                            );
                            return n;
                        }
                        if q.ccc() != 0 {
                            self.write_node_weights(q, result);
                            self.write_starter(next_value, result);
                            assert(
                                old(buffer)@ + Seq::<CollationElement>::empty()
                                    =~= old(buffer)@
                            );
                            assert(
                                final(result)@
                                    =~= r0 + (node_weights_at(t, q.pos as int) + starter_weights(
                        d.expansions,
                        next_value,
                    ))
                            );
                            return n + 1;
                        }
                        node = q;
                        it = TrieIter::new(self.tries, q.next_offset() as usize);
                        code = next_code;
                        value = next_value;
                        j = j + 1;
                        n = n + 1;
                    } else if q.ccc() != 0 {
                        self.write_node_weights(node, result);
                        self.write_starter(value, result);
                        assert(old(buffer)@ + Seq::<CollationElement>::empty() =~= old(buffer)@);
                        assert(
                            final(result)@
                                =~= r0 + (node_weights_at(t, node.pos as int) + starter_weights(
                        d.expansions,
                        value,
                    ))
                        );
                        return n;
                    }
                },
            }
        }
    }
}


impl<'a> Collator<'a> {
    /// The weight words of `input`.
    pub fn get_weights(&self, input: &str) -> (r: Vec<u32>)
        requires
            self.wf(),
        ensures
            r@ == weights_of(self@, codes_of(input@)),
    {
        let codes = code_points(input);
        let mut result: Vec<u32> = Vec::new();
        self.ce_buffer_loop(&codes, &mut result);
        result
    }

    /// The fast path, while nothing is buffered: writes the weights of the starters with
    /// one weight word or an expansion from `i` on, and returns the index of the first
    /// code point that is none of these.
    fn starters_loop(&self, codes: &Vec<u32>, i: usize, last: u8, result: &mut Vec<u32>) -> (r:
        usize)
        requires
            self.wf(),
            i <= codes@.len(),
        ensures
            i <= r <= codes@.len(),
            run(
                self@,
                codes@,
                r as int,
                Seq::empty(),
                if r > i {
                    0
                } else {
                    last
                },
                final(result)@,
            ) == run(self@, codes@, i as int, Seq::empty(), last, old(result)@),
    {
        let ghost d = self@;
        let ghost cs = codes@;
        let mut j = i;
        loop
            invariant
                self.wf(),
                d == self@,
                cs == codes@,
                i <= j <= cs.len(),
                run(d, cs, j as int, Seq::empty(), if j > i {
                    0
                } else {
                    last
                }, result@) == run(d, cs, i as int, Seq::empty(), last, old(result)@),
            decreases cs.len() - j,
        {
            if j >= codes.len() {
                return j;
            }
            let value = self.get_data_value(codes[j]);
            if !is_starter_marker((value & 7) as u8) {
                return j;
            }
            let ghost r0 = result@;
            self.write_starter(value, result);
            assert(flush_out(d.tries, Seq::empty(), true) == Seq::<u32>::empty());
            assert(flush_out(d.tries, Seq::empty(), false) == Seq::<u32>::empty());
            assert(result@ =~= r0 + Seq::<u32>::empty() + starter_weights(d.expansions, value));
            j = j + 1;
        }
    }

    /// Appends the weight words of `codes` to `result`.
    fn ce_buffer_loop(&self, codes: &Vec<u32>, result: &mut Vec<u32>)
        requires
            self.wf(),
        ensures
            final(result)@ == run(self@, codes@, 0, Seq::empty(), 0, old(result)@),
    {
        let ghost d = self@;
        let ghost cs = codes@;
        let mut buffer: Vec<CollationElement> = Vec::new();
        let mut last: u8 = 0;
        let mut i: usize = 0;
        loop
            invariant
                self.wf(),
                d == self@,
                cs == codes@,
                i <= cs.len(),
                run(d, cs, i as int, buffer@, last, result@) == run(
                    d,
                    cs,
                    0,
                    Seq::empty(),
                    0,
                    old(result)@,
                ),
            decreases cs.len() - i,
        {
            if buffer.len() == 0 {
                assert(buffer@ =~= Seq::<CollationElement>::empty());
                let j = self.starters_loop(codes, i, last, result);
                if j > i {
                    last = 0;
                }
                i = j;
            }
            if i >= codes.len() {
                self.handle_buffer(result, &mut buffer, last != 0xFF);
                return;
            }
            let code = codes[i];
            let value = self.get_data_value(code);
            let marker = (value & 7) as u8;
            if is_starter_marker(marker) {
                self.handle_buffer(result, &mut buffer, last != 0xFF);
                self.write_starter(value, result);
                last = 0;
                i = i + 1;
                assert(buffer@ =~= Seq::<CollationElement>::empty());
            } else if marker == MARKER_STARTER_DECOMPOSITION || marker == MARKER_STARTER_TRIE {
                let (pos, ccc) = parse_expansion_or_trie_info(value);
                self.handle_buffer(result, &mut buffer, last != 0xFF);
                if marker == MARKER_STARTER_TRIE || ccc == MARKER_CCC_SEQUENCE {
                    let n = self.handle_starters_sequence(pos, result, &mut buffer, codes, i + 1);
                    assert(buffer@ =~= starters_seq(d, cs, i + 1, pos as int).2);
                    last = if buffer.len() > 0 {
                        0xFF
                    } else {
                        0
                    };
                    i = i + 1 + n;
                } else if ccc == MARKER_CCC_HANGUL && HANGUL_S_BASE <= code && code
                    < HANGUL_S_BASE + HANGUL_S_COUNT {
                    write_hangul_syllable(code, result);
                    last = 0;
                    i = i + 1;
                    assert(buffer@ =~= Seq::<CollationElement>::empty());
                } else {
                    buffer.push(
                        CollationElement {
                            ccc: 0,
                            code,
                            value: CollationElementValue::Decomposition(pos),
                        },
                    );
                    assert(buffer@ =~= seq![
                        CollationElement {
                            ccc: 0,
                            code,
                            value: CollationElementValue::Decomposition(pos),
                        },
                    ]);
                    last = ccc;
                    i = i + 1;
                }
            } else if marker == MARKER_NONSTARTER_SINGLE {
                let ccc = (value >> 36) as u8;
                buffer.push(
                    CollationElement {
                        ccc,
                        code,
                        value: CollationElementValue::SingleWeights((value >> 4) as u32),
                    },
                );
                last = if ccc < last {
                    0xFF
                } else {
                    ccc
                };
                i = i + 1;
            } else if marker == MARKER_NONSTARTER_TRIE {
                let (pos, _) = parse_expansion_or_trie_info(value);
                last = self.push_nonstarter_trie(pos, &mut buffer, last);
                i = i + 1;
            } else {
                self.handle_buffer(result, &mut buffer, last != 0xFF);
                let w = implicit_weights(code);
                let ghost rf = result@;
                result.push(w[0]);
                result.push(w[1]);
                assert(result@ =~= rf + seq![w[0], w[1]]);
                last = 0;
                i = i + 1;
                assert(buffer@ =~= Seq::<CollationElement>::empty());
            }
        }
    }
}

impl<'a> Collator<'a> {
    /// The sort key of `input` under `options`.
    pub fn get_key(&self, input: &str, options: CollatorOptions) -> (r: Key)
        requires
            self.wf(),
        ensures
            is_key_of(r, weights_of(self@, codes_of(input@)), options),
    {
        let weights = self.get_weights(input);
        compose_key(&weights, options)
    }
}

} // verus!
