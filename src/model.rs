//! What the weighting engine computes, stated over the tables as sequences.
use vstd::prelude::*;
use crate::codepoint::{
    record_ccc, record_ccc_or_len, record_marker, record_pos, record_weights, starter_marker,
    starter_weights, MARKER_CCC_HANGUL, MARKER_CCC_SEQUENCE, MARKER_IMPLICIT,
    MARKER_NONSTARTER_SINGLE, MARKER_NONSTARTER_TRIE, MARKER_STARTER_DECOMPOSITION,
    MARKER_STARTER_TRIE,
};
use crate::collation_element::{CollationElement, CollationElementValue};
use crate::data::{data_value, Tables};
use crate::hangul::{hangul_syllable, hangul_weights};
use crate::implicit::implicit_pair;
use crate::trie::{
    after_node, iter_measure, iter_next, node_ccc, node_code, node_element, node_has_children,
    node_weights_at, siblings, table_slice,
};

verus! {

/// The weights that a buffered element stands for, on its own.
pub open spec fn ce_weights(t: Seq<u32>, ce: CollationElement) -> Seq<u32> {
    match ce.value {
        CollationElementValue::SingleWeights(w) => seq![w],
        CollationElementValue::Decomposition(p) => node_weights_at(t, p as int),
        CollationElementValue::Trie(p) => node_weights_at(t, p as int),
        CollationElementValue::TrieWeights(p, n) => table_slice(t, p as int, n as int),
    }
}

/// The weights of the elements of `s`, one after another.
pub open spec fn flat(t: Seq<u32>, s: Seq<CollationElement>) -> Seq<u32>
    decreases s.len(),
{
    if s.len() == 0 {
        Seq::empty()
    } else {
        flat(t, s.drop_last()) + ce_weights(t, s.last())
    }
}

/// `x` inserted into `r` after every element whose combining class is not greater.
pub open spec fn insert_by_ccc(r: Seq<CollationElement>, x: CollationElement) -> Seq<
    CollationElement,
>
    decreases r.len(),
{
    if r.len() == 0 {
        seq![x]
    } else if r.last().ccc <= x.ccc {
        r.push(x)
    } else {
        insert_by_ccc(r.drop_last(), x).push(r.last())
    }
}

/// `s` stably sorted by combining class.
pub open spec fn sort_by_ccc(s: Seq<CollationElement>) -> Seq<CollationElement>
    decreases s.len(),
{
    if s.len() == 0 {
        Seq::empty()
    } else {
        insert_by_ccc(sort_by_ccc(s.drop_last()), s.last())
    }
}

/// The node at `p` exists and has children.
pub open spec fn has_children_at(t: Seq<u32>, p: int) -> bool {
    0 <= p < t.len() && node_has_children(t[p])
}

/// The first index from `k` on whose element has a combining class of at least `ccc`.
pub open spec fn advance(buf: Seq<CollationElement>, k: int, ccc: u8) -> int
    decreases buf.len() - k,
{
    if k >= buf.len() || k < 0 {
        buf.len() as int
    } else if buf[k].ccc >= ccc {
        k
    } else {
        advance(buf, k + 1, ccc)
    }
}

/// Matching of the non-starters of `buf` (sorted by combining class) from `index` on
/// against the children of `node`, whose iterator stands at `cursor`. A child matches the
/// first element of its combining class, if their code points agree; the element is then
/// taken out of the buffer, and matching goes on among the child's children. The result
/// is the deepest matched node and what is left of the buffer.
pub open spec fn ns_loop(
    t: Seq<u32>,
    node: int,
    cursor: int,
    first: bool,
    buf: Seq<CollationElement>,
    index: int,
) -> (int, Seq<CollationElement>)
    decreases iter_measure(t, cursor, first),
{
    if !(0 <= index < buf.len()) {
        (node, buf)
    } else {
        match iter_next(t, cursor, first) {
            None => (node, buf),
            Some(q) => {
                let tc = node_ccc(t[q]);
                let k = advance(buf, index, tc);
                if k >= buf.len() {
                    (node, buf)
                } else if buf[k].ccc != tc || buf[k].code != node_code(t[q]) {
                    ns_loop(t, node, q, false, buf, k)
                } else {
                    let rest = buf.remove(k);
                    if !node_has_children(t[q]) {
                        (q, rest)
                    } else {
                        ns_loop(t, q, after_node(t, q), true, rest, k)
                    }
                }
            },
        }
    }
}

/// Matching that starts at the first child of `node`.
pub open spec fn ns_match(t: Seq<u32>, node: int, buf: Seq<CollationElement>, index: int) -> (
    int,
    Seq<CollationElement>,
) {
    ns_loop(t, node, after_node(t, node), true, buf, index)
}

/// Writing the buffer from `k` on after `out`: each element's weights, but where a trie
/// node with children stands, the elements after it are first matched against it.
pub open spec fn write_buf(t: Seq<u32>, s: Seq<CollationElement>, k: int, out: Seq<u32>) -> Seq<
    u32,
>
    decreases if k < s.len() {
        s.len() - k
    } else {
        0
    },
    via write_buf_decreases
{
    if k < 0 || k >= s.len() {
        out
    } else {
        match s[k].value {
            CollationElementValue::Trie(p) => {
                if has_children_at(t, p as int) {
                    let m = ns_match(t, p as int, s, k + 1);
                    write_buf(t, m.1, k + 1, out + node_weights_at(t, m.0))
                } else {
                    write_buf(t, s, k + 1, out + ce_weights(t, s[k]))
                }
            },
            _ => write_buf(t, s, k + 1, out + ce_weights(t, s[k])),
        }
    }
}

#[via_fn]
proof fn write_buf_decreases(t: Seq<u32>, s: Seq<CollationElement>, k: int, out: Seq<u32>) {
    if 0 <= k < s.len() {
        if let CollationElementValue::Trie(p) = s[k].value {
            if has_children_at(t, p as int) {
                lemma_ns_loop_len(t, p as int, after_node(t, p as int), true, s, k + 1);
            }
        }
    }
}

/// `advance` moves forward, and stays within the buffer or right after it.
pub proof fn lemma_advance(buf: Seq<CollationElement>, k: int, ccc: u8)
    requires
        0 <= k,
    ensures
        k <= advance(buf, k, ccc) <= buf.len() || (k > buf.len() && advance(buf, k, ccc)
            == buf.len()),
        advance(buf, k, ccc) < buf.len() ==> buf[advance(buf, k, ccc)].ccc >= ccc,
        forall|m: int| k <= m < advance(buf, k, ccc) ==> buf[m].ccc < ccc,
    decreases buf.len() - k,
{
    if k < buf.len() && buf[k].ccc < ccc {
        lemma_advance(buf, k + 1, ccc);
    }
}

/// Matching only takes elements out of the buffer.
pub proof fn lemma_ns_loop_len(
    t: Seq<u32>,
    node: int,
    cursor: int,
    first: bool,
    buf: Seq<CollationElement>,
    index: int,
)
    ensures
        ns_loop(t, node, cursor, first, buf, index).1.len() <= buf.len(),
        0 <= index <= buf.len() ==> index <= ns_loop(t, node, cursor, first, buf, index).1.len(),
    decreases iter_measure(t, cursor, first),
{
    if 0 <= index < buf.len() {
        if let Some(q) = iter_next(t, cursor, first) {
            let tc = node_ccc(t[q]);
            let k = advance(buf, index, tc);
            lemma_advance(buf, index, tc);
            if k < buf.len() {
                if buf[k].ccc != tc || buf[k].code != node_code(t[q]) {
                    lemma_ns_loop_len(t, node, q, false, buf, k);
                } else if node_has_children(t[q]) {
                    lemma_ns_loop_len(t, q, after_node(t, q), true, buf.remove(k), k);
                }
            }
        }
    }
}

/// Insertion after every element whose combining class is not greater: at the first
/// position from which on all combining classes are greater.
pub proof fn lemma_insert_by_ccc(r: Seq<CollationElement>, x: CollationElement, p: int)
    requires
        0 <= p <= r.len(),
        forall|m: int| p <= m < r.len() ==> r[m].ccc > x.ccc,
        p == 0 || r[p - 1].ccc <= x.ccc,
    ensures
        insert_by_ccc(r, x) == r.insert(p, x),
    decreases r.len(),
{
    if r.len() == 0 {
        assert(r.insert(p, x) =~= seq![x]);
    } else if p == r.len() {
        assert(r.insert(p, x) =~= r.push(x));
    } else {
        lemma_insert_by_ccc(r.drop_last(), x, p);
        assert(r.drop_last().insert(p, x).push(r.last()) =~= r.insert(p, x));
    }
}

/// Writing after `a + b` is writing after `b`, behind `a`.
pub proof fn lemma_write_buf_prefix(
    t: Seq<u32>,
    s: Seq<CollationElement>,
    k: int,
    a: Seq<u32>,
    b: Seq<u32>,
)
    ensures
        write_buf(t, s, k, a + b) == a + write_buf(t, s, k, b),
    decreases if k < s.len() {
        s.len() - k
    } else {
        0
    },
{
    if 0 <= k < s.len() {
        let mut handled = false;
        if let CollationElementValue::Trie(p) = s[k].value {
            if has_children_at(t, p as int) {
                let m = ns_match(t, p as int, s, k + 1);
                lemma_ns_loop_len(t, p as int, after_node(t, p as int), true, s, k + 1);
                assert(a + b + node_weights_at(t, m.0) =~= a + (b + node_weights_at(t, m.0)));
                lemma_write_buf_prefix(t, m.1, k + 1, a, b + node_weights_at(t, m.0));
                handled = true;
            }
        }
        if !handled {
            assert(a + b + ce_weights(t, s[k]) =~= a + (b + ce_weights(t, s[k])));
            lemma_write_buf_prefix(t, s, k + 1, a, b + ce_weights(t, s[k]));
        }
    } else {
        assert(write_buf(t, s, k, a + b) == a + b);
    }
}

/// A buffer that starts with a starter with a decomposition, or with a trie node, taken
/// apart: the starter's node, if there is one, and the non-starters, the decomposition's
/// first and the rest of the buffer after them, stably sorted by combining class.
pub open spec fn decomposed(t: Seq<u32>, buf: Seq<CollationElement>) -> (
    Option<int>,
    Seq<CollationElement>,
) {
    match buf[0].value {
        CollationElementValue::Decomposition(p) => {
            let ch = if (p as int) < t.len() {
                siblings(t, after_node(t, p as int), true)
            } else {
                Seq::empty()
            };
            if ch.len() == 0 {
                (None, sort_by_ccc(buf.drop_first()))
            } else {
                (
                    Some(ch[0]),
                    sort_by_ccc(
                        ch.drop_first().map_values(|q: int| node_element(t[q], q))
                            + buf.drop_first(),
                    ),
                )
            }
        },
        CollationElementValue::Trie(p) => (
            if (p as int) < t.len() {
                Some(p as int)
            } else {
                None
            },
            sort_by_ccc(buf.drop_first()),
        ),
        _ => (None, sort_by_ccc(buf)),
    }
}

/// A buffer that must be taken apart before it is written.
pub open spec fn starts_with_sequence(buf: Seq<CollationElement>) -> bool {
    buf.len() > 0 && buf[0].ccc == 0 && (buf[0].value is Decomposition || buf[0].value is Trie)
}

/// The weights written when the buffer is flushed. Where no reordering or matching is
/// pending (`simple`), or the buffer holds one element, each element's own weights;
/// else the buffer is decomposed, sorted, matched and written.
pub open spec fn flush_out(t: Seq<u32>, buf: Seq<CollationElement>, simple: bool) -> Seq<u32> {
    if buf.len() == 0 {
        Seq::empty()
    } else if simple || buf.len() == 1 {
        flat(t, buf)
    } else if starts_with_sequence(buf) {
        let (st, rest) = decomposed(t, buf);
        match st {
            Some(s) => if node_has_children(t[s]) {
                let m = ns_match(t, s, rest, 0);
                write_buf(t, m.1, 0, node_weights_at(t, m.0))
            } else {
                write_buf(t, rest, 0, node_weights_at(t, s))
            },
            None => write_buf(t, rest, 0, Seq::empty()),
        }
    } else {
        write_buf(t, sort_by_ccc(buf), 0, Seq::empty())
    }
}

/// The element of a sequence's node that waits for non-starters.
pub open spec fn trie_element(t: Seq<u32>, p: int) -> CollationElement {
    CollationElement {
        ccc: 0,
        code: node_code(t[p]),
        value: CollationElementValue::Trie(p as u16),
    }
}

/// Matching a sequence of starters after `node`: `c` (record `v`) is the lookahead, `j`
/// the index after it, `n` the number of code points read after the head. The result:
/// the weights written, how many code points after the head were used up, and the
/// element to buffer, if any.
pub open spec fn starters_loop(
    d: Tables,
    cs: Seq<u32>,
    j: int,
    node: int,
    cursor: int,
    first: bool,
    c: u32,
    v: u64,
    n: nat,
) -> (Seq<u32>, nat, Seq<CollationElement>)
    decreases iter_measure(d.tries, cursor, first),
{
    let t = d.tries;
    match iter_next(t, cursor, first) {
        None => (node_weights_at(t, node) + starter_weights(d.expansions, v), n, Seq::empty()),
        Some(q) => if node_code(t[q]) == c {
            if !node_has_children(t[q]) || j >= cs.len() {
                (node_weights_at(t, q), n, Seq::empty())
            } else {
                let c2 = cs[j];
                let v2 = data_value(d, c2);
                if !starter_marker(v2) {
                    (Seq::empty(), n, seq![trie_element(t, q)])
                } else if node_ccc(t[q]) != 0 {
                    (node_weights_at(t, q) + starter_weights(d.expansions, v2), n + 1, Seq::empty())
                } else {
                    starters_loop(d, cs, j + 1, q, after_node(t, q), true, c2, v2, n + 1)
                }
            }
        } else if node_ccc(t[q]) != 0 {
            (node_weights_at(t, node) + starter_weights(d.expansions, v), n, Seq::empty())
        } else {
            starters_loop(d, cs, j, node, q, false, c, v, n)
        },
    }
}

/// A contraction head at `p` followed by the code points of `cs` from `i` on.
pub open spec fn starters_seq(d: Tables, cs: Seq<u32>, i: int, p: int) -> (
    Seq<u32>,
    nat,
    Seq<CollationElement>,
) {
    let t = d.tries;
    if !(0 <= p < t.len()) {
        (Seq::empty(), 0, Seq::empty())
    } else {
        let c0 = after_node(t, p);
        if !(c0 < t.len() && node_ccc(t[c0]) == 0) {
            (Seq::empty(), 0, seq![trie_element(t, p)])
        } else if i >= cs.len() {
            (node_weights_at(t, p), 0, Seq::empty())
        } else {
            let c = cs[i];
            let v = data_value(d, c);
            if !starter_marker(v) {
                (Seq::empty(), 0, seq![trie_element(t, p)])
            } else {
                starters_loop(d, cs, i + 1, p, c0, true, c, v, 1)
            }
        }
    }
}

/// Buffering the nodes at `ps` of a non-starter: a node with children waits for matching,
/// one without is its weights.
pub open spec fn push_nodes(t: Seq<u32>, ps: Seq<int>, buf: Seq<CollationElement>, last: u8) -> (
    Seq<CollationElement>,
    u8,
)
    decreases ps.len(),
{
    if ps.len() == 0 {
        (buf, last)
    } else {
        let q = ps[0];
        let v = t[q];
        if node_has_children(v) {
            push_nodes(
                t,
                ps.drop_first(),
                buf.push(
                    CollationElement {
                        ccc: node_ccc(v),
                        code: node_code(v),
                        value: CollationElementValue::Trie(q as u16),
                    },
                ),
                0xFF,
            )
        } else {
            let cc = node_ccc(v);
            push_nodes(
                t,
                ps.drop_first(),
                buf.push(node_element(v, q)),
                if cc < last {
                    0xFF
                } else {
                    cc
                },
            )
        }
    }
}

/// The weight words of the code points `cs` from `i` on, after `out`, with `buf` buffered
/// and `last` the combining class of the last buffered non-starter (0xFF: reordering or
/// matching pending). A starter with weights in its record or in `expansions` flushes
/// the buffer and is written; a starter with a decomposition flushes it and is buffered,
/// but a Hangul syllable is written at once; a contraction head flushes it and matches
/// the starters that follow; a non-starter is buffered; a record of no known kind
/// (implicit, or the unused kind 7) flushes the buffer and takes implicit weights.
pub open spec fn run(
    d: Tables,
    cs: Seq<u32>,
    i: int,
    buf: Seq<CollationElement>,
    last: u8,
    out: Seq<u32>,
) -> Seq<u32>
    decreases if i < cs.len() {
        cs.len() - i
    } else {
        0
    },
{
    let t = d.tries;
    let simple = last != 0xFF;
    if i < 0 || i >= cs.len() {
        out + flush_out(t, buf, simple)
    } else {
        let c = cs[i];
        let v = data_value(d, c);
        let m = record_marker(v);
        if starter_marker(v) {
            let out1 = out + flush_out(t, buf, simple) + starter_weights(d.expansions, v);
            run(d, cs, i + 1, Seq::empty(), 0, out1)
        } else if m == MARKER_STARTER_DECOMPOSITION || m == MARKER_STARTER_TRIE {
            let pos = record_pos(v);
            let ccc = record_ccc_or_len(v);
            let out1 = out + flush_out(t, buf, simple);
            if m == MARKER_STARTER_TRIE || ccc == MARKER_CCC_SEQUENCE {
                let (o, n, pushed) = starters_seq(d, cs, i + 1, pos as int);
                run(d, cs, i + 1 + n, pushed, if pushed.len() > 0 { 0xFF } else { 0 }, out1 + o)
            } else if ccc == MARKER_CCC_HANGUL && hangul_syllable(c) {
                run(d, cs, i + 1, Seq::empty(), 0, out1 + hangul_weights(c))
            } else {
                run(
                    d,
                    cs,
                    i + 1,
                    seq![
                        CollationElement {
                            ccc: 0,
                            code: c,
                            value: CollationElementValue::Decomposition(pos),
                        },
                    ],
                    ccc,
                    out1,
                )
            }
        } else if m == MARKER_NONSTARTER_SINGLE {
            let ccc = record_ccc(v);
            run(
                d,
                cs,
                i + 1,
                buf.push(
                    CollationElement {
                        ccc,
                        code: c,
                        value: CollationElementValue::SingleWeights(record_weights(v)),
                    },
                ),
                if ccc < last {
                    0xFF
                } else {
                    ccc
                },
                out,
            )
        } else if m == MARKER_NONSTARTER_TRIE {
            let pushed = push_nodes(t, siblings(t, record_pos(v) as int, true), buf, last);
            run(d, cs, i + 1, pushed.0, pushed.1, out)
        } else {
            let w = implicit_pair(c);
            run(d, cs, i + 1, Seq::empty(), 0, out + flush_out(t, buf, simple) + seq![w.0, w.1])
        }
    }
}

/// The weight words of the code points `cs`.
pub open spec fn weights_of(d: Tables, cs: Seq<u32>) -> Seq<u32> {
    run(d, cs, 0, Seq::empty(), 0, Seq::empty())
}

} // verus!
