//! Properties of the weights and keys that hold for every input.
use vstd::prelude::*;
use crate::codepoint::{
    record_ccc, record_ccc_or_len, record_marker, record_pos, record_weights, starter_marker,
    starter_weights, MARKER_CCC_HANGUL, MARKER_NONSTARTER_SINGLE, MARKER_STARTER_DECOMPOSITION,
    MARKER_STARTER_SINGLE, MARKER_STARTER_TRIE,
};
use crate::collation_element::{CollationElement, CollationElementValue};
use crate::data::{data_value, Tables};
use crate::hangul::{
    hangul_syllable, hangul_weights, HANGUL_L_BASE_WEIGHTS, HANGUL_N_COUNT, HANGUL_S_BASE,
    HANGUL_T_BASE_WEIGHTS, HANGUL_T_BLOCK_SIZE, HANGUL_V_BASE_WEIGHTS,
};
use crate::key::{key_weights, levels_of};
use crate::model::{
    ce_weights, decomposed, flat, flush_out, insert_by_ccc, run, sort_by_ccc, starters_loop,
    starters_seq, trie_element, weights_of, write_buf,
};
use crate::options::CollatorOptions;
use crate::trie::{
    after_node, iter_measure, iter_next, lemma_iter_next_in_table, node_ccc, node_code,
    node_element, node_has_children, node_weights_at, node_weights_len, siblings, table_slice,
};

verus! {

/// A starter sequence in which no remaining sibling spells the lookahead ends with the
/// weights of the node reached, then those of the lookahead.
proof fn lemma_starters_no_match(
    d: Tables,
    cs: Seq<u32>,
    j: int,
    node: int,
    cursor: int,
    first: bool,
    c: u32,
    v: u64,
    n: nat,
)
    requires
        forall|k: int|
            0 <= k < siblings(d.tries, cursor, first).len() ==> node_code(
                d.tries[siblings(d.tries, cursor, first)[k]],
            ) != c,
    ensures
        starters_loop(d, cs, j, node, cursor, first, c, v, n) == (
            node_weights_at(d.tries, node) + starter_weights(d.expansions, v),
            n,
            Seq::<CollationElement>::empty(),
        ),
    decreases iter_measure(d.tries, cursor, first),
{
    let t = d.tries;
    if let Some(q) = iter_next(t, cursor, first) {
        let rest = siblings(t, q, false);
        assert(siblings(t, cursor, first) == seq![q] + rest);
        assert((seq![q] + rest)[0] == q);
        assert(node_code(t[q]) != c);
        if node_ccc(t[q]) == 0 {
            assert forall|k: int| 0 <= k < rest.len() implies node_code(t[rest[k]]) != c by {
                assert((seq![q] + rest)[k + 1] == rest[k]);
            }
            lemma_starters_no_match(d, cs, j, node, q, false, c, v, n);
        }
    }
}

/// The weights of one starter with one weight word or an expansion.
proof fn lemma_single_starter(d: Tables, x: u32)
    requires
        starter_marker(data_value(d, x)),
    ensures
        weights_of(d, seq![x]) == starter_weights(d.expansions, data_value(d, x)),
{
    let sw = starter_weights(d.expansions, data_value(d, x));
    let e = Seq::<u32>::empty();
    let b = Seq::<CollationElement>::empty();
    assert(flush_out(d.tries, b, true) == e);
    assert(run(d, seq![x], 1, b, 0, e + e + sw) == e + e + sw + e);
    assert(e + e + sw + e =~= sw);
}

/// Contraction exactness: a contraction head `h` followed by a starter `x` that none of
/// the head's children spells gives the weights of `h` alone, then those of `x`.
pub proof fn lemma_contraction_exactness(d: Tables, h: u32, x: u32)
    requires
        record_marker(data_value(d, h)) == MARKER_STARTER_TRIE,
        starter_marker(data_value(d, x)),
        forall|k: int|
            0 <= k < siblings(
                d.tries,
                after_node(d.tries, record_pos(data_value(d, h)) as int),
                true,
            ).len() ==> node_code(
                d.tries[siblings(
                    d.tries,
                    after_node(d.tries, record_pos(data_value(d, h)) as int),
                    true,
                )[k]],
            ) != x,
    ensures
        weights_of(d, seq![h, x]) == weights_of(d, seq![h]) + weights_of(d, seq![x]),
{
    let t = d.tries;
    let p = record_pos(data_value(d, h)) as int;
    let sw = starter_weights(d.expansions, data_value(d, x));
    let e = Seq::<u32>::empty();
    let b = Seq::<CollationElement>::empty();
    lemma_single_starter(d, x);
    assert(flush_out(t, b, true) == e);
    assert(flush_out(t, b, false) == e);
    let hx = seq![h, x];
    let hh = seq![h];
    assert(hx[0] == h && hx[1] == x && hh[0] == h);
    let head = seq![trie_element(t, p)];
    assert(flat(t, head) == flat(t, head.drop_last()) + ce_weights(t, head.last()));
    assert(flat(t, head) =~= node_weights_at(t, p));
    assert(flush_out(t, head, false) == node_weights_at(t, p));
    if !(0 <= p < t.len()) {
        assert(starters_seq(d, hx, 1, p) == (e, 0nat, b));
        assert(starters_seq(d, hh, 1, p) == (e, 0nat, b));
        assert(run(d, hh, 1, b, 0, e + e + e) == e + e + e + e);
        assert(run(d, hx, 2, b, 0, e + e + e + e + sw) == e + e + e + e + sw + e);
        assert(run(d, hx, 1, b, 0, e + e + e) == run(d, hx, 2, b, 0, e + e + e + e + sw));
        assert(e + e + e + e + sw + e =~= (e + e + e + e) + sw);
    } else {
        let c0 = after_node(t, p);
        if !(c0 < t.len() && node_ccc(t[c0]) == 0) {
            assert(starters_seq(d, hx, 1, p) == (e, 0nat, head));
            assert(starters_seq(d, hh, 1, p) == (e, 0nat, head));
            assert(run(d, hh, 1, head, 0xFF, e + e + e) == e + e + e + node_weights_at(t, p));
            assert(run(d, hx, 2, b, 0, e + e + e + node_weights_at(t, p) + sw) == e + e + e
                + node_weights_at(t, p) + sw + e);
            assert(run(d, hx, 1, head, 0xFF, e + e + e) == run(
                d,
                hx,
                2,
                b,
                0,
                e + e + e + node_weights_at(t, p) + sw,
            ));
            assert(e + e + e + node_weights_at(t, p) + sw + e =~= (e + e + e + node_weights_at(
                t,
                p,
            )) + sw);
        } else {
            lemma_starters_no_match(d, hx, 2, p, c0, true, x, data_value(d, x), 1);
            assert(starters_seq(d, hx, 1, p) == (node_weights_at(t, p) + sw, 1nat, b));
            assert(starters_seq(d, hh, 1, p) == (node_weights_at(t, p), 0nat, b));
            assert(run(d, hh, 1, b, 0, e + e + node_weights_at(t, p)) == e + e + node_weights_at(
                t,
                p,
            ) + e);
            assert(run(d, hx, 2, b, 0, e + e + (node_weights_at(t, p) + sw)) == e + e + (
            node_weights_at(t, p) + sw) + e);
            assert(e + e + (node_weights_at(t, p) + sw) + e =~= (e + e + node_weights_at(t, p)
                + e) + sw);
        }
    }
}

/// The canonical decomposition of a precomposed Hangul syllable into its leading
/// consonant, its vowel and, when it has one, its trailing consonant.
pub open spec fn hangul_jamo(c: u32) -> Seq<u32> {
    let lvt = c - HANGUL_S_BASE;
    let t = lvt % HANGUL_T_BLOCK_SIZE as int;
    seq![
        (0x1100 + lvt / HANGUL_N_COUNT as int) as u32,
        (0x1161 + (lvt % HANGUL_N_COUNT as int) / HANGUL_T_BLOCK_SIZE as int) as u32,
    ] + if t != 0 {
        seq![(0x11A7 + t) as u32]
    } else {
        Seq::empty()
    }
}

/// The tables mark `c` as a Hangul syllable and give each of its jamo one weight word,
/// the base weight of its kind plus its index.
pub open spec fn hangul_tables(d: Tables, c: u32) -> bool {
    let v = data_value(d, c);
    let j = hangul_jamo(c);
    &&& record_marker(v) == MARKER_STARTER_DECOMPOSITION
    &&& record_ccc_or_len(v) == MARKER_CCC_HANGUL
    &&& forall|k: int|
        0 <= k < j.len() ==> record_marker(data_value(d, #[trigger] j[k])) == MARKER_STARTER_SINGLE
            && record_weights(data_value(d, j[k])) == hangul_weights(c)[k]
}

/// Hangul identity: a precomposed syllable has the weights of its jamo, wherever the
/// tables mark it as a syllable and give the jamo their weights.
pub proof fn lemma_hangul_identity(d: Tables, c: u32)
    requires
        hangul_syllable(c),
        hangul_tables(d, c),
    ensures
        weights_of(d, seq![c]) == weights_of(d, hangul_jamo(c)),
        weights_of(d, seq![c]) == hangul_weights(c),
{
    let t = d.tries;
    let e = Seq::<u32>::empty();
    let b = Seq::<CollationElement>::empty();
    let j = hangul_jamo(c);
    let hw = hangul_weights(c);
    assert(flush_out(t, b, true) == e);
    assert(hw.len() == j.len());
    let cs = seq![c];
    assert(cs[0] == c);
    assert(run(d, cs, 1, b, 0, e + e + hw) == e + e + hw + e);
    assert(e + e + hw + e =~= hw);
    assert forall|k: int| 0 <= k < j.len() implies starter_weights(
        d.expansions,
        data_value(d, j[k]),
    ) == seq![hw[k]] by {
        assert(record_marker(data_value(d, j[k])) == MARKER_STARTER_SINGLE);
    }
    // The jamo, one starter after another.
    assert(starter_marker(data_value(d, j[0])));
    assert(starter_marker(data_value(d, j[1])));
    let o1 = e + e + seq![hw[0]];
    let o2 = o1 + e + seq![hw[1]];
    if j.len() == 3 {
        assert(starter_marker(data_value(d, j[2])));
        let o3 = o2 + e + seq![hw[2]];
        assert(run(d, j, 3, b, 0, o3) == o3 + e);
        assert(run(d, j, 2, b, 0, o2) == run(d, j, 3, b, 0, o3));
        assert(run(d, j, 1, b, 0, o1) == run(d, j, 2, b, 0, o2));
        assert(o3 + e =~= hw);
    } else {
        assert(run(d, j, 2, b, 0, o2) == o2 + e);
        assert(run(d, j, 1, b, 0, o1) == run(d, j, 2, b, 0, o2));
        assert(o2 + e =~= hw);
    }
}

/// The buffered element of a non-starter with one weight word.
pub open spec fn mark_element(d: Tables, c: u32) -> CollationElement {
    CollationElement {
        ccc: record_ccc(data_value(d, c)),
        code: c,
        value: CollationElementValue::SingleWeights(record_weights(data_value(d, c))),
    }
}

/// A non-starter with one weight word in the tables.
pub open spec fn is_mark(d: Tables, c: u32) -> bool {
    record_marker(data_value(d, c)) == MARKER_NONSTARTER_SINGLE && record_ccc(data_value(d, c))
        != 0 && record_ccc(data_value(d, c)) != 0xFF
}

/// After a starter, two marks come out with the lower combining class first.
proof fn lemma_two_marks(d: Tables, s: u32, a: u32, b: u32)
    requires
        starter_marker(data_value(d, s)),
        is_mark(d, a),
        is_mark(d, b),
        record_ccc(data_value(d, a)) < record_ccc(data_value(d, b)),
    ensures
        weights_of(d, seq![s, a, b]) == starter_weights(d.expansions, data_value(d, s)) + seq![
            record_weights(data_value(d, a)),
            record_weights(data_value(d, b)),
        ],
        weights_of(d, seq![s, b, a]) == starter_weights(d.expansions, data_value(d, s)) + seq![
            record_weights(data_value(d, a)),
            record_weights(data_value(d, b)),
        ],
{
    let t = d.tries;
    let e = Seq::<u32>::empty();
    let none = Seq::<CollationElement>::empty();
    let sw = starter_weights(d.expansions, data_value(d, s));
    let wa = record_weights(data_value(d, a));
    let wb = record_weights(data_value(d, b));
    let ca = record_ccc(data_value(d, a));
    let cb = record_ccc(data_value(d, b));
    let ea = mark_element(d, a);
    let eb = mark_element(d, b);
    let o = e + flush_out(t, none, true) + sw;
    assert(flush_out(t, none, true) == e);
    assert(o =~= sw);
    // In order: nothing to reorder.
    let sab = seq![s, a, b];
    assert(sab[0] == s && sab[1] == a && sab[2] == b);
    let ab = none.push(ea).push(eb);
    assert(flat(t, ab) == flat(t, ab.drop_last()) + ce_weights(t, eb));
    assert(ab.drop_last() =~= none.push(ea));
    assert(flat(t, none.push(ea)) == flat(t, none.push(ea).drop_last()) + ce_weights(t, ea));
    assert(none.push(ea).drop_last() =~= none);
    assert(flush_out(t, ab, true) =~= seq![wa, wb]);
    assert(run(d, sab, 3, ab, cb, o) == o + flush_out(t, ab, cb != 0xFF));
    assert(run(d, sab, 2, none.push(ea), ca, o) == run(d, sab, 3, ab, cb, o));
    assert(run(d, sab, 1, none, 0, o) == run(d, sab, 2, none.push(ea), ca, o));
    assert(o + seq![wa, wb] =~= sw + seq![wa, wb]);
    // Out of order: sorted before it is written.
    let sba = seq![s, b, a];
    assert(sba[0] == s && sba[1] == b && sba[2] == a);
    let ba = none.push(eb).push(ea);
    assert(ba.len() == 2 && ba[0] == eb && ba[1] == ea);
    assert(!(ba[0].ccc == 0));
    assert(ba.drop_last() =~= none.push(eb));
    assert(none.push(eb).drop_last() =~= none);
    assert(sort_by_ccc(none.push(eb)) == insert_by_ccc(sort_by_ccc(none), eb));
    assert(insert_by_ccc(none, eb) == seq![eb]);
    assert(seq![eb].drop_last() =~= none);
    assert(insert_by_ccc(seq![eb], ea) == insert_by_ccc(none, ea).push(eb));
    assert(sort_by_ccc(ba) == insert_by_ccc(sort_by_ccc(ba.drop_last()), ea));
    let sorted = sort_by_ccc(ba);
    assert(sorted =~= seq![ea, eb]);
    assert(write_buf(t, sorted, 2, e + one_word(wa) + one_word(wb)) == e + one_word(wa) + one_word(wb));
    assert(write_buf(t, sorted, 1, e + one_word(wa)) == write_buf(
        t,
        sorted,
        2,
        e + one_word(wa) + one_word(wb),
    ));
    assert(write_buf(t, sorted, 0, e) == write_buf(t, sorted, 1, e + one_word(wa)));
    assert(flush_out(t, ba, false) =~= seq![wa, wb]);
    assert(run(d, sba, 3, ba, 0xFF, o) == o + flush_out(t, ba, false));
    assert(run(d, sba, 2, none.push(eb), cb, o) == run(d, sba, 3, ba, 0xFF, o));
    assert(run(d, sba, 1, none, 0, o) == run(d, sba, 2, none.push(eb), cb, o));
}

/// The weights of one word.
spec fn one_word(w: u32) -> Seq<u32> {
    seq![w]
}

/// Canonical reordering: after a starter, two marks of different combining classes give
/// the same weights in either order.
pub proof fn lemma_marks_commute(d: Tables, s: u32, a: u32, b: u32)
    requires
        starter_marker(data_value(d, s)),
        is_mark(d, a),
        is_mark(d, b),
        record_ccc(data_value(d, a)) != record_ccc(data_value(d, b)),
    ensures
        weights_of(d, seq![s, a, b]) == weights_of(d, seq![s, b, a]),
{
    if record_ccc(data_value(d, a)) < record_ccc(data_value(d, b)) {
        lemma_two_marks(d, s, a, b);
    } else {
        lemma_two_marks(d, s, b, a);
    }
}

/// Canonical equivalence of a precomposed character `c` followed by a mark `x` of lower
/// combining class, and of its decomposition into a starter `s` and a mark `n` with the
/// mark `x` put in canonical order between them, wherever the tables hold that
/// decomposition as the children of `c`'s node and give `s` and `n` the same weights as
/// those children.
pub proof fn lemma_decomposition_reordered(d: Tables, c: u32, x: u32, s: u32, n: u32)
    requires
        d.tries.len() <= 0x10000,
        record_marker(data_value(d, c)) == MARKER_STARTER_DECOMPOSITION,
        ({
            let t = d.tries;
            let p = record_pos(data_value(d, c)) as int;
            let ch = siblings(t, after_node(t, p), true);
            &&& p < t.len()
            &&& ch.len() == 2
            &&& !node_has_children(t[ch[0]])
            &&& node_code(t[ch[0]]) == s
            &&& node_code(t[ch[1]]) == n
            &&& starter_marker(data_value(d, s))
            &&& starter_weights(d.expansions, data_value(d, s)) == node_weights_at(t, ch[0])
            &&& is_mark(d, n)
            &&& record_ccc(data_value(d, n)) == node_ccc(t[ch[1]])
            &&& record_ccc(data_value(d, n)) == record_ccc_or_len(data_value(d, c))
            &&& table_slice(t, ch[1] + 1, node_weights_len(t[ch[1]]) as int) == seq![
                record_weights(data_value(d, n)),
            ]
        }),
        is_mark(d, x),
        record_ccc(data_value(d, x)) < record_ccc(data_value(d, n)),
    ensures
        weights_of(d, seq![c, x]) == weights_of(d, seq![s, x, n]),
{
    let t = d.tries;
    let e = Seq::<u32>::empty();
    let none = Seq::<CollationElement>::empty();
    let v = data_value(d, c);
    let p = record_pos(v) as int;
    let k = record_ccc_or_len(v);
    let ch = siblings(t, after_node(t, p), true);
    let qs = ch[0];
    let qn = ch[1];
    let wx = record_weights(data_value(d, x));
    let wn = record_weights(data_value(d, n));
    // The children lie in the table.
    lemma_iter_next_in_table(t, after_node(t, p), true);
    assert(iter_next(t, after_node(t, p), true) == Some(qs));
    lemma_iter_next_in_table(t, qs, false);
    assert(siblings(t, qs, false).len() == 1);
    assert(iter_next(t, qs, false) == Some(qn));
    assert(0 <= qn < t.len());
    // The precomposed character, then the mark: both buffered, reordering pending.
    let dc = CollationElement {
        ccc: 0,
        code: c,
        value: CollationElementValue::Decomposition(record_pos(v)),
    };
    let ex = mark_element(d, x);
    let buf = seq![dc].push(ex);
    let cx = seq![c, x];
    assert(cx[0] == c && cx[1] == x);
    assert(flush_out(t, none, true) == e);
    assert(run(d, cx, 2, buf, 0xFF, e + e) == e + e + flush_out(t, buf, false));
    assert(run(d, cx, 1, seq![dc], k, e + e) == run(d, cx, 2, buf, 0xFF, e + e));
    let wq = t[qn];
    assert(((wq >> 2) & 0x3F) as u8 <= 0x3F) by (bit_vector);
    assert(k != 0xFF && k != 0xFE);
    assert(run(d, cx, 0, none, 0, e) == run(d, cx, 1, seq![dc], k, e + e));
    // Taking the buffer apart puts the mark before the decomposition's own mark.
    let en = node_element(t[qn], qn);
    assert(ch.drop_first() =~= seq![qn]);
    assert(ch.drop_first().map_values(|q: int| node_element(t[q], q)) =~= seq![en]);
    assert(buf.drop_first() =~= seq![ex]);
    let both = seq![en] + seq![ex];
    assert(both.drop_last() =~= seq![en]);
    assert(seq![en].drop_last() =~= none);
    assert(sort_by_ccc(seq![en]) == insert_by_ccc(sort_by_ccc(none), en));
    assert(sort_by_ccc(both) == insert_by_ccc(sort_by_ccc(seq![en]), ex));
    assert(insert_by_ccc(seq![en], ex) == insert_by_ccc(none, ex).push(en));
    let sorted = seq![ex, en];
    assert(sort_by_ccc(both) =~= sorted);
    assert(decomposed(t, buf) == (Some(qs), sorted));
    let nw = node_weights_at(t, qs);
    assert(ce_weights(t, en) == seq![wn]);
    assert(write_buf(t, sorted, 2, nw + seq![wx] + seq![wn]) == nw + seq![wx] + seq![wn]);
    assert(write_buf(t, sorted, 1, nw + seq![wx]) == write_buf(
        t,
        sorted,
        2,
        nw + seq![wx] + seq![wn],
    ));
    assert(write_buf(t, sorted, 0, nw) == write_buf(t, sorted, 1, nw + seq![wx]));
    assert(flush_out(t, buf, false) == nw + seq![wx] + seq![wn]);
    // The decomposed form: the starter, then the marks in canonical order.
    lemma_two_marks(d, s, x, n);
    assert(e + e + (nw + seq![wx] + seq![wn]) =~= nw + seq![wx, wn]);
}

/// Stability: the key of a string depends on the tables, the string's code points and
/// the options alone.
pub proof fn lemma_key_stable(d: Tables, s1: Seq<u32>, s2: Seq<u32>, o: CollatorOptions)
    requires
        s1 == s2,
    ensures
        key_weights(weights_of(d, s1), o) == key_weights(weights_of(d, s2), o),
        levels_of(weights_of(d, s1), o) == levels_of(weights_of(d, s2), o),
{
}

} // verus!
