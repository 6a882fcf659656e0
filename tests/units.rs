use unicode_collator::codepoint::{CodepointWithData, CodepointsIter};
use unicode_collator::collation_element::{CollationElement, CollationElementValue};
use unicode_collator::data::resolve;
use unicode_collator::hangul::write_hangul_syllable;
use unicode_collator::implicit::{
    implicit_weights, is_han_core, is_han_other, is_khitan, is_nushu, is_tangut,
};
use unicode_collator::key::{compare_keys, compose_key, output_weights};
use unicode_collator::options::{
    AlternateHandling, CollatorOptions, CollatorOptionsValue, Strength,
};
use unicode_collator::trie::{TrieIter, TrieNode};
use unicode_collator::weights::Weights;
use core::cmp::Ordering;

fn w(l1: u32, l2: u32, l3: u32, variable: bool) -> u32 {
    l1 | (l2 << 16) | (l3 << 25) | ((variable as u32) << 30)
}

fn node(code: u32, ccc: u32, has_children: bool, last: bool, weights_len: u32) -> u32 {
    (has_children as u32) | ((last as u32) << 1) | (ccc << 2) | (code << 8) | (weights_len << 26)
}

#[test]
fn weights_levels_and_format() {
    let space = Weights::from(w(0x0209, 0x20, 0x02, true));
    assert_eq!((space.l1(), space.l2(), space.l3(), space.is_variable()), (0x0209, 0x20, 0x02, true));
    assert_eq!(space.format(), "[*0209.0020.0002]");
    let capital = Weights(w(0x1FA2, 0x20, 0x08, false));
    assert_eq!(capital.format(), "[.1FA2.0020.0008]");
    assert_eq!(capital.value(), w(0x1FA2, 0x20, 0x08, false));
    let mark = Weights(w(0, 0x1FF, 0x1F, false));
    assert_eq!(mark.format(), "[.0000.01FF.001F]");
}

#[test]
fn implicit_ranges() {
    assert!(is_han_core(0x4E00) && is_han_core(0x9FFF) && !is_han_core(0xA000));
    assert!(is_han_other(0x3400) && is_han_other(0x323AF) && !is_han_other(0x2A6E0));
    assert!(is_tangut(0x18D08) && !is_tangut(0x18D09));
    assert!(is_nushu(0x1B2FB) && !is_nushu(0x1B2FC));
    assert!(is_khitan(0x18B00) && !is_khitan(0x18CD6));
}

#[test]
fn implicit_weights_by_range() {
    let first = 0x4200000;
    assert_eq!(implicit_weights(0x4E00), [0xFB40 | first, 0xCE00]);
    assert_eq!(implicit_weights(0x3400), [0xFB80 | first, 0xB400]);
    assert_eq!(implicit_weights(0x20000), [0xFB84 | first, 0x8000]);
    assert_eq!(implicit_weights(0x17001), [0xFB00 | first, 0x8001]);
    assert_eq!(implicit_weights(0x1B171), [0xFB01 | first, 0x8001]);
    assert_eq!(implicit_weights(0x18B05), [0xFB02 | first, 0x8005]);
    assert_eq!(implicit_weights(0xE000), [0xFBC1 | first, 0xE000]);
    assert_eq!(implicit_weights(0x10FFFF), [0xFBE1 | first, 0xFFFF]);
}

#[test]
fn hangul_syllable_weights() {
    let mut r = vec![7];
    write_hangul_syllable(0xAC00, &mut r);
    assert_eq!(r, vec![7, 0x4204323, 0x42043A1]);
    let mut last = vec![];
    write_hangul_syllable(0xD7A3, &mut last);
    assert_eq!(last, vec![0x4204323 + 18, 0x42043A1 + 20, 0x42043FE + 27]);
}

#[test]
fn trie_node_fields() {
    let tries = [node(0x301, 46, true, false, 2), 11, 12];
    let n = TrieNode::from_slice(&tries, 0);
    assert_eq!((n.code(), n.ccc(), n.has_children(), n.weights_len()), (0x301, 46, true, 2));
    assert!(!n.is_starter());
    assert_eq!((n.pos(), n.weights_offset(), n.next_offset(), n.next_pos()), (0, 1, 3, 3));
    assert_eq!(n.weights(&tries), &[11, 12]);
    let e = n.as_ce_weights();
    assert_eq!((e.ccc, e.code), (46, 0x301));
    assert!(matches!(e.value, CollationElementValue::TrieWeights(1, 2)));
    assert!(matches!(n.as_ce_trie().value, CollationElementValue::Trie(0)));
    assert_eq!(n.as_ce_trie_node().ccc, 0);
    assert_eq!(TrieNode::new(5, 9).pos(), TrieNode::from_value(5, 9).pos());
    assert_eq!(TrieNode::from(&tries, 0).code(), 0x301);
}

#[test]
fn trie_iter_skips_subtries() {
    // A with children B (children D, E) and C; then F, the last sibling of A.
    let tries = vec![
        node(0xA, 0, true, false, 1), 100,
        node(0xB, 0, true, false, 0),
        node(0xD, 0, false, false, 0),
        node(0xE, 0, false, true, 1), 101,
        node(0xC, 0, false, true, 0),
        node(0xF, 0, false, true, 2), 102, 103,
    ];
    let mut top = TrieIter::new(&tries, 0);
    let codes: Vec<u32> = [top.next(), top.next(), top.next()]
        .iter()
        .map(|n| n.map(|n| n.code()).unwrap_or(0))
        .collect();
    assert_eq!(codes, vec![0xA, 0xF, 0]);
    let mut children = TrieIter::new(&tries, 2);
    assert_eq!(children.next().map(|n| n.code()), Some(0xB));
    assert_eq!(children.next().map(|n| n.pos()), Some(6));
    assert_eq!(children.current_node().code(), 0xC);
    assert!(children.next().is_none());
}

#[test]
fn codepoint_records() {
    let single = CodepointWithData { data: 1 | (0x1234_5678u64 << 4) | (7u64 << 36), code: 0x61 };
    assert_eq!((single.marker(), single.single_weights(), single.single_weights_ccc()), (1, 0x1234_5678, 7));
    assert!(single.is_starter());
    let expansion = CodepointWithData { data: 2 | (1u64 << 4) | (2u64 << 20), code: 0xFB00 };
    let table = [9, 10, 11, 12];
    assert_eq!(expansion.expansion_weights(&table), &[10, 11]);
    assert_eq!((expansion.data_pos(), expansion.ccc_or_len()), (1, 2));
    let mut out = vec![];
    expansion.write_starter_weights(&mut out, &table);
    single.write_starter_weights(&mut out, &table);
    assert_eq!(out, vec![10, 11, 0x1234_5678]);
    let too_long = CodepointWithData { data: 2 | (3u64 << 4) | (2u64 << 20), code: 1 };
    assert!(too_long.expansion_weights(&table).is_empty());
    let ce = single.as_ce_single_weights();
    assert_eq!((ce.ccc, ce.code), (7, 0x61));
    let d = CodepointWithData { data: 3 | (5u64 << 4), code: 0xE9 }.as_ce_decomposition();
    assert!(d.is_starter() && matches!(d.value, CollationElementValue::Decomposition(5)));
}

#[test]
fn resolver_and_codepoints_iter() {
    // Block of U+0080..U+00FF at cell 0x610; U+00E9 in the odd cell of its group of eight.
    let mut index = vec![0x600u16; 0x600];
    index.extend([0u16; 16]);
    index[1] = 0x610;
    index.extend([0u16; 16]);
    index[0x610 | (0x69 >> 3)] = 1;
    let mut scalars64 = vec![0u64; 8];
    scalars64[0xE9 & 7] = 0xABCD1;
    let scalars32 = vec![0u32; 8];
    assert_eq!(resolve(&index, &scalars64, &scalars32, 0, 0xE9), 0xABCD1);
    assert_eq!(resolve(&index, &scalars64, &scalars32, 0, 0xEA), 0);
    assert_eq!(resolve(&index, &scalars64, &scalars32, 0, 0x30000), 0);
    let mut it = CodepointsIter::new("\u{E9}b", &scalars64, &scalars32, &index, 0);
    let first = it.next().unwrap();
    assert_eq!((first.code, first.data), (0xE9, 0xABCD1));
    assert_eq!(it.next().map(|c| (c.code, c.data)), Some((0x62, 0)));
    assert!(it.next().is_none());
}

#[test]
fn options_pack_and_defaults() {
    let o = CollatorOptions { strength: Strength::Quaternary, alternate: AlternateHandling::Shifted };
    let packed = CollatorOptionsValue::from(o);
    assert_eq!(u16::from(packed), 12);
    assert_eq!(CollatorOptions::from(packed), o);
    assert_eq!(CollatorOptions::from(CollatorOptionsValue(7)).strength, Strength::Tertiary);
    let d = CollatorOptions::default();
    assert_eq!((d.strength, d.alternate), (Strength::Tertiary, AlternateHandling::NonIgnorable));
    assert_eq!(Strength::Secondary.level(), 2);
}

#[test]
fn compare_keys_cases() {
    assert_eq!(compare_keys(&vec![1, 2], &vec![1, 3]), Ordering::Less);
    assert_eq!(compare_keys(&vec![1, 4], &vec![1, 3, 0]), Ordering::Greater);
    assert_eq!(compare_keys(&vec![1, 3], &vec![1, 3, 0]), Ordering::Less);
    assert_eq!(compare_keys(&vec![1, 3, 0], &vec![1, 3]), Ordering::Greater);
    assert_eq!(compare_keys(&vec![], &vec![]), Ordering::Equal);
}

#[test]
fn output_weights_levels() {
    let ws = vec![w(0x2075, 0x20, 0x02, false), w(0, 0x24, 0x02, false), w(0, 0, 0, false)];
    assert_eq!(output_weights(&ws), vec![0x2075, 0, 0x20, 0x24, 0, 0x02, 0x02]);
}

#[test]
fn non_ignorable_strengths() {
    let ws = vec![w(0x0209, 0x20, 0x02, true), w(0x2075, 0x20, 0x08, false)];
    let key = |strength| compose_key(&ws, CollatorOptions { strength, alternate: AlternateHandling::NonIgnorable });
    assert_eq!(key(Strength::Primary).weights, vec![0x0209, 0x2075]);
    assert_eq!(key(Strength::Secondary).weights, vec![0x0209, 0x2075, 0, 0x20, 0x20]);
    assert_eq!(key(Strength::Quaternary).weights, key(Strength::Tertiary).weights);
    let k = key(Strength::Primary);
    assert_eq!((k.l1_len, k.l2_len, k.l3_len), (2, 0, 0));
}

#[test]
fn shifted_quaternary_rules() {
    let o = CollatorOptions { strength: Strength::Quaternary, alternate: AlternateHandling::Shifted };
    // A combining mark after a variable weight is ignored at every level.
    let after_variable = vec![w(0x0209, 0x20, 0x02, true), w(0, 0x24, 0x02, false)];
    assert_eq!(compose_key(&after_variable, o).weights, vec![0, 0, 0, 0x0209]);
    // Not after a variable weight it gives FFFF.
    let alone = vec![w(0, 0x24, 0x02, false)];
    assert_eq!(compose_key(&alone, o).weights, vec![0, 0x24, 0, 0x02, 0, 0xFFFF]);
    // The primary weight 1 (U+FFFE) gives 0001.
    let sentinel = vec![w(1, 0x20, 0x02, false)];
    assert_eq!(compose_key(&sentinel, o).weights, vec![1, 0, 0x20, 0, 0x02, 0, 0x0001]);
    // Fully ignorable weights are skipped.
    assert_eq!(compose_key(&vec![0], o).weights, vec![0, 0, 0]);
}

#[test]
fn shifted_secondary_skips_ignorable_after_variable() {
    let o = CollatorOptions { strength: Strength::Secondary, alternate: AlternateHandling::Shifted };
    let ws = vec![w(0x0209, 0x20, 0x02, true), w(0, 0x24, 0x02, false), w(0x2075, 0x20, 0x02, false)];
    let k = compose_key(&ws, o);
    assert_eq!(k.weights, vec![0x2075, 0, 0x20]);
    assert_eq!((k.l1_len, k.l2_len), (1, 1));
}

#[test]
fn collation_element_starter() {
    let ce = CollationElement { ccc: 0, code: 0x61, value: CollationElementValue::SingleWeights(1) };
    assert!(ce.is_starter());
    let mark = CollationElement { ccc: 3, code: 0x301, value: CollationElementValue::SingleWeights(1) };
    assert!(!mark.is_starter());
}

#[test]
fn next_or_else_runs_at_the_end() {
    let tries = vec![node(0xA, 0, false, true, 0)];
    let mut it = TrieIter::new(&tries, 0);
    let mut ended = false;
    assert_eq!(it.next_or_else(|| ended = true).map(|n| n.code()), Some(0xA));
    assert!(!ended);
    assert!(it.next_or_else(|| ended = true).is_none());
    assert!(ended);

    let index = vec![0x600u16; 0x610];
    let scalars64: Vec<u64> = vec![];
    let scalars32 = vec![0u32; 8];
    let mut codes = CodepointsIter::new("x", &scalars64, &scalars32, &index, 0);
    let mut done = 0;
    assert_eq!(codes.next_or_else(|| done += 1).map(|c| c.code), Some(0x78));
    assert!(codes.next_or_else(|| done += 1).is_none());
    assert_eq!(done, 1);
}
