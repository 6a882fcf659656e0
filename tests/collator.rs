use unicode_collator::data::WeightsData;
use unicode_collator::key::{compare_keys, Key};
use unicode_collator::options::{AlternateHandling, CollatorOptions, Strength};
use unicode_collator::Collator;

/// A packed weight word.
fn w(l1: u32, l2: u32, l3: u32, variable: bool) -> u32 {
    l1 | (l2 << 16) | (l3 << 25) | ((variable as u32) << 30)
}

/// A trie node word.
fn node(code: u32, ccc: u32, has_children: bool, last: bool, weights_len: u32) -> u32 {
    (has_children as u32) | ((last as u32) << 1) | (ccc << 2) | (code << 8) | (weights_len << 26)
}

fn starter(weights: u32) -> u64 {
    1 | ((weights as u64) << 4)
}

fn expansion(pos: u64, len: u64) -> u64 {
    2 | (pos << 4) | (len << 20)
}

fn decomposition(pos: u64, ccc: u64) -> u64 {
    3 | (pos << 4) | (ccc << 20)
}

fn contraction(pos: u64) -> u64 {
    4 | (pos << 4) | (0xFF << 20)
}

fn nonstarter(weights: u32, ccc: u64) -> u64 {
    5 | ((weights as u64) << 4) | (ccc << 36)
}

/// Tables laid out as the resolver reads them: every block of the first tier points to
/// an empty block, but the blocks of the given code points.
struct Tables {
    index: Vec<u16>,
    scalars64: Vec<u64>,
    scalars32: Vec<u32>,
    expansions: Vec<u32>,
    tries: Vec<u32>,
}

fn tables(records: &[(u32, u64)], expansions: Vec<u32>, tries: Vec<u32>) -> Tables {
    let mut index = vec![0x600u16; 0x600];
    index.extend([0u16; 16]);
    let mut scalars64: Vec<u64> = vec![];
    for &(code, record) in records {
        let g = (code >> 7) as usize;
        if index[g] == 0x600 {
            index[g] = index.len() as u16;
            index.extend([0u16; 16]);
        }
        let cell = (index[g] as usize) | (((code & 0x7F) >> 3) as usize);
        if index[cell] == 0 {
            index[cell] = ((scalars64.len() << 1) | 1) as u16;
            scalars64.extend([0u64; 8]);
        }
        let slot = (index[cell] >> 1) as usize;
        scalars64[slot | (code & 7) as usize] = record;
    }
    Tables { index, scalars64, scalars32: vec![0u32; 8], expansions, tries }
}

fn collator(t: &Tables) -> Collator<'_> {
    Collator::from_baked(WeightsData {
        index: &t.index,
        scalars32: &t.scalars32,
        scalars64: &t.scalars64,
        expansions: &t.expansions,
        tries: &t.tries,
        continuous_block_end: 0,
    })
}

fn tertiary() -> CollatorOptions {
    CollatorOptions { strength: Strength::Tertiary, alternate: AlternateHandling::NonIgnorable }
}

fn key(c: &Collator, s: &str, o: CollatorOptions) -> Key {
    c.get_key(s, o)
}

const A: u32 = 0x2075;
const E: u32 = 0x20BF;

/// Latin a, e, f, space, combining acute and dot below, Cyrillic i and breve, tilde
/// overlay, ligature ff, e with acute, Hangul jamo and syllables.
fn sample() -> Tables {
    let wa = w(A, 0x20, 0x02, false);
    let we = w(E, 0x20, 0x02, false);
    let wf = w(0x2129, 0x20, 0x02, false);
    let acute = w(0, 0x24, 0x02, false);
    let dot = w(0, 0x42, 0x02, false);
    let breve = w(0, 0x25, 0x02, false);
    let overlay = w(0, 0x4A, 0x02, false);
    let expansions = vec![wf, wf];
    let mut tries = vec![];
    // U+0438 CYRILLIC SMALL I: own weights, and with U+0306 the weights of U+0439.
    tries.extend([node(0x438, 0, true, true, 1), w(0x2517, 0x20, 0x02, false)]);
    tries.extend([node(0x306, 46, false, true, 1), w(0x251B, 0x20, 0x02, false)]);
    // U+00E9: e + U+0301.
    let e_acute = tries.len() as u64;
    tries.extend([node(0xE9, 0, true, true, 2), we, acute]);
    tries.extend([node(0x65, 0, false, false, 1), we]);
    tries.extend([node(0x301, 46, false, true, 1), acute]);
    // "ch" contraction on c, with a child for h.
    let ch = tries.len() as u64;
    tries.extend([node(0x63, 0, true, true, 1), w(0x2000, 0x20, 0x02, false)]);
    tries.extend([node(0x68, 0, false, true, 1), w(0x2222, 0x20, 0x02, false)]);
    let records = [
        (0x61, starter(wa)),
        (0x65, starter(we)),
        (0x66, starter(wf)),
        (0x68, starter(w(0x2111, 0x20, 0x02, false))),
        (0x20, starter(w(0x0209, 0x20, 0x02, true))),
        (0x301, nonstarter(acute, 46)),
        (0x323, nonstarter(dot, 45)),
        (0x306, nonstarter(breve, 46)),
        (0x334, nonstarter(overlay, 1)),
        (0x438, contraction(0)),
        (0xE9, decomposition(e_acute, 46)),
        (0x63, contraction(ch)),
        (0xFB00, expansion(0, 2)),
        (0x1100, starter(0x4204323)),
        (0x1161, starter(0x42043A1)),
        (0x11A8, starter(0x42043FF)),
        (0xAC00, decomposition(0, 0xFE)),
        (0xAC01, decomposition(0, 0xFE)),
    ];
    tables(&records, expansions, tries)
}

#[test]
fn latin_small_a_levels() {
    let t = sample();
    let c = collator(&t);
    let k = key(&c, "a", tertiary());
    assert_eq!(k.weights, vec![A, 0, 0x20, 0, 0x02].iter().map(|&x| x as u16).collect::<Vec<u16>>());
    assert_eq!((k.l1_len, k.l2_len, k.l3_len), (1, 1, 1));
}

#[test]
fn cyrillic_reordered_nonstarters_match_contraction() {
    let t = sample();
    let c = collator(&t);
    let k = key(&c, "\u{0438}\u{0306}\u{0334}", tertiary());
    assert_eq!(k.weights, vec![0x251B, 0, 0x0020, 0x004A, 0, 0x0002, 0x0002]);
}

#[test]
fn contraction_head_alone_writes_own_weights() {
    let t = sample();
    let c = collator(&t);
    assert_eq!(c.get_weights("\u{0438}"), vec![w(0x2517, 0x20, 0x02, false)]);
}

#[test]
fn hangul_syllable_equals_jamo() {
    let t = sample();
    let c = collator(&t);
    let syllable = c.get_weights("\u{AC00}");
    assert_eq!(syllable, c.get_weights("\u{1100}\u{1161}"));
    assert_eq!(syllable, vec![0x4204323, 0x42043A1]);
    assert_eq!(key(&c, "\u{AC00}", tertiary()).weights, key(&c, "\u{1100}\u{1161}", tertiary()).weights);
}

#[test]
fn hangul_syllable_with_trailing_consonant() {
    let t = sample();
    let c = collator(&t);
    assert_eq!(c.get_weights("\u{AC01}"), vec![0x4204323, 0x42043A1, 0x42043FF]);
    assert_eq!(c.get_weights("\u{AC01}"), c.get_weights("\u{1100}\u{1161}\u{11A8}"));
}

#[test]
fn ligature_expansion_two_f_primaries() {
    let t = sample();
    let c = collator(&t);
    let k = key(&c, "\u{FB00}", tertiary());
    assert_eq!(&k.weights[..k.l1_len], &[0x2129, 0x2129]);
    assert_eq!(k.weights, key(&c, "ff", tertiary()).weights);
}

#[test]
fn implicit_han_core() {
    let t = sample();
    let c = collator(&t);
    let k = key(&c, "\u{4E00}", tertiary());
    assert_eq!(k.weights, vec![0xFB40, 0xCE00, 0, 0x20, 0, 0x02]);
    assert_eq!(c.get_weights("\u{4E00}"), vec![0xFB40 | 0x4200000, 0xCE00]);
}

#[test]
fn shifted_quaternary_space_before_a() {
    let t = sample();
    let c = collator(&t);
    let o = CollatorOptions { strength: Strength::Quaternary, alternate: AlternateHandling::Shifted };
    let spaced = key(&c, " a", o);
    let plain = key(&c, "a", o);
    assert_eq!(spaced.weights, vec![A as u16, 0, 0x20, 0, 0x02, 0, 0x0209, 0xFFFF]);
    assert_eq!(plain.weights, vec![A as u16, 0, 0x20, 0, 0x02, 0, 0xFFFF]);
    let upto3 = plain.l1_len + plain.l2_len + plain.l3_len + 2;
    assert_eq!(&spaced.weights[..upto3], &plain.weights[..upto3]);
}

#[test]
fn shifted_tertiary_ignores_space() {
    let t = sample();
    let c = collator(&t);
    let o = CollatorOptions { strength: Strength::Tertiary, alternate: AlternateHandling::Shifted };
    assert_eq!(key(&c, " a", o).weights, key(&c, "a", o).weights);
    assert_ne!(key(&c, " a", tertiary()).weights, key(&c, "a", tertiary()).weights);
}

#[test]
fn contraction_followed_by_other_starter() {
    let t = sample();
    let c = collator(&t);
    let mut joined = c.get_weights("c");
    joined.extend(c.get_weights("a"));
    assert_eq!(c.get_weights("ca"), joined);
    assert_eq!(c.get_weights("c"), vec![w(0x2000, 0x20, 0x02, false)]);
}

#[test]
fn contraction_matches_following_starter() {
    let t = sample();
    let c = collator(&t);
    assert_eq!(c.get_weights("ch"), vec![w(0x2222, 0x20, 0x02, false)]);
    assert_eq!(
        c.get_weights("cha"),
        vec![w(0x2222, 0x20, 0x02, false), w(A, 0x20, 0x02, false)]
    );
}

#[test]
fn contraction_head_before_nonstarter() {
    let t = sample();
    let c = collator(&t);
    assert_eq!(
        c.get_weights("c\u{301}"),
        vec![w(0x2000, 0x20, 0x02, false), w(0, 0x24, 0x02, false)]
    );
}

#[test]
fn precomposed_equals_decomposed() {
    let t = sample();
    let c = collator(&t);
    assert_eq!(c.get_weights("\u{E9}"), c.get_weights("e\u{301}"));
    assert_eq!(key(&c, "\u{E9}", tertiary()).weights, key(&c, "e\u{301}", tertiary()).weights);
}

#[test]
fn precomposed_with_lower_class_mark_is_reordered() {
    let t = sample();
    let c = collator(&t);
    let expected = vec![w(E, 0x20, 0x02, false), w(0, 0x42, 0x02, false), w(0, 0x24, 0x02, false)];
    assert_eq!(c.get_weights("\u{E9}\u{323}"), expected);
    assert_eq!(c.get_weights("e\u{323}\u{301}"), expected);
    assert_eq!(c.get_weights("e\u{301}\u{323}"), expected);
}

#[test]
fn level_prefix_is_primary_key() {
    let t = sample();
    let c = collator(&t);
    let s = "\u{E9}a \u{FB00}";
    for alternate in [AlternateHandling::NonIgnorable, AlternateHandling::Shifted] {
        let primary = key(&c, s, CollatorOptions { strength: Strength::Primary, alternate });
        for strength in [Strength::Primary, Strength::Secondary, Strength::Tertiary, Strength::Quaternary] {
            let k = key(&c, s, CollatorOptions { strength, alternate });
            assert_eq!(&k.weights[..k.l1_len], &primary.weights[..]);
        }
    }
}

#[test]
fn keys_are_stable() {
    let t = sample();
    let c = collator(&t);
    let o = CollatorOptions { strength: Strength::Quaternary, alternate: AlternateHandling::Shifted };
    assert_eq!(key(&c, "a \u{E9}\u{4E00}", o).weights, key(&c, "a \u{E9}\u{4E00}", o).weights);
}

#[test]
fn empty_string_key() {
    let t = sample();
    let c = collator(&t);
    assert_eq!(key(&c, "", tertiary()).weights, vec![0, 0]);
    assert!(c.get_weights("").is_empty());
}

#[test]
fn keys_order_by_levels() {
    let t = sample();
    let c = collator(&t);
    let a = key(&c, "a", tertiary()).weights;
    let e = key(&c, "e", tertiary()).weights;
    let e_acute = key(&c, "\u{E9}", tertiary()).weights;
    assert_eq!(compare_keys(&a, &e), core::cmp::Ordering::Less);
    assert_eq!(compare_keys(&e, &e_acute), core::cmp::Ordering::Less);
    assert_eq!(compare_keys(&e_acute, &e_acute), core::cmp::Ordering::Equal);
}
