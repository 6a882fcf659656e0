//! The sort key: the weight words split by level, under the strength and the handling
//! of variable weights that the options ask for.
use vstd::prelude::*;
use crate::options::{strength_level, AlternateHandling, CollatorOptions, Strength};
use crate::weights::{level1, level2, level3, variable, Weights};

verus! {

/// A sort key and the lengths of its first three levels.
#[derive(Clone)]
pub struct Key {
    /// The levels, each after a 0 separator but the first.
    pub weights: Vec<u16>,
    /// Number of primary weights.
    pub l1_len: usize,
    /// Number of secondary weights.
    pub l2_len: usize,
    /// Number of tertiary weights.
    pub l3_len: usize,
}

/// The four levels gathered so far, and whether the last weight that counted was variable.
pub struct Levels {
    pub following_variable: bool,
    pub l1: Seq<u16>,
    pub l2: Seq<u16>,
    pub l3: Seq<u16>,
    pub l4: Seq<u16>,
}

/// `s` with `x` appended, unless `x` is zero.
pub open spec fn push_nonzero(s: Seq<u16>, x: u16) -> Seq<u16> {
    if x != 0 {
        s.push(x)
    } else {
        s
    }
}

/// One weight word under `NonIgnorable`: its nonzero weights of each level compared.
pub open spec fn non_ignorable_step(st: Levels, w: u32, strength: Strength) -> Levels {
    Levels {
        following_variable: st.following_variable,
        l1: push_nonzero(st.l1, level1(w)),
        l2: if strength_level(strength) >= 2 {
            push_nonzero(st.l2, level2(w))
        } else {
            st.l2
        },
        l3: if strength_level(strength) >= 3 {
            push_nonzero(st.l3, level3(w))
        } else {
            st.l3
        },
        l4: st.l4,
    }
}

/// One weight word under `Shifted`. A variable weight counts only at the fourth level,
/// where its primary weight goes; an ignorable weight right after one does not count.
/// At the fourth level a weight that counts gives `FFFF`, but `0001` for the primary
/// weight 1 (U+FFFE), and nothing for a non-variable weight with a primary and no
/// tertiary weight.
pub open spec fn shifted_step(st: Levels, w: u32, strength: Strength) -> Levels {
    let l1 = level1(w);
    let l3 = level3(w);
    match strength {
        Strength::Primary => if !variable(w) {
            Levels { l1: push_nonzero(st.l1, l1), ..st }
        } else {
            st
        },
        Strength::Secondary | Strength::Tertiary => if variable(w) {
            Levels { following_variable: true, ..st }
        } else if st.following_variable && l1 == 0 {
            st
        } else {
            Levels {
                following_variable: false,
                l1: push_nonzero(st.l1, l1),
                l2: push_nonzero(st.l2, level2(w)),
                l3: if strength == Strength::Tertiary {
                    push_nonzero(st.l3, l3)
                } else {
                    st.l3
                },
                l4: st.l4,
            }
        },
        Strength::Quaternary => if w == 0 || (l1 == 0 && l3 != 0 && st.following_variable) {
            st
        } else {
            let l4a = if l1 == 0 && l3 != 0 {
                st.l4.push(0xFFFF)
            } else {
                st.l4
            };
            if l1 != 0 && variable(w) {
                Levels { following_variable: true, l4: l4a.push(l1), ..st }
            } else {
                Levels {
                    following_variable: variable(w),
                    l1: push_nonzero(st.l1, l1),
                    l2: push_nonzero(st.l2, level2(w)),
                    l3: push_nonzero(st.l3, l3),
                    l4: if l1 == 1 {
                        l4a.push(1)
                    } else if l1 != 0 && l3 != 0 {
                        l4a.push(0xFFFF)
                    } else {
                        l4a
                    },
                }
            }
        },
    }
}

/// One weight word under the options.
pub open spec fn level_step(st: Levels, w: u32, o: CollatorOptions) -> Levels {
    match o.alternate {
        AlternateHandling::NonIgnorable => non_ignorable_step(st, w, o.strength),
        AlternateHandling::Shifted => shifted_step(st, w, o.strength),
    }
}

/// The levels of the weight words `ws`.
pub open spec fn levels_of(ws: Seq<u32>, o: CollatorOptions) -> Levels
    decreases ws.len(),
{
    if ws.len() == 0 {
        Levels {
            following_variable: false,
            l1: Seq::empty(),
            l2: Seq::empty(),
            l3: Seq::empty(),
            l4: Seq::empty(),
        }
    } else {
        level_step(levels_of(ws.drop_last(), o), ws.last(), o)
    }
}

/// The key of the weight words `ws`: the primary weights, then a 0 and the secondary
/// weights from `Secondary` on, a 0 and the tertiary weights from `Tertiary` on, and at
/// `Quaternary` under `Shifted` a 0 and the fourth level.
pub open spec fn key_weights(ws: Seq<u32>, o: CollatorOptions) -> Seq<u16> {
    let lv = levels_of(ws, o);
    let n = strength_level(o.strength);
    lv.l1 + (if n >= 2 {
        seq![0u16] + lv.l2
    } else {
        Seq::empty()
    }) + (if n >= 3 {
        seq![0u16] + lv.l3
    } else {
        Seq::empty()
    }) + (if n >= 4 && o.alternate == AlternateHandling::Shifted {
        seq![0u16] + lv.l4
    } else {
        Seq::empty()
    })
}

/// The key of `ws` under `o`, with the lengths of its levels.
pub open spec fn is_key_of(k: Key, ws: Seq<u32>, o: CollatorOptions) -> bool {
    &&& k.weights@ == key_weights(ws, o)
    &&& k.l1_len == levels_of(ws, o).l1.len()
    &&& k.l2_len == levels_of(ws, o).l2.len()
    &&& k.l3_len == levels_of(ws, o).l3.len()
}

/// Appends `x` to `v` unless it is zero.
fn push_nonzero_to(v: &mut Vec<u16>, x: u16)
    ensures
        final(v)@ == push_nonzero(old(v)@, x),
{
    if x != 0 {
        v.push(x);
    }
}

/// Appends a 0 separator and `from` to `to`.
fn append_level(to: &mut Vec<u16>, from: &Vec<u16>)
    ensures
        final(to)@ == old(to)@ + (seq![0u16] + from@),
{
    to.push(0);
    let mut i: usize = 0;
    while i < from.len()
        invariant
            i <= from@.len(),
            to@ == old(to)@ + (seq![0u16] + from@.subrange(0, i as int)),
        decreases from@.len() - i,
    {
        to.push(from[i]);
        i = i + 1;
        assert(to@ =~= old(to)@ + (seq![0u16] + from@.subrange(0, i as int)));
    }
    assert(from@.subrange(0, i as int) =~= from@);
}

/// Joins the levels into a key.
fn assemble(
    primary: Vec<u16>,
    secondary: &Vec<u16>,
    tertiary: &Vec<u16>,
    quaternary: &Vec<u16>,
    options: CollatorOptions,
) -> (r: Key)
    ensures
        r.weights@ == primary@ + (if strength_level(options.strength) >= 2 {
            seq![0u16] + secondary@
        } else {
            Seq::empty()
        }) + (if strength_level(options.strength) >= 3 {
            seq![0u16] + tertiary@
        } else {
            Seq::empty()
        }) + (if strength_level(options.strength) >= 4 && options.alternate
            == AlternateHandling::Shifted {
            seq![0u16] + quaternary@
        } else {
            Seq::empty()
        }),
        r.l1_len == primary@.len(),
        r.l2_len == secondary@.len(),
        r.l3_len == tertiary@.len(),
{
    let l1_len = primary.len();
    let mut weights = primary;
    let n = options.strength.level();
    let ghost p = weights@;
    if n >= 2 {
        append_level(&mut weights, secondary);
    }
    let ghost p2 = weights@;
    assert(n < 2 ==> p2 =~= p + Seq::<u16>::empty());
    if n >= 3 {
        append_level(&mut weights, tertiary);
    }
    let ghost p3 = weights@;
    assert(n < 3 ==> p3 =~= p2 + Seq::<u16>::empty());
    let shifted = match options.alternate {
        AlternateHandling::Shifted => true,
        AlternateHandling::NonIgnorable => false,
    };
    if n >= 4 && shifted {
        append_level(&mut weights, quaternary);
    }
    assert(!(n >= 4 && shifted) ==> weights@ =~= p3 + Seq::<u16>::empty());
    Key { weights, l1_len, l2_len: secondary.len(), l3_len: tertiary.len() }
}

/// The key of the weight words `u32_weights` under `options`.
pub fn compose_key(u32_weights: &Vec<u32>, options: CollatorOptions) -> (r: Key)
    ensures
        is_key_of(r, u32_weights@, options),
{
    match options.alternate {
        AlternateHandling::NonIgnorable => compose_non_ignorable_key(u32_weights, options.strength),
        AlternateHandling::Shifted => compose_shifted_key(u32_weights, options.strength),
    }
}

/// The key under `NonIgnorable`.
pub fn compose_non_ignorable_key(weights: &Vec<u32>, strength: Strength) -> (r: Key)
    ensures
        is_key_of(
            r,
            weights@,
            CollatorOptions { strength, alternate: AlternateHandling::NonIgnorable },
        ),
{
    let ghost o = CollatorOptions { strength, alternate: AlternateHandling::NonIgnorable };
    let mut primary: Vec<u16> = Vec::new();
    let mut secondary: Vec<u16> = Vec::new();
    let mut tertiary: Vec<u16> = Vec::new();
    let quaternary: Vec<u16> = Vec::new();
    let n = strength.level();
    let mut i: usize = 0;
    while i < weights.len()
        invariant
            i <= weights@.len(),
            n == strength_level(strength),
            o == (CollatorOptions { strength, alternate: AlternateHandling::NonIgnorable }),
            ({
                let lv = levels_of(weights@.subrange(0, i as int), o);
                &&& primary@ == lv.l1
                &&& secondary@ == lv.l2
                &&& tertiary@ == lv.l3
                &&& quaternary@ == lv.l4
            }),
        decreases weights@.len() - i,
    {
        let w = Weights(weights[i]);
        push_nonzero_to(&mut primary, w.l1());
        if n >= 2 {
            push_nonzero_to(&mut secondary, w.l2());
        }
        if n >= 3 {
            push_nonzero_to(&mut tertiary, w.l3());
        }
        assert(weights@.subrange(0, i + 1).drop_last() =~= weights@.subrange(0, i as int));
        i = i + 1;
    }
    assert(weights@.subrange(0, i as int) =~= weights@);
    assemble(
        primary,
        &secondary,
        &tertiary,
        &quaternary,
        CollatorOptions { strength, alternate: AlternateHandling::NonIgnorable },
    )
}

/// The key under `Shifted`.
pub fn compose_shifted_key(weights: &Vec<u32>, strength: Strength) -> (r: Key)
    ensures
        is_key_of(r, weights@, CollatorOptions { strength, alternate: AlternateHandling::Shifted }),
{
    let ghost o = CollatorOptions { strength, alternate: AlternateHandling::Shifted };
    let mut primary: Vec<u16> = Vec::new();
    let mut secondary: Vec<u16> = Vec::new();
    let mut tertiary: Vec<u16> = Vec::new();
    let mut quaternary: Vec<u16> = Vec::new();
    let mut following_a_variable = false;
    let mut i: usize = 0;
    while i < weights.len()
        invariant
            i <= weights@.len(),
            o == (CollatorOptions { strength, alternate: AlternateHandling::Shifted }),
            ({
                let lv = levels_of(weights@.subrange(0, i as int), o);
                &&& primary@ == lv.l1
                &&& secondary@ == lv.l2
                &&& tertiary@ == lv.l3
                &&& quaternary@ == lv.l4
                &&& following_a_variable == lv.following_variable
            }),
        decreases weights@.len() - i,
    {
        let entry = Weights(weights[i]);
        let l1 = entry.l1();
        let l3 = entry.l3();
        let is_variable = entry.is_variable();
        assert(weights@.subrange(0, i + 1).drop_last() =~= weights@.subrange(0, i as int));
        i = i + 1;
        match strength {
            Strength::Primary => {
                if !is_variable {
                    push_nonzero_to(&mut primary, l1);
                }
            },
            Strength::Secondary | Strength::Tertiary => {
                if is_variable {
                    following_a_variable = true;
                } else if !(following_a_variable && l1 == 0) {
                    push_nonzero_to(&mut primary, l1);
                    push_nonzero_to(&mut secondary, entry.l2());
                    if strength == Strength::Tertiary {
                        push_nonzero_to(&mut tertiary, l3);
                    }
                    following_a_variable = false;
                }
            },
            Strength::Quaternary => {
                if !(entry.value() == 0 || (l1 == 0 && l3 != 0 && following_a_variable)) {
                    if l1 == 0 && l3 != 0 {
                        quaternary.push(0xFFFF);
                    }
                    if l1 != 0 && is_variable {
                        following_a_variable = true;
                        quaternary.push(l1);
                    } else {
                        if l1 == 1 {
                            quaternary.push(1);
                        } else if l1 != 0 && l3 != 0 {
                            quaternary.push(0xFFFF);
                        }
                        push_nonzero_to(&mut primary, l1);
                        push_nonzero_to(&mut secondary, entry.l2());
                        push_nonzero_to(&mut tertiary, l3);
                        following_a_variable = is_variable;
                    }
                }
            },
        }
    }
    assert(weights@.subrange(0, i as int) =~= weights@);
    assemble(
        primary,
        &secondary,
        &tertiary,
        &quaternary,
        CollatorOptions { strength, alternate: AlternateHandling::Shifted },
    )
}

/// Comparison of keys: the first differing weight decides; where one key is a prefix of
/// the other, the shorter comes first.
pub open spec fn key_cmp(a: Seq<u16>, b: Seq<u16>) -> core::cmp::Ordering
    decreases a.len(),
{
    if a.len() == 0 {
        if b.len() == 0 {
            core::cmp::Ordering::Equal
        } else {
            core::cmp::Ordering::Less
        }
    } else if b.len() == 0 {
        core::cmp::Ordering::Greater
    } else if a[0] < b[0] {
        core::cmp::Ordering::Less
    } else if a[0] > b[0] {
        core::cmp::Ordering::Greater
    } else {
        key_cmp(a.drop_first(), b.drop_first())
    }
}

/// Compares two keys.
pub fn compare_keys(a: &Vec<u16>, b: &Vec<u16>) -> (r: core::cmp::Ordering)
    ensures
        r == key_cmp(a@, b@),
{
    let mut i: usize = 0;
    assert(a@.skip(0) =~= a@);
    assert(b@.skip(0) =~= b@);
    loop
        invariant
            i <= a@.len(),
            i <= b@.len(),
            key_cmp(a@.skip(i as int), b@.skip(i as int)) == key_cmp(a@, b@),
        decreases a@.len() - i,
    {
        if i == a.len() {
            if i == b.len() {
                return core::cmp::Ordering::Equal;
            } else {
                return core::cmp::Ordering::Less;
            }
        }
        if i == b.len() {
            return core::cmp::Ordering::Greater;
        }
        if a[i] < b[i] {
            return core::cmp::Ordering::Less;
        }
        if a[i] > b[i] {
            return core::cmp::Ordering::Greater;
        }
        assert(a@.skip(i as int).drop_first() =~= a@.skip(i + 1));
        assert(b@.skip(i as int).drop_first() =~= b@.skip(i + 1));
        i = i + 1;
    }
}

/// The default options: `Tertiary`, `NonIgnorable`.
pub open spec fn default_options() -> CollatorOptions {
    CollatorOptions { strength: Strength::Tertiary, alternate: AlternateHandling::NonIgnorable }
}

/// The key of `from` under the default options: the nonzero primary weights, 0, the
/// nonzero secondary weights, 0, the nonzero tertiary weights.
pub fn output_weights(from: &Vec<u32>) -> (r: Vec<u16>)
    ensures
        r@ == key_weights(from@, default_options()),
{
    compose_non_ignorable_key(from, Strength::Tertiary).weights
}

/// Under any handling of variable weights, a weight word adds to the primary level what
/// it adds at `Primary`.
proof fn lemma_primary_step(st1: Levels, st2: Levels, w: u32, o: CollatorOptions)
    requires
        st1.l1 == st2.l1,
    ensures
        level_step(st1, w, o).l1 == level_step(
            st2,
            w,
            CollatorOptions { strength: Strength::Primary, alternate: o.alternate },
        ).l1,
{
    assert(w == 0 ==> level1(w) == 0) by (bit_vector);
}

/// The primary level of a key does not depend on the strength.
proof fn lemma_primary_levels(ws: Seq<u32>, o: CollatorOptions)
    ensures
        levels_of(ws, o).l1 == levels_of(
            ws,
            CollatorOptions { strength: Strength::Primary, alternate: o.alternate },
        ).l1,
    decreases ws.len(),
{
    if ws.len() > 0 {
        let p = CollatorOptions { strength: Strength::Primary, alternate: o.alternate };
        lemma_primary_levels(ws.drop_last(), o);
        let before = ws.drop_last();
        lemma_primary_step(levels_of(before, o), levels_of(before, p), ws.last(), o);
    }
}

/// Level prefix: a key cut at `l1_len` is the key of the same weights at `Primary`
/// strength, which ends without a separator.
pub proof fn lemma_level_prefix(ws: Seq<u32>, o: CollatorOptions)
    ensures
        key_weights(ws, o).subrange(0, levels_of(ws, o).l1.len() as int) == key_weights(
            ws,
            CollatorOptions { strength: Strength::Primary, alternate: o.alternate },
        ),
{
    let p = CollatorOptions { strength: Strength::Primary, alternate: o.alternate };
    lemma_primary_levels(ws, o);
    let lv = levels_of(ws, o);
    assert(key_weights(ws, p) =~= levels_of(ws, p).l1);
    assert(key_weights(ws, o).subrange(0, lv.l1.len() as int) =~= lv.l1);
}

} // verus!
