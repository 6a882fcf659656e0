//! Weights of precomposed Hangul syllables, computed from their L, V and T jamo.
use vstd::prelude::*;

verus! {

/// First precomposed syllable.
pub const HANGUL_S_BASE: u32 = 0xAC00;
/// Number of precomposed syllables.
pub const HANGUL_S_COUNT: u32 = 11172;
/// Vowels times trailing consonants.
pub const HANGUL_N_COUNT: u32 = 588;
/// Trailing consonants, plus one for none.
pub const HANGUL_T_BLOCK_SIZE: u32 = 28;

/// Weight word of the first leading consonant in CLDR root.
pub const HANGUL_L_BASE_WEIGHTS: u32 = 0x4204323;
/// Weight word of the first vowel in CLDR root.
pub const HANGUL_V_BASE_WEIGHTS: u32 = 0x42043A1;
/// Weight word before that of the first trailing consonant in CLDR root.
pub const HANGUL_T_BASE_WEIGHTS: u32 = 0x42043FE;

/// A precomposed Hangul syllable.
pub open spec fn hangul_syllable(code: u32) -> bool {
    HANGUL_S_BASE <= code < HANGUL_S_BASE + HANGUL_S_COUNT
}

/// Weights of a syllable: its leading consonant, its vowel and, when it has one, its
/// trailing consonant, each the base weight of its kind plus its index. The trailing
/// weights of UTS #10 (section 7.1.3) are not applied.
pub open spec fn hangul_weights(code: u32) -> Seq<u32> {
    let lvt = code - HANGUL_S_BASE;
    let l = lvt / HANGUL_N_COUNT as int;
    let v = (lvt % HANGUL_N_COUNT as int) / HANGUL_T_BLOCK_SIZE as int;
    let t = lvt % HANGUL_T_BLOCK_SIZE as int;
    seq![(HANGUL_L_BASE_WEIGHTS + l) as u32, (HANGUL_V_BASE_WEIGHTS + v) as u32] + if t != 0 {
        seq![(HANGUL_T_BASE_WEIGHTS + t) as u32]
    } else {
        Seq::empty()
    }
}

/// Appends the weights of a precomposed syllable to `result`.
pub fn write_hangul_syllable(code: u32, result: &mut Vec<u32>)
    requires
        hangul_syllable(code),
    ensures
        final(result)@ == old(result)@ + hangul_weights(code),
{
    let lvt = code - HANGUL_S_BASE;
    let l = lvt / HANGUL_N_COUNT;
    let v = (lvt % HANGUL_N_COUNT) / HANGUL_T_BLOCK_SIZE;
    let t = lvt % HANGUL_T_BLOCK_SIZE;
    result.push(HANGUL_L_BASE_WEIGHTS + l);
    result.push(HANGUL_V_BASE_WEIGHTS + v);
    if t != 0 {
        result.push(HANGUL_T_BASE_WEIGHTS + t);
    }
    assert(final(result)@ =~= old(result)@ + hangul_weights(code));
}

} // verus!
