//! Implicit weights (UTS #10, section 10) for code points without tabular weights.
use vstd::prelude::*;

verus! {

/// L2 and L3 of the first implicit weight: `[.AAAA.0020.0002]`.
pub const FIRST_WEIGHT_L2_L3: u32 = 0x4200000;

/// CJK Unified Ideographs, the core block.
pub open spec fn han_core(code: u32) -> bool {
    0x4E00 <= code <= 0x9FFF
}

/// The other ranges of unified ideographs (extensions A to I).
pub open spec fn han_other(code: u32) -> bool {
    ||| 0x3400 <= code <= 0x4DBF
    ||| 0x20000 <= code <= 0x2A6DF
    ||| 0x2A700 <= code <= 0x2B739
    ||| 0x2B740 <= code <= 0x2B81D
    ||| 0x2B820 <= code <= 0x2CEA1
    ||| 0x2CEB0 <= code <= 0x2EBE0
    ||| 0x2EBF0 <= code <= 0x2EE5D
    ||| 0x30000 <= code <= 0x3134A
    ||| 0x31350 <= code <= 0x323AF
}

/// Assigned code points of Tangut, Tangut Components and Tangut Supplement.
pub open spec fn tangut(code: u32) -> bool {
    ||| 0x17000 <= code <= 0x187F7
    ||| 0x18800 <= code <= 0x18AFF
    ||| 0x18D00 <= code <= 0x18D08
}

/// Assigned code points of Nushu.
pub open spec fn nushu(code: u32) -> bool {
    0x1B170 <= code <= 0x1B2FB
}

/// Assigned code points of the Khitan Small Script.
pub open spec fn khitan(code: u32) -> bool {
    0x18B00 <= code <= 0x18CD5
}

/// The two implicit weights `[.AAAA.0020.0002][.BBBB.0000.0000]` of a code point.
pub open spec fn implicit_pair(code: u32) -> (u32, u32) {
    if han_core(code) {
        ((0xFB40 + (code >> 15)) as u32 | FIRST_WEIGHT_L2_L3, (code & 0x7FFF) | 0x8000)
    } else if han_other(code) {
        ((0xFB80 + (code >> 15)) as u32 | FIRST_WEIGHT_L2_L3, (code & 0x7FFF) | 0x8000)
    } else if tangut(code) {
        (0xFB00 | FIRST_WEIGHT_L2_L3, (code - 0x17000) as u32 | 0x8000)
    } else if nushu(code) {
        (0xFB01 | FIRST_WEIGHT_L2_L3, (code - 0x1B170) as u32 | 0x8000)
    } else if khitan(code) {
        (0xFB02 | FIRST_WEIGHT_L2_L3, (code - 0x18B00) as u32 | 0x8000)
    } else {
        ((0xFBC0 + (code >> 15)) as u32 | FIRST_WEIGHT_L2_L3, (code & 0x7FFF) | 0x8000)
    }
}

/// The implicit weights of `code`, as a pair of packed words.
pub fn implicit_weights(code: u32) -> (r: [u32; 2])
    ensures
        r[0] == implicit_pair(code).0,
        r[1] == implicit_pair(code).1,
{
    assert((code >> 15) <= 0x1FFFF) by (bit_vector);
    if is_han_core(code) {
        return [(0xFB40 + (code >> 15)) | FIRST_WEIGHT_L2_L3, (code & 0x7FFF) | 0x8000];
    }
    if is_han_other(code) {
        return [(0xFB80 + (code >> 15)) | FIRST_WEIGHT_L2_L3, (code & 0x7FFF) | 0x8000];
    }
    if is_tangut(code) {
        return [0xFB00 | FIRST_WEIGHT_L2_L3, (code - 0x17000) | 0x8000];
    }
    if is_nushu(code) {
        return [0xFB01 | FIRST_WEIGHT_L2_L3, (code - 0x1B170) | 0x8000];
    }
    if is_khitan(code) {
        return [0xFB02 | FIRST_WEIGHT_L2_L3, (code - 0x18B00) | 0x8000];
    }
    [(0xFBC0 + (code >> 15)) | FIRST_WEIGHT_L2_L3, (code & 0x7FFF) | 0x8000]
}

/// Core block of the unified Han ideographs, U+4E00 to U+9FFF.
pub fn is_han_core(code: u32) -> (r: bool)
    ensures
        r == han_core(code),
{
    0x4E00 <= code && code <= 0x9FFF
}

/// The other unified Han ideographs: extension A and the ranges of the
/// supplementary planes.
pub fn is_han_other(code: u32) -> (r: bool)
    ensures
        r == han_other(code),
{
    (0x3400 <= code && code <= 0x4DBF) || (0x20000 <= code && code <= 0x2A6DF) || (0x2A700
        <= code && code <= 0x2B739) || (0x2B740 <= code && code <= 0x2B81D) || (0x2B820 <= code
        && code <= 0x2CEA1) || (0x2CEB0 <= code && code <= 0x2EBE0) || (0x2EBF0 <= code && code
        <= 0x2EE5D) || (0x30000 <= code && code <= 0x3134A) || (0x31350 <= code && code
        <= 0x323AF)
}

/// Tangut, Tangut Components and Tangut Supplement (assigned code points).
pub fn is_tangut(code: u32) -> (r: bool)
    ensures
        r == tangut(code),
{
    (0x17000 <= code && code <= 0x187F7) || (0x18800 <= code && code <= 0x18AFF) || (0x18D00
        <= code && code <= 0x18D08)
}

/// Nushu (assigned code points).
pub fn is_nushu(code: u32) -> (r: bool)
    ensures
        r == nushu(code),
{
    0x1B170 <= code && code <= 0x1B2FB
}

/// Khitan Small Script (assigned code points).
pub fn is_khitan(code: u32) -> (r: bool)
    ensures
        r == khitan(code),
{
    0x18B00 <= code && code <= 0x18CD5
}

} // verus!
