//! Packed weight words: L1 in the low 16 bits, L2 in bits 16..24, L3 in bits 25..29,
//! the variable flag in bit 30.
use vstd::prelude::*;

verus! {

/// Primary weight of a packed word.
pub open spec fn level1(w: u32) -> u16 {
    (w & 0xFFFF) as u16
}

/// Secondary weight of a packed word.
pub open spec fn level2(w: u32) -> u16 {
    ((w >> 16) & 0x1FF) as u16
}

/// Tertiary weight of a packed word.
pub open spec fn level3(w: u32) -> u16 {
    ((w >> 25) & 0x1F) as u16
}

/// Variable-weight flag of a packed word.
pub open spec fn variable(w: u32) -> bool {
    w & 0x4000_0000 != 0
}

/// Uppercase hexadecimal digit for `d < 16`.
pub open spec fn hex_digit(d: u16) -> char {
    if d < 10 {
        (d + 48) as char
    } else {
        (d + 55) as char
    }
}

/// The four uppercase hexadecimal digits of `v`, most significant first.
pub open spec fn hex4(v: u16) -> Seq<char> {
    seq![
        hex_digit((v / 4096) % 16),
        hex_digit((v / 256) % 16),
        hex_digit((v / 16) % 16),
        hex_digit(v % 16),
    ]
}

/// `[` flag `XXXX.YYYY.ZZZZ]`: the form in which weights are written in allkeys.
pub open spec fn bracketed(flag: char, a: u16, b: u16, c: u16) -> Seq<char> {
    seq!['[', flag] + hex4(a) + seq!['.'] + hex4(b) + seq!['.'] + hex4(c) + seq![']']
}

/// Relies on std's `format!`: `{}` writes a char as itself, `{:04X}` writes a `u16` as
/// four uppercase hexadecimal digits.
#[verifier::external_body]
fn format_bracketed(flag: char, a: u16, b: u16, c: u16) -> (r: String)
    ensures
        r@ == bracketed(flag, a, b, c),
{
    format!("[{}{:04X}.{:04X}.{:04X}]", flag, a, b, c)
}

/// Weights of one collation element, three levels and the variable flag.
#[derive(Clone, Copy)]
pub struct Weights(pub u32);

impl Weights {
    /// The packed word.
    pub fn value(&self) -> (r: u32)
        ensures
            r == self.0,
    {
        self.0
    }

    /// Primary weight.
    pub fn l1(&self) -> (r: u16)
        ensures
            r == level1(self.0),
    {
        (self.0 & 0xFFFF) as u16
    }

    /// Secondary weight.
    pub fn l2(&self) -> (r: u16)
        ensures
            r == level2(self.0),
    {
        ((self.0 >> 16) & 0x1FF) as u16
    }

    /// Tertiary weight.
    pub fn l3(&self) -> (r: u16)
        ensures
            r == level3(self.0),
    {
        ((self.0 >> 25) & 0x1F) as u16
    }

    /// Variable weight (punctuation, symbols, spaces).
    pub fn is_variable(&self) -> (r: bool)
        ensures
            r == variable(self.0),
    {
        self.0 & 0x4000_0000 != 0
    }

    /// The weights as allkeys writes them: `[.XXXX.YYYY.ZZZZ]`, or `[*XXXX.YYYY.ZZZZ]`
    /// for a variable weight.
    pub fn format(&self) -> (r: String)
        ensures
            r@ == bracketed(
                if variable(self.0) {
                    '*'
                } else {
                    '.'
                },
                level1(self.0),
                level2(self.0),
                level3(self.0),
            ),
    {
        let flag = if self.is_variable() {
            '*'
        } else {
            '.'
        };
        format_bracketed(flag, self.l1(), self.l2(), self.l3())
    }
}

impl From<u32> for Weights {
    fn from(value: u32) -> (r: Weights) {
        Weights(value)
    }
}

impl vstd::std_specs::convert::FromSpecImpl<u32> for Weights {
    open spec fn obeys_from_spec() -> bool {
        true
    }

    open spec fn from_spec(v: u32) -> Weights {
        Weights(v)
    }
}

} // verus!
