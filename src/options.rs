//! Collation options (UTS #35): comparison strength and handling of variable weights.
use vstd::prelude::*;

verus! {

/// Comparison level.
#[derive(Clone, Copy, Debug, PartialEq, Eq, Structural)]
pub enum Strength {
    /// Base characters.
    Primary,
    /// Accents.
    Secondary,
    /// Case and variants.
    Tertiary,
    /// Punctuation, under `Shifted`.
    Quaternary,
}

/// Handling of variable weights (punctuation, symbols, spaces).
#[derive(Clone, Copy, Debug, PartialEq, Eq, Structural)]
pub enum AlternateHandling {
    /// Variable weights are compared as any other.
    NonIgnorable,
    /// Variable weights are moved to the fourth level.
    Shifted,
}

/// Number of levels compared at a strength.
pub open spec fn strength_level(s: Strength) -> int {
    match s {
        Strength::Primary => 1,
        Strength::Secondary => 2,
        Strength::Tertiary => 3,
        Strength::Quaternary => 4,
    }
}

impl Strength {
    /// Number of levels compared, 1 to 4.
    pub fn level(&self) -> (r: u8)
        ensures
            r == strength_level(*self),
    {
        match self {
            Strength::Primary => 1,
            Strength::Secondary => 2,
            Strength::Tertiary => 3,
            Strength::Quaternary => 4,
        }
    }
}

impl Default for Strength {
    fn default() -> (r: Strength)
        ensures
            r == Strength::Tertiary,
    {
        Strength::Tertiary
    }
}

impl Default for AlternateHandling {
    fn default() -> (r: AlternateHandling)
        ensures
            r == AlternateHandling::NonIgnorable,
    {
        AlternateHandling::NonIgnorable
    }
}

/// Options of a collation.
#[derive(Clone, Copy, Debug, PartialEq, Eq, Structural)]
pub struct CollatorOptions {
    pub strength: Strength,
    pub alternate: AlternateHandling,
}

impl Default for CollatorOptions {
    fn default() -> (r: CollatorOptions)
        ensures
            r == (CollatorOptions {
                strength: Strength::Tertiary,
                alternate: AlternateHandling::NonIgnorable,
            }),
    {
        CollatorOptions { strength: Strength::Tertiary, alternate: AlternateHandling::NonIgnorable }
    }
}

/// Options packed into 16 bits: the strength's level in the low three bits, `Shifted`
/// in bit 3.
#[derive(Clone, Copy)]
pub struct CollatorOptionsValue(pub u16);

/// The packed form of `o`.
pub open spec fn pack_options(o: CollatorOptions) -> u16 {
    (strength_level(o.strength) + if o.alternate == AlternateHandling::Shifted {
        8int
    } else {
        0
    }) as u16
}

/// The options of a packed value; a strength field outside 1..=4 reads as the default,
/// `Tertiary`.
pub open spec fn unpack_options(v: u16) -> CollatorOptions {
    let s = v & 7;
    CollatorOptions {
        strength: if s == 1 {
            Strength::Primary
        } else if s == 2 {
            Strength::Secondary
        } else if s == 4 {
            Strength::Quaternary
        } else {
            Strength::Tertiary
        },
        alternate: if (v >> 3u16) & 1 == 1 {
            AlternateHandling::Shifted
        } else {
            AlternateHandling::NonIgnorable
        },
    }
}

impl From<CollatorOptionsValue> for u16 {
    fn from(value: CollatorOptionsValue) -> (r: u16) {
        value.0
    }
}

impl vstd::std_specs::convert::FromSpecImpl<CollatorOptionsValue> for u16 {
    open spec fn obeys_from_spec() -> bool {
        true
    }

    open spec fn from_spec(v: CollatorOptionsValue) -> u16 {
        v.0
    }
}

impl From<CollatorOptions> for CollatorOptionsValue {
    fn from(options: CollatorOptions) -> (r: CollatorOptionsValue) {
        let shifted: u16 = match options.alternate {
            AlternateHandling::NonIgnorable => 0,
            AlternateHandling::Shifted => 8,
        };
        CollatorOptionsValue(options.strength.level() as u16 + shifted)
    }
}

impl vstd::std_specs::convert::FromSpecImpl<CollatorOptions> for CollatorOptionsValue {
    open spec fn obeys_from_spec() -> bool {
        true
    }

    open spec fn from_spec(o: CollatorOptions) -> CollatorOptionsValue {
        CollatorOptionsValue(pack_options(o))
    }
}

impl From<CollatorOptionsValue> for CollatorOptions {
    fn from(value: CollatorOptionsValue) -> (r: CollatorOptions) {
        let s = value.0 & 7;
        let strength = if s == 1 {
            Strength::Primary
        } else if s == 2 {
            Strength::Secondary
        } else if s == 4 {
            Strength::Quaternary
        } else {
            Strength::Tertiary
        };
        let alternate = if (value.0 >> 3u16) & 1 == 1 {
            AlternateHandling::Shifted
        } else {
            AlternateHandling::NonIgnorable
        };
        CollatorOptions { strength, alternate }
    }
}

impl vstd::std_specs::convert::FromSpecImpl<CollatorOptionsValue> for CollatorOptions {
    open spec fn obeys_from_spec() -> bool {
        true
    }

    open spec fn from_spec(v: CollatorOptionsValue) -> CollatorOptions {
        unpack_options(v.0)
    }
}

proof fn lemma_pack_bits(s: u16, a: u16)
    requires
        1 <= s <= 4,
        a == 0 || a == 8,
    ensures
        (s + a) as u16 & 7 == s,
        ((((s + a) as u16) >> 3u16) & 1 == 1) == (a == 8),
{
    assert((s + a) as u16 & 7 == s && ((((s + a) as u16) >> 3u16) & 1 == 1) == (a == 8))
        by (bit_vector)
        requires
            1 <= s <= 4,
            a == 0 || a == 8,
    ;
}

/// Unpacking a packed value gives the options back.
pub proof fn lemma_options_round_trip(o: CollatorOptions)
    ensures
        unpack_options(pack_options(o)) == o,
{
    let a: u16 = if o.alternate == AlternateHandling::Shifted {
        8
    } else {
        0
    };
    lemma_pack_bits(strength_level(o.strength) as u16, a);
}

} // verus!
