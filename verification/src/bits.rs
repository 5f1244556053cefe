//! Single-precision values read through their IEEE 754 bit patterns.
//!
//! A pattern is a sign bit above 31 bits of magnitude. Among the patterns
//! that stand for numbers, a larger magnitude field is a larger absolute
//! value, so order and equality of the values can be read off the patterns.
//! The two zeros are equal, and a pattern that stands for no number is
//! neither below nor above anything.

use vstd::prelude::*;

verus! {

/// The sign bit.
pub const SIGN: u32 = 0x8000_0000;

/// The magnitude field of the infinities; every finite value has less, and
/// what has more is no number.
pub const INFINITE: u32 = 0x7F80_0000;

/// Positive zero: silence, and a magnitude of nothing.
pub const ZERO: u32 = 0;

/// The pattern of 1.0.
pub const ONE: u32 = 0x3F80_0000;

/// The pattern without its sign bit.
pub open spec fn magnitude_field(b: u32) -> u32 {
    if b >= SIGN {
        (b - SIGN) as u32
    } else {
        b
    }
}

/// The pattern stands for no number.
pub open spec fn nan(b: u32) -> bool {
    magnitude_field(b) > INFINITE
}

/// The place of a value in the order of the numbers: an integer that is
/// smaller exactly where the value is smaller. Both zeros have place 0.
pub open spec fn ordinal(b: u32) -> int {
    if b >= SIGN {
        -(magnitude_field(b) as int)
    } else {
        b as int
    }
}

/// `a < b` as values.
pub open spec fn below(a: u32, b: u32) -> bool {
    !nan(a) && !nan(b) && ordinal(a) < ordinal(b)
}

/// `0 <= b < 1` as a value.
pub open spec fn unit_fraction(b: u32) -> bool {
    !nan(b) && 0 <= ordinal(b) < ONE
}

/// The larger of a new magnitude and a held one. The held one stays unless
/// the new one is above it.
pub open spec fn peak(new: u32, held: u32) -> u32 {
    if below(held, new) {
        new
    } else {
        held
    }
}

/// Whether the pattern stands for no number.
pub fn is_nan(b: u32) -> (r: bool)
    ensures
        r == nan(b),
{
    if b >= SIGN {
        b - SIGN > INFINITE
    } else {
        b > INFINITE
    }
}

/// Whether `a < b` as values.
pub fn is_below(a: u32, b: u32) -> (r: bool)
    ensures
        r == below(a, b),
{
    if is_nan(a) || is_nan(b) {
        false
    } else if a >= SIGN {
        if b >= SIGN {
            // both at or below zero: the larger magnitude is the smaller value
            b < a
        } else {
            // a is at or below zero, b at or above it
            a > SIGN || b > 0
        }
    } else {
        b < SIGN && a < b
    }
}

/// Whether `0 <= b < 1` as a value.
pub fn is_unit_fraction(b: u32) -> (r: bool)
    ensures
        r == unit_fraction(b),
{
    b < ONE || b == SIGN
}

/// The larger of a new magnitude and a held one.
pub fn hold_peak(new: u32, held: u32) -> (r: u32)
    ensures
        r == peak(new, held),
{
    if is_below(held, new) {
        new
    } else {
        held
    }
}

/// The peak is one of the two, and neither number is above it.
pub proof fn lemma_peak_is_upper_bound(new: u32, held: u32)
    ensures
        peak(new, held) == new || peak(new, held) == held,
        !below(peak(new, held), new),
        !below(peak(new, held), held),
{
}

} // verus!
