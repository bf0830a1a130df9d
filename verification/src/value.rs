//! Numeric reading of a literal.
//!
//! A `Const` operand keeps its original text, because a literal's width and
//! signedness are context-dependent. When a consumer needs a numeric value
//! instead, it builds a [`Value`]: a signed 32-bit reinterpretation of an
//! unsigned literal of width 8, 16, 32 or 64 bits. The 64-bit conversion is
//! intentionally lossy: it keeps the low 32 bits and reinterprets them as
//! signed.

use vstd::prelude::*;

verus! {

/// A literal reinterpreted as a signed 32-bit value.
#[derive(Clone, Copy, Debug, Eq, PartialEq, Structural)]
pub struct Value {
    pub data: i32,
}

/// The signed 32-bit reinterpretation of the low 32 bits of `v`:
/// two's-complement wrapping of `v mod 2^32` into `[-2^31, 2^31)`.
pub open spec fn spec_as_signed_32(v: int) -> int {
    let low = v % 0x1_0000_0000;
    if low < 0x8000_0000 {
        low
    } else {
        low - 0x1_0000_0000
    }
}

impl Value {
    /// Reads a 64-bit literal: keeps the low 32 bits, reinterpreted as
    /// signed. Lossy by design; callers needing the full width must use the
    /// textual `Const` form instead.
    pub fn from_quad(input: u64) -> (r: Self)
        ensures
            r.data as int == spec_as_signed_32(input as int),
    {
        let low = (input % 0x1_0000_0000) as u32;
        Self::from_word(low)
    }

    /// Reads a 32-bit literal, reinterpreted as signed.
    pub fn from_word(input: u32) -> (r: Self)
        ensures
            r.data as int == spec_as_signed_32(input as int),
    {
        if input < 0x8000_0000 {
            Value { data: input as i32 }
        } else {
            Value { data: (input as i64 - 0x1_0000_0000) as i32 }
        }
    }

    /// Reads a 16-bit literal: zero-extended, so always non-negative.
    pub fn from_half(input: u16) -> (r: Self)
        ensures
            r.data as int == input as int,
            r.data as int == spec_as_signed_32(input as int),
    {
        Value { data: input as i32 }
    }

    /// Reads an 8-bit literal: zero-extended, so always non-negative.
    pub fn from_byte(input: u8) -> (r: Self)
        ensures
            r.data as int == input as int,
            r.data as int == spec_as_signed_32(input as int),
    {
        Value { data: input as i32 }
    }
}

} // verus!
