//! The closed vocabulary of operand widths.
//!
//! Each tag stands for one exact bit-width; the mapping is total and
//! injective, so no two tags can ever be treated as interchangeable.

use vstd::prelude::*;

verus! {

/// One of the eight supported operand widths.
#[derive(Clone, Copy, Debug, Eq, PartialEq, PartialOrd, Hash, Structural)]
pub enum Size {
    Byte,
    Half,
    Word,
    Quad,
    Size9,
    Size10,
    DoubleQuad,
    QuadQuad,
}

/// The bit-width that a `Size` tag stands for.
pub open spec fn spec_bit_width(s: Size) -> u32 {
    match s {
        Size::Byte => 8,
        Size::Half => 16,
        Size::Word => 32,
        Size::Quad => 64,
        Size::Size9 => 72,
        Size::Size10 => 80,
        Size::DoubleQuad => 128,
        Size::QuadQuad => 256,
    }
}

/// The `Size` tag declared by a width field counting `n` bytes, if any.
///
/// The widths are byte counts as written in operand text: `4` means four
/// bytes, that is `Size::Word`. A count that matches no tag is rejected by
/// the parser as an unsupported width.
pub open spec fn spec_size_of_byte_count(n: int) -> Option<Size> {
    if n == 1 {
        Some(Size::Byte)
    } else if n == 2 {
        Some(Size::Half)
    } else if n == 4 {
        Some(Size::Word)
    } else if n == 8 {
        Some(Size::Quad)
    } else if n == 9 {
        Some(Size::Size9)
    } else if n == 10 {
        Some(Size::Size10)
    } else if n == 16 {
        Some(Size::DoubleQuad)
    } else if n == 32 {
        Some(Size::QuadQuad)
    } else {
        None
    }
}

impl Size {
    /// Returns the exact bit-width of this tag. Total: defined for every
    /// variant, and never fails.
    pub fn to_bitvector_size(self) -> (r: u32)
        ensures
            r == spec_bit_width(self),
    {
        match self {
            Size::Byte => 8,
            Size::Half => 16,
            Size::Word => 32,
            Size::Quad => 64,
            Size::Size9 => 72,
            Size::Size10 => 80,
            Size::DoubleQuad => 128,
            Size::QuadQuad => 256,
        }
    }
}

/// Resolves a byte count from a width field to its `Size` tag, if one matches
/// exactly.
pub fn size_of_byte_count(n: u64) -> (r: Option<Size>)
    ensures
        r == spec_size_of_byte_count(n as int),
{
    if n == 1 {
        Some(Size::Byte)
    } else if n == 2 {
        Some(Size::Half)
    } else if n == 4 {
        Some(Size::Word)
    } else if n == 8 {
        Some(Size::Quad)
    } else if n == 9 {
        Some(Size::Size9)
    } else if n == 10 {
        Some(Size::Size10)
    } else if n == 16 {
        Some(Size::DoubleQuad)
    } else if n == 32 {
        Some(Size::QuadQuad)
    } else {
        None
    }
}

/// Every `Size` tag maps to one of the eight supported bit-widths: the
/// width mapping is total over the vocabulary.
pub proof fn lemma_bit_width_supported(s: Size)
    ensures
        set![8u32, 16u32, 32u32, 64u32, 72u32, 80u32, 128u32, 256u32].contains(spec_bit_width(s)),
{
}

/// The width mapping is injective: distinct tags have distinct bit-widths.
pub proof fn lemma_bit_width_injective(s1: Size, s2: Size)
    requires
        spec_bit_width(s1) == spec_bit_width(s2),
    ensures
        s1 == s2,
{
}

/// Byte counts and bit-widths agree: a tag resolved from a byte count
/// stands for exactly eight times that many bits.
pub proof fn lemma_byte_count_bits(n: int, s: Size)
    requires
        spec_size_of_byte_count(n) == Some(s),
    ensures
        spec_bit_width(s) == 8 * n,
{
}

} // verus!
