//! The operand model and the operand grammar.
//!
//! An operand is written as a parenthesized triple `(space, id, width)`:
//! the space token selects the [`Var`] variant, the identifier is a
//! hexadecimal literal, and the width is a decimal byte count resolved
//! against the [`Size`] vocabulary. The bare sentinel `(ram)` names the
//! memory space itself rather than an address within it.
//!
//! Variant selection is determined purely by the operand's textual syntax,
//! never inferred from context.

use vstd::prelude::*;
use crate::error::ErrorKind;
use crate::size::Size;
use crate::size::size_of_byte_count;
use crate::size::spec_size_of_byte_count;
use crate::text::dec_digit;
use crate::text::dec_value;
use crate::text::hex_digit;
use crate::text::hex_value;
use crate::text::is_dec_digit;
use crate::text::is_dec_numeral;
use crate::text::is_hex_digit;
use crate::text::is_hex_literal;
use crate::text::is_hex_numeral;
use crate::text::parse_dec_u64;
use crate::text::parse_hex_u64;
use crate::text::split_top;
use crate::text::split_top_in;
use crate::text::str_eq;
use crate::text::trim;
use crate::text::trimmed;

verus! {

/// An address-like offset into a register, memory or temporary namespace.
pub type Addr = u64;

/// A discriminated operand kind.
#[derive(Clone, Debug, PartialEq, Eq, Hash)]
pub enum Var {
    /// An immediate literal, kept in its original textual form: its numeric
    /// reading is context-dependent and deferred to consumers.
    Const(String),
    /// A transient value in the compiler-internal "unique" namespace.
    Unique(Addr),
    /// A machine register: its offset into the register space, and its own
    /// declared width.
    Register(Addr, Size),
    /// An address within the generic memory space.
    Memory(Addr),
    /// The bare memory space itself, with no explicit offset.
    MemoryRam,
}

/// The mathematical value of a [`Var`]: the same shape, with the literal
/// text as a character sequence.
pub enum VarModel {
    Const(Seq<char>),
    Unique(Addr),
    Register(Addr, Size),
    Memory(Addr),
    MemoryRam,
}

impl View for Var {
    type V = VarModel;

    open spec fn view(&self) -> VarModel {
        match self {
            Var::Const(t) => VarModel::Const(t@),
            Var::Unique(a) => VarModel::Unique(*a),
            Var::Register(a, s) => VarModel::Register(*a, *s),
            Var::Memory(a) => VarModel::Memory(*a),
            Var::MemoryRam => VarModel::MemoryRam,
        }
    }
}

/// An operand together with its declared bit-width.
#[derive(Clone, Debug, PartialEq)]
pub struct Varnode {
    pub var: Var,
    pub size: Size,
}

/// The mathematical value of a [`Varnode`].
pub struct VarnodeModel {
    pub var: VarModel,
    pub size: Size,
}

impl View for Varnode {
    type V = VarnodeModel;

    open spec fn view(&self) -> VarnodeModel {
        VarnodeModel { var: self.var@, size: self.size }
    }
}

/// The recognized space tokens of the triple form.
#[derive(Clone, Copy, Debug, Eq, PartialEq, Structural)]
pub enum SpaceKind {
    ConstSpace,
    UniqueSpace,
    RegisterSpace,
    RamSpace,
}

/// The space kind a token selects, if it is recognized.
pub open spec fn spec_space_kind(sp: Seq<char>) -> Option<SpaceKind> {
    if sp == "const"@ {
        Some(SpaceKind::ConstSpace)
    } else if sp == "unique"@ {
        Some(SpaceKind::UniqueSpace)
    } else if sp == "register"@ {
        Some(SpaceKind::RegisterSpace)
    } else if sp == "ram"@ {
        Some(SpaceKind::RamSpace)
    } else {
        None
    }
}

/// The `Size` tag declared by a width field: a decimal byte count matched
/// exactly against the vocabulary. A field that is not a decimal numeral is
/// malformed; a numeral matching no tag is an unsupported width.
pub open spec fn spec_width_size(w: Seq<char>) -> Result<Size, ErrorKind> {
    if !is_dec_numeral(w) {
        Err(ErrorKind::MalformedOperand)
    } else {
        match spec_size_of_byte_count(dec_value(w)) {
            None => Err(ErrorKind::UnsupportedWidth),
            Some(sz) => Ok(sz),
        }
    }
}

/// The operand denoted by a recognized space kind, an identifier field and
/// a width field (all already trimmed).
///
/// Every identifier must be a hexadecimal literal `0x…`. A `const` keeps
/// the literal text itself; the other spaces read it as an offset, which
/// must fit in 64 bits.
pub open spec fn spec_operand_from(k: SpaceKind, id: Seq<char>, w: Seq<char>) -> Result<
    VarnodeModel,
    ErrorKind,
> {
    if !is_hex_literal(id) {
        Err(ErrorKind::MalformedOperand)
    } else if k != SpaceKind::ConstSpace && hex_value(id.skip(2)) > u64::MAX {
        Err(ErrorKind::MalformedOperand)
    } else {
        match spec_width_size(w) {
            Err(e) => Err(e),
            Ok(sz) => Ok(
                VarnodeModel {
                    var: match k {
                        SpaceKind::ConstSpace => VarModel::Const(id),
                        SpaceKind::UniqueSpace => VarModel::Unique(
                            hex_value(id.skip(2)) as u64,
                        ),
                        SpaceKind::RegisterSpace => VarModel::Register(
                            hex_value(id.skip(2)) as u64,
                            sz,
                        ),
                        SpaceKind::RamSpace => VarModel::Memory(hex_value(id.skip(2)) as u64),
                    },
                    size: sz,
                },
            ),
        }
    }
}

/// The operand denoted by the text between an operand's parentheses.
///
/// Its fields are the comma-separated pieces, each trimmed. One single
/// field must be the bare sentinel `ram`, which denotes the memory space
/// itself; it carries no width of its own and is recorded at the narrowest
/// defined size. Exactly three fields form the `(space, id, width)` triple.
/// Any other shape is malformed.
pub open spec fn spec_operand_inner(inner: Seq<char>) -> Result<VarnodeModel, ErrorKind> {
    let fields = split_top(inner, ',');
    if fields.len() == 1 {
        if trimmed(fields[0]) == "ram"@ {
            Ok(VarnodeModel { var: VarModel::MemoryRam, size: Size::Byte })
        } else {
            Err(ErrorKind::MalformedOperand)
        }
    } else if fields.len() == 3 {
        match spec_space_kind(trimmed(fields[0])) {
            None => Err(ErrorKind::UnknownOperandSpace),
            Some(k) => spec_operand_from(k, trimmed(fields[1]), trimmed(fields[2])),
        }
    } else {
        Err(ErrorKind::MalformedOperand)
    }
}

/// The operand denoted by a piece of text: after trimming it must be
/// parenthesized, and its inside follows [`spec_operand_inner`].
pub open spec fn spec_parse_operand(s: Seq<char>) -> Result<VarnodeModel, ErrorKind> {
    let t = trimmed(s);
    if t.len() < 2 || t.first() != '(' || t.last() != ')' {
        Err(ErrorKind::MalformedOperand)
    } else {
        spec_operand_inner(t.subrange(1, t.len() - 1))
    }
}

/// Whether `s` is a hexadecimal literal `0x…`, following
/// [`is_hex_literal`].
pub fn is_hex_literal_in(s: &str) -> (r: bool)
    ensures
        r == is_hex_literal(s@),
{
    let n = s.unicode_len();
    if n <= 2 {
        return false;
    }
    if s.get_char(0) != '0' || s.get_char(1) != 'x' {
        return false;
    }
    let mut i: usize = 2;
    while i < n
        invariant
            2 <= i <= n,
            n == s@.len(),
            n > 2,
            s@[0] == '0',
            s@[1] == 'x',
            forall|j: int| 2 <= j < i ==> is_hex_digit(#[trigger] s@[j]),
        decreases n - i,
    {
        if hex_digit(s.get_char(i)).is_none() {
            assert(!is_hex_digit(s@.skip(2)[i - 2]));
            return false;
        }
        i += 1;
    }
    assert forall|j: int| 0 <= j < s@.skip(2).len() implies is_hex_digit(#[trigger] s@.skip(2)[j]) by {
        assert(s@.skip(2)[j] == s@[j + 2]);
    }
    true
}

/// Whether `s` is a non-empty run of decimal digits, following
/// [`is_dec_numeral`].
pub fn is_dec_numeral_in(s: &str) -> (r: bool)
    ensures
        r == is_dec_numeral(s@),
{
    let n = s.unicode_len();
    if n == 0 {
        return false;
    }
    let mut i: usize = 0;
    while i < n
        invariant
            i <= n,
            n == s@.len(),
            n > 0,
            forall|j: int| 0 <= j < i ==> is_dec_digit(#[trigger] s@[j]),
        decreases n - i,
    {
        if dec_digit(s.get_char(i)).is_none() {
            return false;
        }
        i += 1;
    }
    true
}

/// Resolves a width field against the `Size` vocabulary, following
/// [`spec_width_size`].
fn width_size(w: &str) -> (r: Result<Size, ErrorKind>)
    ensures
        r == spec_width_size(w@),
{
    if !is_dec_numeral_in(w) {
        return Err(ErrorKind::MalformedOperand);
    }
    match parse_dec_u64(w) {
        None => Err(ErrorKind::UnsupportedWidth),
        Some(v) => match size_of_byte_count(v) {
            None => Err(ErrorKind::UnsupportedWidth),
            Some(sz) => Ok(sz),
        },
    }
}

/// Parses one operand's text into a [`Varnode`], exactly as
/// [`spec_parse_operand`] describes.
pub fn parse_operand(s: &str) -> (r: Result<Varnode, ErrorKind>)
    ensures
        match spec_parse_operand(s@) {
            Ok(vm) => r matches Ok(v) && v@ == vm,
            Err(k) => r matches Err(k2) && k2 == k,
        },
{
    let t = trim(s);
    let n = t.unicode_len();
    if n < 2 || t.get_char(0) != '(' || t.get_char(n - 1) != ')' {
        return Err(ErrorKind::MalformedOperand);
    }
    let inner = t.substring_char(1, n - 1);
    let fields = split_top_in(inner, ',');
    proof {
        assert(fields.deep_view() == split_top(inner@, ','));
        assert(fields.deep_view().len() == fields@.len());
    }
    if fields.len() == 1 {
        let f0 = trim(fields[0].as_str());
        proof {
            assert(fields.deep_view()[0] == fields@[0]@);
        }
        if str_eq(f0, "ram") {
            Ok(Varnode { var: Var::MemoryRam, size: Size::Byte })
        } else {
            Err(ErrorKind::MalformedOperand)
        }
    } else if fields.len() == 3 {
        let sp = trim(fields[0].as_str());
        proof {
            assert(fields.deep_view()[0] == fields@[0]@);
            assert(fields.deep_view()[1] == fields@[1]@);
            assert(fields.deep_view()[2] == fields@[2]@);
        }
        let kind: SpaceKind = if str_eq(sp, "const") {
            SpaceKind::ConstSpace
        } else if str_eq(sp, "unique") {
            SpaceKind::UniqueSpace
        } else if str_eq(sp, "register") {
            SpaceKind::RegisterSpace
        } else if str_eq(sp, "ram") {
            SpaceKind::RamSpace
        } else {
            return Err(ErrorKind::UnknownOperandSpace);
        };
        let id = trim(fields[1].as_str());
        if !is_hex_literal_in(id) {
            return Err(ErrorKind::MalformedOperand);
        }
        let idn = id.unicode_len();
        let digits = id.substring_char(2, idn);
        proof {
            assert(digits@ =~= id@.skip(2));
        }
        match kind {
            SpaceKind::ConstSpace => {
                let w = trim(fields[2].as_str());
                match width_size(w) {
                    Err(e) => Err(e),
                    Ok(sz) => Ok(Varnode { var: Var::Const(id.to_owned()), size: sz }),
                }
            },
            _ => {
                let val = match parse_hex_u64(digits) {
                    None => {
                        return Err(ErrorKind::MalformedOperand);
                    },
                    Some(v) => v,
                };
                let w = trim(fields[2].as_str());
                match width_size(w) {
                    Err(e) => Err(e),
                    Ok(sz) => match kind {
                        SpaceKind::UniqueSpace => Ok(
                            Varnode { var: Var::Unique(val), size: sz },
                        ),
                        SpaceKind::RegisterSpace => Ok(
                            Varnode { var: Var::Register(val, sz), size: sz },
                        ),
                        _ => Ok(Varnode { var: Var::Memory(val), size: sz }),
                    },
                }
            },
        }
    } else {
        Err(ErrorKind::MalformedOperand)
    }
}

} // verus!
