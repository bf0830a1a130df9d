//! The parse-time error taxonomy.
//!
//! Every way a line can be rejected has its own kind, and the parser is
//! fail-fast: the first error is returned together with the index of the
//! offending line, and nothing is silently recovered or defaulted.

use vstd::prelude::*;

verus! {

/// What went wrong on a line.
#[derive(Clone, Copy, Debug, Eq, PartialEq, Structural)]
pub enum ErrorKind {
    /// The opcode token is not in the vocabulary.
    UnknownMnemonic,
    /// An operand's text does not match the `(space, id, width)` grammar.
    MalformedOperand,
    /// An operand's space token is not one of the recognized kinds.
    UnknownOperandSpace,
    /// A declared width matches no defined `Size` tag.
    UnsupportedWidth,
    /// The number of inputs, or the presence of an output, is inconsistent
    /// with the opcode's fixed shape.
    ArityMismatch,
    /// The address prefix is not a valid non-negative integer literal.
    MalformedAddress,
}

/// A parse failure: the kind of error and the zero-based index of the input
/// line on which it was found.
#[derive(Clone, Copy, Debug, Eq, PartialEq, Structural)]
pub struct ParseError {
    pub line: usize,
    pub kind: ErrorKind,
}

} // verus!
