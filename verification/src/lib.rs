//! A parser and data model for a textual register-transfer-level
//! intermediate representation, as emitted by a binary-analysis lifter.
//!
//! Raw text lines such as
//!
//! ```text
//! 1000: COPY (unique, 0x80, 4) = (const, 0x7, 4)
//! ```
//!
//! are parsed into an address-indexed [`CodeListing`] of micro-operations
//! ([`Inst`]), each holding an [`Opcode`], an optional output operand and an
//! ordered list of input operands ([`Varnode`]). Parsing is fail-fast: the
//! first malformed line stops the parse and is reported with its position,
//! and no partial listing is returned.
//!
//! Every parsing function is specified against a declarative grammar written
//! as spec functions over character sequences, and verified to follow it.

pub mod error;
pub mod inst;
pub mod listing;
pub mod opcode;
pub mod operand;
pub mod parser;
pub mod size;
pub mod text;
pub mod value;

pub use error::ErrorKind;
pub use error::ParseError;
pub use inst::Inst;
pub use listing::CodeListing;
pub use opcode::Opcode;
pub use operand::Addr;
pub use operand::Var;
pub use operand::Varnode;
pub use operand::parse_operand;
pub use parser::parse_line;
pub use parser::parse_listing;
pub use size::Size;
pub use value::Value;
