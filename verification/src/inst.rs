//! One micro-operation.
//!
//! A machine instruction may lower to several micro-operations; each one is
//! an opcode, an optional output operand, and an ordered list of input
//! operands. Input order equals source order and is semantically
//! significant.

use vstd::prelude::*;
use crate::opcode::Opcode;
use crate::operand::Varnode;
use crate::operand::VarnodeModel;

verus! {

/// One micro-operation: an opcode, an optional output, and its inputs in
/// source order.
#[derive(Clone, Debug, PartialEq)]
pub struct Inst {
    pub opcode: Opcode,
    pub output: Option<Varnode>,
    pub inputs: Vec<Varnode>,
}

/// The mathematical value of an [`Inst`].
pub struct InstModel {
    pub opcode: Opcode,
    pub output: Option<VarnodeModel>,
    pub inputs: Seq<VarnodeModel>,
}

/// The model of a sequence of operands.
pub open spec fn varnodes_model(s: Seq<Varnode>) -> Seq<VarnodeModel> {
    s.map_values(|v: Varnode| v@)
}

/// The model of a sequence of instructions.
pub open spec fn insts_model(s: Seq<Inst>) -> Seq<InstModel> {
    s.map_values(|i: Inst| i@)
}

impl View for Inst {
    type V = InstModel;

    open spec fn view(&self) -> InstModel {
        InstModel {
            opcode: self.opcode,
            output: match self.output {
                Some(v) => Some(v@),
                None => None,
            },
            inputs: varnodes_model(self.inputs@),
        }
    }
}

} // verus!
