//! The closed vocabulary of operations.
//!
//! Every mnemonic the parser accepts maps to exactly one `Opcode` variant;
//! an unrecognized mnemonic is a hard parse error, never a silent default.
//! Where an operation's shape is invariant (its output presence, its input
//! count), the shape is recorded here and enforced by the parser.

use vstd::prelude::*;
use crate::text::str_eq;

verus! {

/// One micro-operation kind: boolean, integer and floating-point
/// arithmetic, control transfer, casts, memory access, and structural
/// markers.
#[derive(Clone, Copy, Debug, Eq, PartialEq, Structural)]
pub enum Opcode {
    Blank,
    BoolAnd,
    BoolNegate,
    BoolOr,
    BoolXor,
    Branch,
    BranchInd,
    Build,
    Call,
    CallInd,
    CallOther,
    CBranch,
    Ceil,
    Copy,
    CPoolRef,
    CrossBuild,
    DelaySlot,
    Float2Float,
    FloatAbs,
    FloatAdd,
    FloatDiv,
    FloatEqual,
    FloatLess,
    FloatLessEqual,
    FloatMult,
    FloatNaN,
    FloatNeg,
    FloatNotEqual,
    FloatSqrt,
    FloatSub,
    FloatFloor,
    Int2Float,
    Int2Comp,
    IntAdd,
    IntAnd,
    IntCarry,
    IntDiv,
    IntEqual,
    IntLeft,
    IntLess,
    IntLessEqual,
    IntMult,
    IntNegate,
    IntNotEqual,
    IntOr,
    IntRem,
    IntRight,
    IntSBorrow,
    IntSCarry,
    IntSDiv,
    IntSExt,
    IntSLess,
    IntSLessEqual,
    IntSRem,
    IntSRight,
    IntSub,
    IntXor,
    IntZExt,
    Label,
    Load,
    LZCount,
    New,
    Piece,
    PopCount,
    Return,
    Round,
    SegmentOp,
    Store,
    SubPiece,
    Trunc,
    Unused1,
}

/// The opcode named by a mnemonic token, if any. This is the whole
/// vocabulary: a token equal to none of these names resolves to nothing.
pub open spec fn spec_opcode_of(s: Seq<char>) -> Option<Opcode> {
    if s == "BLANK"@ {
        Some(Opcode::Blank)
    } else if s == "BOOL_AND"@ {
        Some(Opcode::BoolAnd)
    } else if s == "BOOL_NEGATE"@ {
        Some(Opcode::BoolNegate)
    } else if s == "BOOL_OR"@ {
        Some(Opcode::BoolOr)
    } else if s == "BOOL_XOR"@ {
        Some(Opcode::BoolXor)
    } else if s == "BRANCH"@ {
        Some(Opcode::Branch)
    } else if s == "BRANCHIND"@ {
        Some(Opcode::BranchInd)
    } else if s == "BUILD"@ {
        Some(Opcode::Build)
    } else if s == "CALL"@ {
        Some(Opcode::Call)
    } else if s == "CALLIND"@ {
        Some(Opcode::CallInd)
    } else if s == "CALLOTHER"@ {
        Some(Opcode::CallOther)
    } else if s == "CBRANCH"@ {
        Some(Opcode::CBranch)
    } else if s == "FLOAT_CEIL"@ {
        Some(Opcode::Ceil)
    } else if s == "COPY"@ {
        Some(Opcode::Copy)
    } else if s == "CPOOLREF"@ {
        Some(Opcode::CPoolRef)
    } else if s == "CROSSBUILD"@ {
        Some(Opcode::CrossBuild)
    } else if s == "DELAY_SLOT"@ {
        Some(Opcode::DelaySlot)
    } else if s == "FLOAT2FLOAT"@ {
        Some(Opcode::Float2Float)
    } else if s == "FLOAT_ABS"@ {
        Some(Opcode::FloatAbs)
    } else if s == "FLOAT_ADD"@ {
        Some(Opcode::FloatAdd)
    } else if s == "FLOAT_DIV"@ {
        Some(Opcode::FloatDiv)
    } else if s == "FLOAT_EQUAL"@ {
        Some(Opcode::FloatEqual)
    } else if s == "FLOAT_LESS"@ {
        Some(Opcode::FloatLess)
    } else if s == "FLOAT_LESSEQUAL"@ {
        Some(Opcode::FloatLessEqual)
    } else if s == "FLOAT_MULT"@ {
        Some(Opcode::FloatMult)
    } else if s == "FLOAT_NAN"@ {
        Some(Opcode::FloatNaN)
    } else if s == "FLOAT_NEG"@ {
        Some(Opcode::FloatNeg)
    } else if s == "FLOAT_NOTEQUAL"@ {
        Some(Opcode::FloatNotEqual)
    } else if s == "FLOAT_SQRT"@ {
        Some(Opcode::FloatSqrt)
    } else if s == "FLOAT_SUB"@ {
        Some(Opcode::FloatSub)
    } else if s == "FLOAT_FLOOR"@ {
        Some(Opcode::FloatFloor)
    } else if s == "INT2FLOAT"@ {
        Some(Opcode::Int2Float)
    } else if s == "INT_2COMP"@ {
        Some(Opcode::Int2Comp)
    } else if s == "INT_ADD"@ {
        Some(Opcode::IntAdd)
    } else if s == "INT_AND"@ {
        Some(Opcode::IntAnd)
    } else if s == "INT_CARRY"@ {
        Some(Opcode::IntCarry)
    } else if s == "INT_DIV"@ {
        Some(Opcode::IntDiv)
    } else if s == "INT_EQUAL"@ {
        Some(Opcode::IntEqual)
    } else if s == "INT_LEFT"@ {
        Some(Opcode::IntLeft)
    } else if s == "INT_LESS"@ {
        Some(Opcode::IntLess)
    } else if s == "INT_LESSEQUAL"@ {
        Some(Opcode::IntLessEqual)
    } else if s == "INT_MULT"@ {
        Some(Opcode::IntMult)
    } else if s == "INT_NEGATE"@ {
        Some(Opcode::IntNegate)
    } else if s == "INT_NOTEQUAL"@ {
        Some(Opcode::IntNotEqual)
    } else if s == "INT_OR"@ {
        Some(Opcode::IntOr)
    } else if s == "INT_REM"@ {
        Some(Opcode::IntRem)
    } else if s == "INT_RIGHT"@ {
        Some(Opcode::IntRight)
    } else if s == "INT_SBORROW"@ {
        Some(Opcode::IntSBorrow)
    } else if s == "INT_SCARRY"@ {
        Some(Opcode::IntSCarry)
    } else if s == "INT_SDIV"@ {
        Some(Opcode::IntSDiv)
    } else if s == "INT_SEXT"@ {
        Some(Opcode::IntSExt)
    } else if s == "INT_SLESS"@ {
        Some(Opcode::IntSLess)
    } else if s == "INT_SLESSEQUAL"@ {
        Some(Opcode::IntSLessEqual)
    } else if s == "INT_SREM"@ {
        Some(Opcode::IntSRem)
    } else if s == "INT_SRIGHT"@ {
        Some(Opcode::IntSRight)
    } else if s == "INT_SUB"@ {
        Some(Opcode::IntSub)
    } else if s == "INT_XOR"@ {
        Some(Opcode::IntXor)
    } else if s == "INT_ZEXT"@ {
        Some(Opcode::IntZExt)
    } else if s == "LABEL"@ {
        Some(Opcode::Label)
    } else if s == "LOAD"@ {
        Some(Opcode::Load)
    } else if s == "LZCOUNT"@ {
        Some(Opcode::LZCount)
    } else if s == "NEW"@ {
        Some(Opcode::New)
    } else if s == "PIECE"@ {
        Some(Opcode::Piece)
    } else if s == "POPCOUNT"@ {
        Some(Opcode::PopCount)
    } else if s == "RETURN"@ {
        Some(Opcode::Return)
    } else if s == "FLOAT_ROUND"@ {
        Some(Opcode::Round)
    } else if s == "SEGMENTOP"@ {
        Some(Opcode::SegmentOp)
    } else if s == "STORE"@ {
        Some(Opcode::Store)
    } else if s == "SUBPIECE"@ {
        Some(Opcode::SubPiece)
    } else if s == "TRUNC"@ {
        Some(Opcode::Trunc)
    } else if s == "UNUSED1"@ {
        Some(Opcode::Unused1)
    } else {
        None
    }
}

/// Resolves a mnemonic token against the vocabulary, following
/// [`spec_opcode_of`].
#[verifier::rlimit(30)]
pub fn opcode_of(s: &str) -> (r: Option<Opcode>)
    ensures
        r == spec_opcode_of(s@),
{
    if str_eq(s, "BLANK") {
        Some(Opcode::Blank)
    } else if str_eq(s, "BOOL_AND") {
        Some(Opcode::BoolAnd)
    } else if str_eq(s, "BOOL_NEGATE") {
        Some(Opcode::BoolNegate)
    } else if str_eq(s, "BOOL_OR") {
        Some(Opcode::BoolOr)
    } else if str_eq(s, "BOOL_XOR") {
        Some(Opcode::BoolXor)
    } else if str_eq(s, "BRANCH") {
        Some(Opcode::Branch)
    } else if str_eq(s, "BRANCHIND") {
        Some(Opcode::BranchInd)
    } else if str_eq(s, "BUILD") {
        Some(Opcode::Build)
    } else if str_eq(s, "CALL") {
        Some(Opcode::Call)
    } else if str_eq(s, "CALLIND") {
        Some(Opcode::CallInd)
    } else if str_eq(s, "CALLOTHER") {
        Some(Opcode::CallOther)
    } else if str_eq(s, "CBRANCH") {
        Some(Opcode::CBranch)
    } else if str_eq(s, "FLOAT_CEIL") {
        Some(Opcode::Ceil)
    } else if str_eq(s, "COPY") {
        Some(Opcode::Copy)
    } else if str_eq(s, "CPOOLREF") {
        Some(Opcode::CPoolRef)
    } else if str_eq(s, "CROSSBUILD") {
        Some(Opcode::CrossBuild)
    } else if str_eq(s, "DELAY_SLOT") {
        Some(Opcode::DelaySlot)
    } else if str_eq(s, "FLOAT2FLOAT") {
        Some(Opcode::Float2Float)
    } else if str_eq(s, "FLOAT_ABS") {
        Some(Opcode::FloatAbs)
    } else if str_eq(s, "FLOAT_ADD") {
        Some(Opcode::FloatAdd)
    } else if str_eq(s, "FLOAT_DIV") {
        Some(Opcode::FloatDiv)
    } else if str_eq(s, "FLOAT_EQUAL") {
        Some(Opcode::FloatEqual)
    } else if str_eq(s, "FLOAT_LESS") {
        Some(Opcode::FloatLess)
    } else if str_eq(s, "FLOAT_LESSEQUAL") {
        Some(Opcode::FloatLessEqual)
    } else if str_eq(s, "FLOAT_MULT") {
        Some(Opcode::FloatMult)
    } else if str_eq(s, "FLOAT_NAN") {
        Some(Opcode::FloatNaN)
    } else if str_eq(s, "FLOAT_NEG") {
        Some(Opcode::FloatNeg)
    } else if str_eq(s, "FLOAT_NOTEQUAL") {
        Some(Opcode::FloatNotEqual)
    } else if str_eq(s, "FLOAT_SQRT") {
        Some(Opcode::FloatSqrt)
    } else if str_eq(s, "FLOAT_SUB") {
        Some(Opcode::FloatSub)
    } else if str_eq(s, "FLOAT_FLOOR") {
        Some(Opcode::FloatFloor)
    } else if str_eq(s, "INT2FLOAT") {
        Some(Opcode::Int2Float)
    } else if str_eq(s, "INT_2COMP") {
        Some(Opcode::Int2Comp)
    } else if str_eq(s, "INT_ADD") {
        Some(Opcode::IntAdd)
    } else if str_eq(s, "INT_AND") {
        Some(Opcode::IntAnd)
    } else if str_eq(s, "INT_CARRY") {
        Some(Opcode::IntCarry)
    } else if str_eq(s, "INT_DIV") {
        Some(Opcode::IntDiv)
    } else if str_eq(s, "INT_EQUAL") {
        Some(Opcode::IntEqual)
    } else if str_eq(s, "INT_LEFT") {
        Some(Opcode::IntLeft)
    } else if str_eq(s, "INT_LESS") {
        Some(Opcode::IntLess)
    } else if str_eq(s, "INT_LESSEQUAL") {
        Some(Opcode::IntLessEqual)
    } else if str_eq(s, "INT_MULT") {
        Some(Opcode::IntMult)
    } else if str_eq(s, "INT_NEGATE") {
        Some(Opcode::IntNegate)
    } else if str_eq(s, "INT_NOTEQUAL") {
        Some(Opcode::IntNotEqual)
    } else if str_eq(s, "INT_OR") {
        Some(Opcode::IntOr)
    } else if str_eq(s, "INT_REM") {
        Some(Opcode::IntRem)
    } else if str_eq(s, "INT_RIGHT") {
        Some(Opcode::IntRight)
    } else if str_eq(s, "INT_SBORROW") {
        Some(Opcode::IntSBorrow)
    } else if str_eq(s, "INT_SCARRY") {
        Some(Opcode::IntSCarry)
    } else if str_eq(s, "INT_SDIV") {
        Some(Opcode::IntSDiv)
    } else if str_eq(s, "INT_SEXT") {
        Some(Opcode::IntSExt)
    } else if str_eq(s, "INT_SLESS") {
        Some(Opcode::IntSLess)
    } else if str_eq(s, "INT_SLESSEQUAL") {
        Some(Opcode::IntSLessEqual)
    } else if str_eq(s, "INT_SREM") {
        Some(Opcode::IntSRem)
    } else if str_eq(s, "INT_SRIGHT") {
        Some(Opcode::IntSRight)
    } else if str_eq(s, "INT_SUB") {
        Some(Opcode::IntSub)
    } else if str_eq(s, "INT_XOR") {
        Some(Opcode::IntXor)
    } else if str_eq(s, "INT_ZEXT") {
        Some(Opcode::IntZExt)
    } else if str_eq(s, "LABEL") {
        Some(Opcode::Label)
    } else if str_eq(s, "LOAD") {
        Some(Opcode::Load)
    } else if str_eq(s, "LZCOUNT") {
        Some(Opcode::LZCount)
    } else if str_eq(s, "NEW") {
        Some(Opcode::New)
    } else if str_eq(s, "PIECE") {
        Some(Opcode::Piece)
    } else if str_eq(s, "POPCOUNT") {
        Some(Opcode::PopCount)
    } else if str_eq(s, "RETURN") {
        Some(Opcode::Return)
    } else if str_eq(s, "FLOAT_ROUND") {
        Some(Opcode::Round)
    } else if str_eq(s, "SEGMENTOP") {
        Some(Opcode::SegmentOp)
    } else if str_eq(s, "STORE") {
        Some(Opcode::Store)
    } else if str_eq(s, "SUBPIECE") {
        Some(Opcode::SubPiece)
    } else if str_eq(s, "TRUNC") {
        Some(Opcode::Trunc)
    } else if str_eq(s, "UNUSED1") {
        Some(Opcode::Unused1)
    } else {
        None
    }
}

/// Whether an opcode produces a value: must it, may it, or must it not
/// carry an output operand.
#[derive(Clone, Copy, Debug, Eq, PartialEq, Structural)]
pub enum OutputRule {
    Required,
    Forbidden,
    Optional,
}

/// The output rule of each opcode. Value-producing operations require an
/// output; pure control transfer and stores forbid one; the rule is left
/// open where dump formats vary.
pub open spec fn spec_output_rule(op: Opcode) -> OutputRule {
    match op {
        Opcode::BoolNegate | Opcode::IntNegate | Opcode::Int2Comp | Opcode::IntZExt
            | Opcode::IntSExt | Opcode::FloatNeg | Opcode::FloatAbs | Opcode::FloatSqrt
            | Opcode::FloatNaN | Opcode::Int2Float | Opcode::Float2Float | Opcode::Trunc
            | Opcode::Ceil | Opcode::FloatFloor | Opcode::Round | Opcode::PopCount
            | Opcode::LZCount | Opcode::Copy => OutputRule::Required,
        Opcode::BoolAnd | Opcode::BoolOr | Opcode::BoolXor | Opcode::IntAdd | Opcode::IntSub
            | Opcode::IntMult | Opcode::IntDiv | Opcode::IntSDiv | Opcode::IntRem
            | Opcode::IntSRem | Opcode::IntAnd | Opcode::IntOr | Opcode::IntXor
            | Opcode::IntLeft | Opcode::IntRight | Opcode::IntSRight | Opcode::IntEqual
            | Opcode::IntNotEqual | Opcode::IntLess | Opcode::IntLessEqual | Opcode::IntSLess
            | Opcode::IntSLessEqual | Opcode::IntCarry | Opcode::IntSCarry | Opcode::IntSBorrow
            | Opcode::FloatAdd | Opcode::FloatSub | Opcode::FloatMult | Opcode::FloatDiv
            | Opcode::FloatEqual | Opcode::FloatNotEqual | Opcode::FloatLess
            | Opcode::FloatLessEqual | Opcode::Piece | Opcode::SubPiece => OutputRule::Required,
        Opcode::Load | Opcode::CPoolRef | Opcode::New => OutputRule::Required,
        Opcode::Branch | Opcode::BranchInd | Opcode::CBranch | Opcode::Call | Opcode::CallInd
            | Opcode::Return | Opcode::Store | Opcode::Blank | Opcode::Label
            | Opcode::CrossBuild | Opcode::DelaySlot => OutputRule::Forbidden,
        Opcode::CallOther | Opcode::Build | Opcode::SegmentOp
            | Opcode::Unused1 => OutputRule::Optional,
    }
}

/// The fixed input count of an opcode, or `None` where the shape is not
/// fixed (calls, returns, structural markers).
pub open spec fn spec_input_arity(op: Opcode) -> Option<int> {
    match op {
        Opcode::BoolNegate | Opcode::IntNegate | Opcode::Int2Comp | Opcode::IntZExt
            | Opcode::IntSExt | Opcode::FloatNeg | Opcode::FloatAbs | Opcode::FloatSqrt
            | Opcode::FloatNaN | Opcode::Int2Float | Opcode::Float2Float | Opcode::Trunc
            | Opcode::Ceil | Opcode::FloatFloor | Opcode::Round | Opcode::PopCount
            | Opcode::LZCount | Opcode::Copy => Some(1),
        Opcode::BoolAnd | Opcode::BoolOr | Opcode::BoolXor | Opcode::IntAdd | Opcode::IntSub
            | Opcode::IntMult | Opcode::IntDiv | Opcode::IntSDiv | Opcode::IntRem
            | Opcode::IntSRem | Opcode::IntAnd | Opcode::IntOr | Opcode::IntXor
            | Opcode::IntLeft | Opcode::IntRight | Opcode::IntSRight | Opcode::IntEqual
            | Opcode::IntNotEqual | Opcode::IntLess | Opcode::IntLessEqual | Opcode::IntSLess
            | Opcode::IntSLessEqual | Opcode::IntCarry | Opcode::IntSCarry | Opcode::IntSBorrow
            | Opcode::FloatAdd | Opcode::FloatSub | Opcode::FloatMult | Opcode::FloatDiv
            | Opcode::FloatEqual | Opcode::FloatNotEqual | Opcode::FloatLess
            | Opcode::FloatLessEqual | Opcode::Piece | Opcode::SubPiece => Some(2),
        Opcode::Branch | Opcode::BranchInd => Some(1),
        Opcode::CBranch => Some(2),
        Opcode::Blank => Some(0),
        _ => None,
    }
}

/// Whether an output's presence and an input count fit the opcode's shape.
pub open spec fn spec_arity_ok(op: Opcode, has_output: bool, n_inputs: int) -> bool {
    &&& match spec_output_rule(op) {
        OutputRule::Required => has_output,
        OutputRule::Forbidden => !has_output,
        OutputRule::Optional => true,
    }
    &&& match spec_input_arity(op) {
        Some(n) => n_inputs == n,
        None => true,
    }
}

/// Checks an instruction's shape against its opcode, following
/// [`spec_arity_ok`].
pub fn arity_ok(op: Opcode, has_output: bool, n_inputs: usize) -> (r: bool)
    ensures
        r == spec_arity_ok(op, has_output, n_inputs as int),
{
    let out_ok = match output_rule_of(op) {
        OutputRule::Required => has_output,
        OutputRule::Forbidden => !has_output,
        OutputRule::Optional => true,
    };
    let in_ok = match input_arity_of(op) {
        Some(n) => n_inputs == n,
        None => true,
    };
    out_ok && in_ok
}

/// The output rule, computed; follows [`spec_output_rule`].
fn output_rule_of(op: Opcode) -> (r: OutputRule)
    ensures
        r == spec_output_rule(op),
{
    match op {
        Opcode::BoolNegate | Opcode::IntNegate | Opcode::Int2Comp | Opcode::IntZExt
            | Opcode::IntSExt | Opcode::FloatNeg | Opcode::FloatAbs | Opcode::FloatSqrt
            | Opcode::FloatNaN | Opcode::Int2Float | Opcode::Float2Float | Opcode::Trunc
            | Opcode::Ceil | Opcode::FloatFloor | Opcode::Round | Opcode::PopCount
            | Opcode::LZCount | Opcode::Copy => OutputRule::Required,
        Opcode::BoolAnd | Opcode::BoolOr | Opcode::BoolXor | Opcode::IntAdd | Opcode::IntSub
            | Opcode::IntMult | Opcode::IntDiv | Opcode::IntSDiv | Opcode::IntRem
            | Opcode::IntSRem | Opcode::IntAnd | Opcode::IntOr | Opcode::IntXor
            | Opcode::IntLeft | Opcode::IntRight | Opcode::IntSRight | Opcode::IntEqual
            | Opcode::IntNotEqual | Opcode::IntLess | Opcode::IntLessEqual | Opcode::IntSLess
            | Opcode::IntSLessEqual | Opcode::IntCarry | Opcode::IntSCarry | Opcode::IntSBorrow
            | Opcode::FloatAdd | Opcode::FloatSub | Opcode::FloatMult | Opcode::FloatDiv
            | Opcode::FloatEqual | Opcode::FloatNotEqual | Opcode::FloatLess
            | Opcode::FloatLessEqual | Opcode::Piece | Opcode::SubPiece => OutputRule::Required,
        Opcode::Load | Opcode::CPoolRef | Opcode::New => OutputRule::Required,
        Opcode::Branch | Opcode::BranchInd | Opcode::CBranch | Opcode::Call | Opcode::CallInd
            | Opcode::Return | Opcode::Store | Opcode::Blank | Opcode::Label
            | Opcode::CrossBuild | Opcode::DelaySlot => OutputRule::Forbidden,
        Opcode::CallOther | Opcode::Build | Opcode::SegmentOp
            | Opcode::Unused1 => OutputRule::Optional,
    }
}

/// The fixed input count, computed; follows [`spec_input_arity`].
fn input_arity_of(op: Opcode) -> (r: Option<usize>)
    ensures
        match r {
            Some(n) => spec_input_arity(op) == Some(n as int),
            None => spec_input_arity(op) is None,
        },
{
    match op {
        Opcode::BoolNegate | Opcode::IntNegate | Opcode::Int2Comp | Opcode::IntZExt
            | Opcode::IntSExt | Opcode::FloatNeg | Opcode::FloatAbs | Opcode::FloatSqrt
            | Opcode::FloatNaN | Opcode::Int2Float | Opcode::Float2Float | Opcode::Trunc
            | Opcode::Ceil | Opcode::FloatFloor | Opcode::Round | Opcode::PopCount
            | Opcode::LZCount | Opcode::Copy => Some(1),
        Opcode::BoolAnd | Opcode::BoolOr | Opcode::BoolXor | Opcode::IntAdd | Opcode::IntSub
            | Opcode::IntMult | Opcode::IntDiv | Opcode::IntSDiv | Opcode::IntRem
            | Opcode::IntSRem | Opcode::IntAnd | Opcode::IntOr | Opcode::IntXor
            | Opcode::IntLeft | Opcode::IntRight | Opcode::IntSRight | Opcode::IntEqual
            | Opcode::IntNotEqual | Opcode::IntLess | Opcode::IntLessEqual | Opcode::IntSLess
            | Opcode::IntSLessEqual | Opcode::IntCarry | Opcode::IntSCarry | Opcode::IntSBorrow
            | Opcode::FloatAdd | Opcode::FloatSub | Opcode::FloatMult | Opcode::FloatDiv
            | Opcode::FloatEqual | Opcode::FloatNotEqual | Opcode::FloatLess
            | Opcode::FloatLessEqual | Opcode::Piece | Opcode::SubPiece => Some(2),
        Opcode::Branch | Opcode::BranchInd => Some(1),
        Opcode::CBranch => Some(2),
        Opcode::Blank => Some(0),
        _ => None,
    }
}

} // verus!
