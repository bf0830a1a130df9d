use pcode_ir::ErrorKind;
use pcode_ir::Opcode;
use pcode_ir::Size;
use pcode_ir::Var;
use pcode_ir::Varnode;
use pcode_ir::parser::parse_line;

#[test]
fn copy_line_with_output_and_one_input() {
    let r = parse_line("1000: COPY (unique, 0x80, 4) = (const, 0x7, 4)").unwrap();
    let (addr, inst) = r.unwrap();
    assert_eq!(addr, 0x1000);
    assert_eq!(inst.opcode, Opcode::Copy);
    assert_eq!(
        inst.output,
        Some(Varnode { var: Var::Unique(0x80), size: Size::Word })
    );
    assert_eq!(inst.inputs.len(), 1);
    assert_eq!(
        inst.inputs[0],
        Varnode { var: Var::Const("0x7".to_string()), size: Size::Word }
    );
}

#[test]
fn branch_line_without_output() {
    let r = parse_line("1000: BRANCH (ram, 0x2000, 4)").unwrap();
    let (addr, inst) = r.unwrap();
    assert_eq!(addr, 0x1000);
    assert_eq!(inst.opcode, Opcode::Branch);
    assert_eq!(inst.output, None);
    assert_eq!(inst.inputs.len(), 1);
    assert_eq!(
        inst.inputs[0],
        Varnode { var: Var::Memory(0x2000), size: Size::Word }
    );
}

#[test]
fn binary_arithmetic_line() {
    let r = parse_line("4f2: INT_ADD (register, 0x0, 8) = (register, 0x0, 8), (const, 0x8, 8)")
        .unwrap();
    let (addr, inst) = r.unwrap();
    assert_eq!(addr, 0x4F2);
    assert_eq!(inst.opcode, Opcode::IntAdd);
    assert_eq!(
        inst.output,
        Some(Varnode { var: Var::Register(0x0, Size::Quad), size: Size::Quad })
    );
    assert_eq!(inst.inputs.len(), 2);
    assert_eq!(
        inst.inputs[1],
        Varnode { var: Var::Const("0x8".to_string()), size: Size::Quad }
    );
}

#[test]
fn input_order_is_source_order() {
    let r = parse_line("10: INT_SUB (unique, 0x1, 4) = (unique, 0x2, 4), (unique, 0x3, 4)")
        .unwrap();
    let (_, inst) = r.unwrap();
    assert_eq!(inst.inputs[0].var, Var::Unique(0x2));
    assert_eq!(inst.inputs[1].var, Var::Unique(0x3));
}

#[test]
fn blank_line_is_skipped() {
    assert_eq!(parse_line("").unwrap(), None);
    assert_eq!(parse_line("   \t  ").unwrap(), None);
}

#[test]
fn unknown_mnemonic() {
    assert_eq!(
        parse_line("1000: FOO_BAR (const, 0x1, 4)"),
        Err(ErrorKind::UnknownMnemonic)
    );
}

#[test]
fn missing_colon_is_a_malformed_address() {
    assert_eq!(
        parse_line("COPY (unique, 0x80, 4) = (const, 0x7, 4)"),
        Err(ErrorKind::MalformedAddress)
    );
}

#[test]
fn non_numeric_address() {
    assert_eq!(
        parse_line("xyz: COPY (unique, 0x80, 4) = (const, 0x7, 4)"),
        Err(ErrorKind::MalformedAddress)
    );
}

#[test]
fn address_too_wide_for_64_bits() {
    assert_eq!(
        parse_line("10000000000000000: BRANCH (ram, 0x0, 4)"),
        Err(ErrorKind::MalformedAddress)
    );
}

#[test]
fn arity_mismatch_output_missing() {
    assert_eq!(
        parse_line("1000: COPY (const, 0x7, 4)"),
        Err(ErrorKind::ArityMismatch)
    );
}

#[test]
fn arity_mismatch_output_forbidden() {
    assert_eq!(
        parse_line("1000: BRANCH (unique, 0x1, 4) = (ram, 0x2000, 4)"),
        Err(ErrorKind::ArityMismatch)
    );
}

#[test]
fn arity_mismatch_wrong_input_count() {
    assert_eq!(
        parse_line("1000: INT_ADD (unique, 0x1, 4) = (const, 0x2, 4)"),
        Err(ErrorKind::ArityMismatch)
    );
    assert_eq!(
        parse_line("1000: BOOL_NEGATE (unique, 0x1, 1) = (unique, 0x2, 1), (unique, 0x3, 1)"),
        Err(ErrorKind::ArityMismatch)
    );
}

#[test]
fn operand_error_is_reported_from_a_line() {
    assert_eq!(
        parse_line("1000: COPY (unique, 0x80, 4) = (const, 0x7)"),
        Err(ErrorKind::MalformedOperand)
    );
    assert_eq!(
        parse_line("1000: COPY (unique, 0x80, 4) = (stack, 0x7, 4)"),
        Err(ErrorKind::UnknownOperandSpace)
    );
    assert_eq!(
        parse_line("1000: COPY (unique, 0x80, 4) = (const, 0x7, 5)"),
        Err(ErrorKind::UnsupportedWidth)
    );
}

#[test]
fn call_takes_variable_inputs() {
    let r = parse_line("20: CALL (ram, 0x4000, 8), (register, 0x38, 8)").unwrap();
    let (_, inst) = r.unwrap();
    assert_eq!(inst.opcode, Opcode::Call);
    assert_eq!(inst.output, None);
    assert_eq!(inst.inputs.len(), 2);
}

#[test]
fn return_takes_no_output() {
    let r = parse_line("30: RETURN (register, 0x288, 8)").unwrap();
    let (_, inst) = r.unwrap();
    assert_eq!(inst.opcode, Opcode::Return);
    assert_eq!(inst.output, None);
}

#[test]
fn store_line() {
    let r = parse_line("40: STORE (const, 0x1b1, 4), (register, 0x20, 8), (register, 0x0, 8)")
        .unwrap();
    let (_, inst) = r.unwrap();
    assert_eq!(inst.opcode, Opcode::Store);
    assert_eq!(inst.output, None);
    assert_eq!(inst.inputs.len(), 3);
}

#[test]
fn load_line() {
    let r = parse_line("50: LOAD (register, 0x0, 8) = (const, 0x1b1, 4), (register, 0x20, 8)")
        .unwrap();
    let (_, inst) = r.unwrap();
    assert_eq!(inst.opcode, Opcode::Load);
    assert!(inst.output.is_some());
    assert_eq!(inst.inputs.len(), 2);
}
