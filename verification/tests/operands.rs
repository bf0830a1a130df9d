use pcode_ir::ErrorKind;
use pcode_ir::Size;
use pcode_ir::Var;
use pcode_ir::Varnode;
use pcode_ir::operand::parse_operand;

#[test]
fn const_operand_keeps_text() {
    let v = parse_operand("(const, 0x2a, 4)").unwrap();
    assert_eq!(
        v,
        Varnode { var: Var::Const("0x2a".to_string()), size: Size::Word }
    );
}

#[test]
fn unique_operand() {
    let v = parse_operand("(unique, 0x1180, 8)").unwrap();
    assert_eq!(v, Varnode { var: Var::Unique(0x1180), size: Size::Quad });
}

#[test]
fn register_operand_carries_its_own_width() {
    let v = parse_operand("(register, 0x20, 4)").unwrap();
    assert_eq!(
        v,
        Varnode { var: Var::Register(0x20, Size::Word), size: Size::Word }
    );
}

#[test]
fn ram_operand_with_offset_is_memory() {
    let v = parse_operand("(ram, 0x2000, 4)").unwrap();
    assert_eq!(v, Varnode { var: Var::Memory(0x2000), size: Size::Word });
}

#[test]
fn bare_ram_sentinel() {
    let v = parse_operand("(ram)").unwrap();
    assert_eq!(v.var, Var::MemoryRam);
}

#[test]
fn const_literal_wider_than_64_bits_is_kept_textually() {
    let v = parse_operand("(const, 0xdeadbeefdeadbeef11, 8)").unwrap();
    assert_eq!(
        v,
        Varnode {
            var: Var::Const("0xdeadbeefdeadbeef11".to_string()),
            size: Size::Quad
        }
    );
}

#[test]
fn missing_width_is_malformed() {
    assert_eq!(
        parse_operand("(const, 0x5)"),
        Err(ErrorKind::MalformedOperand)
    );
}

#[test]
fn unknown_space_token() {
    assert_eq!(
        parse_operand("(stack, 0x5, 4)"),
        Err(ErrorKind::UnknownOperandSpace)
    );
}

#[test]
fn unsupported_width() {
    assert_eq!(
        parse_operand("(const, 0x5, 3)"),
        Err(ErrorKind::UnsupportedWidth)
    );
    assert_eq!(
        parse_operand("(const, 0x5, 0)"),
        Err(ErrorKind::UnsupportedWidth)
    );
    assert_eq!(
        parse_operand("(const, 0x5, 99999999999999999999999)"),
        Err(ErrorKind::UnsupportedWidth)
    );
}

#[test]
fn non_hexadecimal_identifier_is_malformed() {
    assert_eq!(
        parse_operand("(unique, 17, 4)"),
        Err(ErrorKind::MalformedOperand)
    );
    assert_eq!(
        parse_operand("(const, 0xZZ, 4)"),
        Err(ErrorKind::MalformedOperand)
    );
}

#[test]
fn offset_too_wide_for_64_bits_is_malformed() {
    assert_eq!(
        parse_operand("(unique, 0x10000000000000000, 4)"),
        Err(ErrorKind::MalformedOperand)
    );
}

#[test]
fn missing_parentheses_is_malformed() {
    assert_eq!(
        parse_operand("const, 0x5, 4"),
        Err(ErrorKind::MalformedOperand)
    );
    assert_eq!(parse_operand(""), Err(ErrorKind::MalformedOperand));
    assert_eq!(parse_operand("()"), Err(ErrorKind::MalformedOperand));
}

#[test]
fn surrounding_whitespace_is_ignored() {
    let v = parse_operand("   ( const ,  0x2a ,   4 )  ").unwrap();
    assert_eq!(
        v,
        Varnode { var: Var::Const("0x2a".to_string()), size: Size::Word }
    );
}

#[test]
fn width_chooses_every_size_tag() {
    let cases = [
        ("1", Size::Byte),
        ("2", Size::Half),
        ("4", Size::Word),
        ("8", Size::Quad),
        ("9", Size::Size9),
        ("10", Size::Size10),
        ("16", Size::DoubleQuad),
        ("32", Size::QuadQuad),
    ];
    for (w, expect) in cases {
        let text = format!("(unique, 0x1, {})", w);
        let v = parse_operand(&text).unwrap();
        assert_eq!(v.size, expect);
    }
}
