use pcode_ir::Size;
use pcode_ir::Value;

#[test]
fn size_bit_widths_exact() {
    assert_eq!(Size::Byte.to_bitvector_size(), 8);
    assert_eq!(Size::Half.to_bitvector_size(), 16);
    assert_eq!(Size::Word.to_bitvector_size(), 32);
    assert_eq!(Size::Quad.to_bitvector_size(), 64);
    assert_eq!(Size::Size9.to_bitvector_size(), 72);
    assert_eq!(Size::Size10.to_bitvector_size(), 80);
    assert_eq!(Size::DoubleQuad.to_bitvector_size(), 128);
    assert_eq!(Size::QuadQuad.to_bitvector_size(), 256);
}

#[test]
fn size_bit_widths_supported_set() {
    let supported = [8u32, 16, 32, 64, 72, 80, 128, 256];
    let tags = [
        Size::Byte,
        Size::Half,
        Size::Word,
        Size::Quad,
        Size::Size9,
        Size::Size10,
        Size::DoubleQuad,
        Size::QuadQuad,
    ];
    for tag in tags {
        assert!(supported.contains(&tag.to_bitvector_size()));
    }
}

#[test]
fn value_from_word_positive() {
    assert_eq!(Value::from_word(5).data, 5);
    assert_eq!(Value::from_word(0).data, 0);
    assert_eq!(Value::from_word(0x7FFF_FFFF).data, i32::MAX);
}

#[test]
fn value_from_word_wraps_negative() {
    assert_eq!(Value::from_word(0x8000_0000).data, i32::MIN);
    assert_eq!(Value::from_word(0xFFFF_FFFF).data, -1);
}

#[test]
fn value_from_quad_truncates_low_32_bits() {
    assert_eq!(Value::from_quad(0xFFFF_FFFF_FFFF_FFFF).data, -1);
    assert_eq!(Value::from_quad(0x1_0000_0000).data, 0);
    assert_eq!(Value::from_quad(0x1_0000_002A).data, 0x2A);
    assert_eq!(Value::from_quad(42).data, 42);
}

#[test]
fn value_from_half_and_byte_zero_extend() {
    assert_eq!(Value::from_half(0xFFFF).data, 0xFFFF);
    assert_eq!(Value::from_half(7).data, 7);
    assert_eq!(Value::from_byte(0xFF).data, 0xFF);
    assert_eq!(Value::from_byte(0).data, 0);
}
