use pcode_ir::CodeListing;
use pcode_ir::ErrorKind;
use pcode_ir::Opcode;
use pcode_ir::ParseError;
use pcode_ir::Var;
use pcode_ir::parser::parse_listing;

fn lines(texts: &[&str]) -> Vec<String> {
    texts.iter().map(|s| s.to_string()).collect()
}

#[test]
fn addresses_iterate_ascending_whatever_the_arrival_order() {
    let input = lines(&[
        "10: BRANCH (ram, 0x0, 4)",
        "5: BRANCH (ram, 0x1, 4)",
    ]);
    let listing = parse_listing(&input).unwrap();
    assert_eq!(listing.len(), 2);
    assert_eq!(listing.addr_at(0), 0x5);
    assert_eq!(listing.addr_at(1), 0x10);
}

#[test]
fn one_address_keeps_arrival_order() {
    let input = lines(&[
        "5: COPY (unique, 0x1, 4) = (const, 0x1, 4)",
        "5: COPY (unique, 0x2, 4) = (const, 0x2, 4)",
        "5: BRANCH (ram, 0x0, 4)",
    ]);
    let listing = parse_listing(&input).unwrap();
    assert_eq!(listing.len(), 1);
    let insts = listing.insts_at(0);
    assert_eq!(insts.len(), 3);
    assert_eq!(insts[0].output.as_ref().unwrap().var, Var::Unique(0x1));
    assert_eq!(insts[1].output.as_ref().unwrap().var, Var::Unique(0x2));
    assert_eq!(insts[2].opcode, Opcode::Branch);
}

#[test]
fn parsing_twice_yields_equal_listings() {
    let input = lines(&[
        "1000: COPY (unique, 0x80, 4) = (const, 0x7, 4)",
        "1000: INT_ADD (register, 0x0, 8) = (register, 0x0, 8), (const, 0x8, 8)",
        "1004: BRANCH (ram, 0x2000, 4)",
    ]);
    let a = parse_listing(&input).unwrap();
    let b = parse_listing(&input).unwrap();
    assert_eq!(a, b);
}

#[test]
fn blank_lines_are_skipped() {
    let input = lines(&[
        "",
        "5: BRANCH (ram, 0x0, 4)",
        "   ",
        "6: BRANCH (ram, 0x1, 4)",
        "",
    ]);
    let listing = parse_listing(&input).unwrap();
    assert_eq!(listing.len(), 2);
}

#[test]
fn first_bad_line_stops_the_parse_with_its_index() {
    let input = lines(&[
        "5: BRANCH (ram, 0x0, 4)",
        "6: FOO_BAR (ram, 0x1, 4)",
        "7: BRANCH (ram, 0x2, 4)",
    ]);
    let r = parse_listing(&input);
    assert_eq!(
        r,
        Err(ParseError { line: 1, kind: ErrorKind::UnknownMnemonic })
    );
}

#[test]
fn unknown_mnemonic_returns_no_partial_listing() {
    let input = lines(&[
        "5: FOO_BAR (ram, 0x0, 4)",
        "6: BRANCH (ram, 0x1, 4)",
    ]);
    match parse_listing(&input) {
        Err(e) => {
            assert_eq!(e.line, 0);
            assert_eq!(e.kind, ErrorKind::UnknownMnemonic);
        },
        Ok(_) => panic!("a listing came back from invalid input"),
    }
}

#[test]
fn lookup_by_address() {
    let input = lines(&[
        "10: BRANCH (ram, 0x0, 4)",
        "5: CBRANCH (ram, 0x1, 4), (register, 0x200, 1)",
    ]);
    let listing = parse_listing(&input).unwrap();
    let at5 = listing.get(0x5).unwrap();
    assert_eq!(at5.len(), 1);
    assert_eq!(at5[0].opcode, Opcode::CBranch);
    assert!(listing.get(0x6).is_none());
    assert!(listing.get(0x10).is_some());
}

#[test]
fn empty_input_gives_an_empty_listing() {
    let listing = parse_listing(&Vec::new()).unwrap();
    assert_eq!(listing.len(), 0);
    let listing2 = CodeListing::new();
    assert_eq!(listing, listing2);
}

#[test]
fn manual_push_groups_by_address() {
    let input = lines(&["1000: COPY (unique, 0x80, 4) = (const, 0x7, 4)"]);
    let parsed = parse_listing(&input).unwrap();
    let mut built = CodeListing::new();
    let inst = parsed.insts_at(0)[0].clone();
    built.push(0x1000, inst);
    assert_eq!(built, parsed);
}
