//! The line grammar and the parsing entry point.
//!
//! A logical line is an address prefix, a colon, an opcode mnemonic, an
//! optional output operand left of `=`, and comma-separated input operands.
//! Blank lines are skipped. The grammar is written declaratively as spec
//! functions over character sequences; every executable parsing function is
//! verified to follow it exactly.
//!
//! The parser is fail-fast: the first structurally invalid line stops the
//! parse, and the error is returned with the line's index — a corrupted
//! listing is worse than no listing for downstream consumers.

use vstd::prelude::*;
use crate::error::ErrorKind;
use crate::error::ParseError;
use crate::inst::Inst;
use crate::inst::InstModel;
use crate::inst::varnodes_model;
use crate::listing::CodeListing;
use crate::listing::listing_get;
use crate::listing::listing_push;
use crate::listing::listing_sorted;
use crate::listing::lemma_listing_push_properties;
use crate::opcode::Opcode;
use crate::opcode::arity_ok;
use crate::opcode::opcode_of;
use crate::opcode::spec_arity_ok;
use crate::opcode::spec_opcode_of;
use crate::operand::Addr;
use crate::operand::Varnode;
use crate::operand::VarnodeModel;
use crate::operand::parse_operand;
use crate::operand::spec_parse_operand;
use crate::text::find_char;
use crate::text::find_char_in;
use crate::text::find_space;
use crate::text::find_space_in;
use crate::text::find_top;
use crate::text::find_top_in;
use crate::text::hex_value;
use crate::text::is_hex_numeral;
use crate::text::lemma_find_char_from;
use crate::text::lemma_find_space_from;
use crate::text::lemma_find_top_from_range;
use crate::text::lemma_hex_value_nonneg;
use crate::text::parse_hex_u64;
use crate::text::split_top;
use crate::text::split_top_in;
use crate::text::trim;
use crate::text::trimmed;

verus! {

/// The mnemonic token of a statement: everything before the first
/// whitespace, or the whole statement if it has none.
pub open spec fn spec_mnemonic(rest: Seq<char>) -> Seq<char> {
    match find_space(rest) {
        None => rest,
        Some(sp) => rest.take(sp),
    }
}

/// What follows the mnemonic token (empty if nothing does).
pub open spec fn spec_tail(rest: Seq<char>) -> Seq<char> {
    match find_space(rest) {
        None => Seq::empty(),
        Some(sp) => rest.skip(sp + 1),
    }
}

/// The output operand's text: what stands left of the assignment marker,
/// when the tail has one outside all parentheses.
pub open spec fn spec_out_text(tail: Seq<char>) -> Option<Seq<char>> {
    match find_top(tail, '=') {
        None => None,
        Some(e) => Some(tail.take(e)),
    }
}

/// The input operands' text: what stands right of the assignment marker,
/// or the whole tail when there is none.
pub open spec fn spec_in_text(tail: Seq<char>) -> Seq<char> {
    match find_top(tail, '=') {
        None => tail,
        Some(e) => tail.skip(e + 1),
    }
}

/// The operands denoted by a sequence of comma-separated fields, in order;
/// or the first field's error.
pub open spec fn spec_parse_operands(fields: Seq<Seq<char>>) -> Result<
    Seq<VarnodeModel>,
    ErrorKind,
>
    decreases fields.len(),
{
    if fields.len() == 0 {
        Ok(Seq::empty())
    } else {
        match spec_parse_operand(fields.first()) {
            Err(k) => Err(k),
            Ok(v) => match spec_parse_operands(fields.drop_first()) {
                Err(k) => Err(k),
                Ok(vs) => Ok(seq![v] + vs),
            },
        }
    }
}

/// The input operands denoted by the text right of the mnemonic (and of
/// `=`, if present): none when the text is blank, else one per
/// comma-separated field.
pub open spec fn spec_parse_inputs(s: Seq<char>) -> Result<Seq<VarnodeModel>, ErrorKind> {
    if trimmed(s).len() == 0 {
        Ok(Seq::empty())
    } else {
        spec_parse_operands(split_top(s, ','))
    }
}

/// The instruction denoted by a statement (the line after its address
/// prefix, trimmed): mnemonic resolution, output and input parsing, then
/// the arity check against the opcode's fixed shape.
pub open spec fn spec_parse_stmt(rest: Seq<char>) -> Result<InstModel, ErrorKind> {
    if rest.len() == 0 {
        Err(ErrorKind::UnknownMnemonic)
    } else {
        match spec_opcode_of(spec_mnemonic(rest)) {
            None => Err(ErrorKind::UnknownMnemonic),
            Some(op) => {
                let tail = spec_tail(rest);
                match spec_out_text(tail) {
                    None => match spec_parse_inputs(spec_in_text(tail)) {
                        Err(k) => Err(k),
                        Ok(ins) => if spec_arity_ok(op, false, ins.len() as int) {
                            Ok(InstModel { opcode: op, output: None, inputs: ins })
                        } else {
                            Err(ErrorKind::ArityMismatch)
                        },
                    },
                    Some(ot) => match spec_parse_operand(ot) {
                        Err(k) => Err(k),
                        Ok(outv) => match spec_parse_inputs(spec_in_text(tail)) {
                            Err(k) => Err(k),
                            Ok(ins) => if spec_arity_ok(op, true, ins.len() as int) {
                                Ok(InstModel { opcode: op, output: Some(outv), inputs: ins })
                            } else {
                                Err(ErrorKind::ArityMismatch)
                            },
                        },
                    },
                }
            },
        }
    }
}

/// What one raw line denotes: nothing for a blank line; otherwise an
/// address (the hexadecimal numeral before the first colon) and the
/// instruction of the statement after the colon.
pub open spec fn spec_parse_line(line: Seq<char>) -> Result<
    Option<(Addr, InstModel)>,
    ErrorKind,
> {
    let t = trimmed(line);
    if t.len() == 0 {
        Ok(None)
    } else {
        match find_char(t, ':') {
            None => Err(ErrorKind::MalformedAddress),
            Some(k) => {
                let addr_txt = trimmed(t.take(k));
                if !is_hex_numeral(addr_txt) || hex_value(addr_txt) > u64::MAX {
                    Err(ErrorKind::MalformedAddress)
                } else {
                    match spec_parse_stmt(trimmed(t.skip(k + 1))) {
                        Err(k2) => Err(k2),
                        Ok(im) => Ok(Some((hex_value(addr_txt) as u64, im))),
                    }
                }
            },
        }
    }
}

/// What a whole input denotes, folded line by line into a listing from
/// line `i` onward: the completed listing, or the first error with the
/// index of its line.
pub open spec fn spec_parse_from(
    lines: Seq<Seq<char>>,
    i: int,
    acc: Seq<(Addr, Seq<InstModel>)>,
) -> Result<Seq<(Addr, Seq<InstModel>)>, (int, ErrorKind)>
    decreases lines.len() - i,
{
    if i < 0 || i >= lines.len() {
        Ok(acc)
    } else {
        match spec_parse_line(lines[i]) {
            Err(k) => Err((i, k)),
            Ok(None) => spec_parse_from(lines, i + 1, acc),
            Ok(Some(p)) => spec_parse_from(lines, i + 1, listing_push(acc, p.0, p.1)),
        }
    }
}

/// What a whole input denotes, from its first line and an empty listing.
pub open spec fn spec_parse_lines(lines: Seq<Seq<char>>) -> Result<
    Seq<(Addr, Seq<InstModel>)>,
    (int, ErrorKind),
> {
    spec_parse_from(lines, 0, Seq::empty())
}

/// Parses one sequence of comma-separated operand fields, following
/// [`spec_parse_operands`].
fn parse_operand_fields(fields: &Vec<String>) -> (r: Result<Vec<Varnode>, ErrorKind>)
    ensures
        match spec_parse_operands(fields.deep_view()) {
            Ok(vs) => r matches Ok(v) && varnodes_model(v@) == vs,
            Err(k) => r matches Err(k2) && k2 == k,
        },
{
    let ghost full = fields.deep_view();
    let mut out: Vec<Varnode> = Vec::new();
    let n = fields.len();
    proof {
        assert(full.skip(0) =~= full);
        assert(varnodes_model(out@) =~= Seq::<VarnodeModel>::empty());
    }
    let mut i: usize = 0;
    while i < n
        invariant
            i <= n,
            n == fields@.len(),
            full == fields.deep_view(),
            spec_parse_operands(full) == (match spec_parse_operands(full.skip(i as int)) {
                Err(k) => Err::<Seq<VarnodeModel>, ErrorKind>(k),
                Ok(rest) => Ok(varnodes_model(out@) + rest),
            }),
        decreases n - i,
    {
        proof {
            assert(full.skip(i as int).first() == fields@[i as int]@);
            assert(full.skip(i as int).drop_first() =~= full.skip(i as int + 1));
        }
        let ghost out0 = out@;
        match parse_operand(fields[i].as_str()) {
            Err(k) => {
                return Err(k);
            },
            Ok(v) => {
                let ghost vm = v@;
                out.push(v);
                proof {
                    assert(varnodes_model(out@) =~= varnodes_model(out0).push(vm));
                    assert forall|rest: Seq<VarnodeModel>|
                        varnodes_model(out0) + (seq![vm] + rest) =~= varnodes_model(out@)
                            + rest by {}
                }
            },
        }
        i += 1;
    }
    proof {
        assert(full.skip(n as int) =~= Seq::<Seq<char>>::empty());
        assert(varnodes_model(out@) + Seq::<VarnodeModel>::empty() =~= varnodes_model(out@));
    }
    Ok(out)
}

/// Parses the input operands' text, following [`spec_parse_inputs`].
fn parse_inputs(s: &str) -> (r: Result<Vec<Varnode>, ErrorKind>)
    ensures
        match spec_parse_inputs(s@) {
            Ok(vs) => r matches Ok(v) && varnodes_model(v@) == vs,
            Err(k) => r matches Err(k2) && k2 == k,
        },
{
    let u = trim(s);
    if u.unicode_len() == 0 {
        let out: Vec<Varnode> = Vec::new();
        proof {
            assert(varnodes_model(out@) =~= Seq::<VarnodeModel>::empty());
        }
        return Ok(out);
    }
    let fields = split_top_in(s, ',');
    parse_operand_fields(&fields)
}

/// Parses one statement (a line after its address prefix, trimmed),
/// following [`spec_parse_stmt`].
fn parse_stmt(rest: &str) -> (r: Result<Inst, ErrorKind>)
    ensures
        match spec_parse_stmt(rest@) {
            Ok(im) => r matches Ok(inst) && inst@ == im,
            Err(k) => r matches Err(k2) && k2 == k,
        },
{
    let n = rest.unicode_len();
    if n == 0 {
        return Err(ErrorKind::UnknownMnemonic);
    }
    let mnem: &str;
    let tail: &str;
    match find_space_in(rest) {
        None => {
            mnem = rest;
            tail = rest.substring_char(n, n);
            proof {
                assert(tail@ =~= Seq::<char>::empty());
            }
        },
        Some(sp) => {
            proof {
                lemma_find_space_from(rest@, 0);
            }
            mnem = rest.substring_char(0, sp);
            tail = rest.substring_char(sp + 1, n);
            proof {
                assert(mnem@ =~= rest@.take(sp as int));
                assert(tail@ =~= rest@.skip(sp as int + 1));
            }
        },
    }
    let op = match opcode_of(mnem) {
        None => {
            return Err(ErrorKind::UnknownMnemonic);
        },
        Some(op) => op,
    };
    let tn = tail.unicode_len();
    match find_top_in(tail, '=') {
        None => {
            match parse_inputs(tail) {
                Err(k) => Err(k),
                Ok(ins) => {
                    proof {
                        assert(varnodes_model(ins@).len() == ins@.len());
                    }
                    if arity_ok(op, false, ins.len()) {
                        let inst = Inst { opcode: op, output: None, inputs: ins };
                        Ok(inst)
                    } else {
                        Err(ErrorKind::ArityMismatch)
                    }
                },
            }
        },
        Some(e) => {
            proof {
                lemma_find_top_from_range(tail@, '=', 0, 0);
            }
            let out_txt = tail.substring_char(0, e);
            proof {
                assert(out_txt@ =~= tail@.take(e as int));
            }
            match parse_operand(out_txt) {
                Err(k) => Err(k),
                Ok(outv) => {
                    let in_txt = tail.substring_char(e + 1, tn);
                    proof {
                        assert(in_txt@ =~= tail@.skip(e as int + 1));
                    }
                    match parse_inputs(in_txt) {
                        Err(k) => Err(k),
                        Ok(ins) => {
                            proof {
                                assert(varnodes_model(ins@).len() == ins@.len());
                            }
                            if arity_ok(op, true, ins.len()) {
                                let inst = Inst { opcode: op, output: Some(outv), inputs: ins };
                                Ok(inst)
                            } else {
                                Err(ErrorKind::ArityMismatch)
                            }
                        },
                    }
                },
            }
        },
    }
}

/// Parses one raw line, following [`spec_parse_line`]: `Ok(None)` for a
/// blank line, the owning address and its instruction otherwise, or the
/// line's error.
pub fn parse_line(line: &str) -> (r: Result<Option<(Addr, Inst)>, ErrorKind>)
    ensures
        match spec_parse_line(line@) {
            Ok(None) => r matches Ok(None),
            Ok(Some(p)) => r matches Ok(Some(q)) && q.0 == p.0 && q.1@ == p.1,
            Err(k) => r matches Err(k2) && k2 == k,
        },
{
    let t = trim(line);
    let tn = t.unicode_len();
    if tn == 0 {
        return Ok(None);
    }
    let k = match find_char_in(t, ':') {
        None => {
            return Err(ErrorKind::MalformedAddress);
        },
        Some(k) => k,
    };
    proof {
        lemma_find_char_from(t@, ':', 0);
    }
    let addr_txt = trim(t.substring_char(0, k));
    proof {
        assert(t@.subrange(0, k as int) =~= t@.take(k as int));
        lemma_hex_value_nonneg(trimmed(t@.take(k as int)));
    }
    let addr = match parse_hex_u64(addr_txt) {
        None => {
            return Err(ErrorKind::MalformedAddress);
        },
        Some(v) => v,
    };
    let rest = trim(t.substring_char(k + 1, tn));
    proof {
        assert(t@.subrange(k as int + 1, tn as int) =~= t@.skip(k as int + 1));
    }
    match parse_stmt(rest) {
        Err(k2) => Err(k2),
        Ok(inst) => Ok(Some((addr, inst))),
    }
}

/// Parses a whole input, line by line, into a [`CodeListing`], following
/// [`spec_parse_lines`].
///
/// Fail-fast: the first malformed line stops the parse, and its index and
/// error kind are returned instead of any partial listing.
pub fn parse_listing(lines: &Vec<String>) -> (r: Result<CodeListing, ParseError>)
    ensures
        match spec_parse_lines(lines.deep_view()) {
            Ok(m) => r matches Ok(l) && l@ == m && l.wf(),
            Err(p) => r matches Err(e) && e.line == p.0 && e.kind == p.1,
        },
{
    let ghost input = lines.deep_view();
    let mut listing = CodeListing::new();
    let n = lines.len();
    let mut i: usize = 0;
    while i < n
        invariant
            i <= n,
            n == lines@.len(),
            input == lines.deep_view(),
            listing.wf(),
            spec_parse_lines(input) == spec_parse_from(input, i as int, listing@),
        decreases n - i,
    {
        proof {
            assert(input[i as int] == lines@[i as int]@);
        }
        match parse_line(lines[i].as_str()) {
            Err(k) => {
                return Err(ParseError { line: i, kind: k });
            },
            Ok(None) => {},
            Ok(Some(q)) => {
                let (a, inst) = q;
                listing.push(a, inst);
            },
        }
        i += 1;
    }
    Ok(listing)
}

/// Parsing is deterministic: one input denotes one listing, so feeding the
/// same input to the parser twice yields structurally equal results.
pub proof fn lemma_parse_deterministic(
    lines: Seq<Seq<char>>,
    m1: Seq<(Addr, Seq<InstModel>)>,
    m2: Seq<(Addr, Seq<InstModel>)>,
)
    requires
        spec_parse_lines(lines) == Ok::<_, (int, ErrorKind)>(m1),
        spec_parse_lines(lines) == Ok::<_, (int, ErrorKind)>(m2),
    ensures
        m1 == m2,
{
}

/// A parsed listing iterates its addresses in ascending order, whatever
/// order the input arrived in.
pub proof fn lemma_parse_sorted(lines: Seq<Seq<char>>, m: Seq<(Addr, Seq<InstModel>)>)
    requires
        spec_parse_lines(lines) == Ok::<_, (int, ErrorKind)>(m),
    ensures
        listing_sorted(m),
{
    lemma_parse_from_sorted(lines, 0, Seq::empty(), m);
}

/// Folding lines into a sorted listing keeps it sorted.
proof fn lemma_parse_from_sorted(
    lines: Seq<Seq<char>>,
    i: int,
    acc: Seq<(Addr, Seq<InstModel>)>,
    m: Seq<(Addr, Seq<InstModel>)>,
)
    requires
        listing_sorted(acc),
        spec_parse_from(lines, i, acc) == Ok::<_, (int, ErrorKind)>(m),
    ensures
        listing_sorted(m),
    decreases lines.len() - i,
{
    if 0 <= i < lines.len() {
        match spec_parse_line(lines[i]) {
            Err(_) => {},
            Ok(None) => {
                lemma_parse_from_sorted(lines, i + 1, acc, m);
            },
            Ok(Some(p)) => {
                lemma_listing_push_properties(acc, p.0, p.1);
                lemma_parse_from_sorted(lines, i + 1, listing_push(acc, p.0, p.1), m);
            },
        }
    }
}

/// The instructions that the lines from `i` on emit for `addr`, in line
/// order.
pub open spec fn spec_insts_for(lines: Seq<Seq<char>>, i: int, addr: Addr) -> Seq<InstModel>
    decreases lines.len() - i,
{
    if i < 0 || i >= lines.len() {
        Seq::empty()
    } else {
        let rest = spec_insts_for(lines, i + 1, addr);
        match spec_parse_line(lines[i]) {
            Ok(Some(p)) => if p.0 == addr {
                seq![p.1] + rest
            } else {
                rest
            },
            _ => rest,
        }
    }
}

/// A parsed listing holds, under each address, exactly the instructions
/// the input's lines emit for that address, in line order: none dropped,
/// duplicated or reordered, and no address invented.
pub proof fn lemma_parse_preserves_arrival_order(
    lines: Seq<Seq<char>>,
    m: Seq<(Addr, Seq<InstModel>)>,
    addr: Addr,
)
    requires
        spec_parse_lines(lines) == Ok::<_, (int, ErrorKind)>(m),
    ensures
        listing_get(m, addr) == (if spec_insts_for(lines, 0, addr).len() > 0 {
            Some(spec_insts_for(lines, 0, addr))
        } else {
            None
        }),
{
    lemma_parse_from_order(lines, 0, Seq::empty(), m, addr);
}

/// Folding lines into a listing appends each address's instructions in
/// line order after whatever the accumulator already holds for it.
proof fn lemma_parse_from_order(
    lines: Seq<Seq<char>>,
    i: int,
    acc: Seq<(Addr, Seq<InstModel>)>,
    m: Seq<(Addr, Seq<InstModel>)>,
    addr: Addr,
)
    requires
        listing_sorted(acc),
        spec_parse_from(lines, i, acc) == Ok::<_, (int, ErrorKind)>(m),
    ensures
        listing_get(m, addr) == (match listing_get(acc, addr) {
            Some(s) => Some(s + spec_insts_for(lines, i, addr)),
            None => if spec_insts_for(lines, i, addr).len() > 0 {
                Some(spec_insts_for(lines, i, addr))
            } else {
                None
            },
        }),
    decreases lines.len() - i,
{
    if i < 0 || i >= lines.len() {
        assert(m == acc);
        match listing_get(acc, addr) {
            Some(s) => {
                assert(s + spec_insts_for(lines, i, addr) =~= s);
            },
            None => {},
        }
    } else {
        match spec_parse_line(lines[i]) {
            Err(_) => {},
            Ok(None) => {
                lemma_parse_from_order(lines, i + 1, acc, m, addr);
            },
            Ok(Some(p)) => {
                let pushed = listing_push(acc, p.0, p.1);
                lemma_listing_push_properties(acc, p.0, p.1);
                lemma_parse_from_order(lines, i + 1, pushed, m, addr);
                let rest = spec_insts_for(lines, i + 1, addr);
                if p.0 == addr {
                    match listing_get(acc, addr) {
                        Some(s) => {
                            assert(listing_get(pushed, addr) == Some(s.push(p.1)));
                            assert(s.push(p.1) + rest =~= s + (seq![p.1] + rest));
                        },
                        None => {
                            assert(listing_get(pushed, addr) == Some(seq![p.1]));
                            assert(seq![p.1] + rest =~= spec_insts_for(lines, i, addr));
                        },
                    }
                } else {
                    assert(listing_get(pushed, addr) == listing_get(acc, addr));
                }
            },
        }
    }
}

/// Operands are parsed one per field, in order: nothing is dropped,
/// duplicated or reordered.
pub proof fn lemma_operands_elementwise(fields: Seq<Seq<char>>, vs: Seq<VarnodeModel>)
    requires
        spec_parse_operands(fields) == Ok::<_, ErrorKind>(vs),
    ensures
        vs.len() == fields.len(),
        forall|j: int|
            0 <= j < fields.len() ==> spec_parse_operand(#[trigger] fields[j]) == Ok::<
                _,
                ErrorKind,
            >(vs[j]),
    decreases fields.len(),
{
    if fields.len() > 0 {
        match spec_parse_operand(fields.first()) {
            Err(_) => {},
            Ok(v) => match spec_parse_operands(fields.drop_first()) {
                Err(_) => {},
                Ok(tail_vs) => {
                    lemma_operands_elementwise(fields.drop_first(), tail_vs);
                    assert(vs == seq![v] + tail_vs);
                    assert forall|j: int| 0 <= j < fields.len() implies spec_parse_operand(
                        #[trigger] fields[j],
                    ) == Ok::<_, ErrorKind>(vs[j]) by {
                        if j == 0 {
                            assert(fields[0] == fields.first());
                            assert(vs[0] == v);
                        } else {
                            assert(fields.drop_first()[j - 1] == fields[j]);
                            assert(tail_vs[j - 1] == vs[j]);
                        }
                    }
                },
            },
        }
    }
}

/// Re-deriving a parsed instruction's fields reproduces exactly what the
/// source line contains: the address is the numeral before the colon, the
/// opcode resolves the mnemonic token, the output is present exactly when
/// the line has an assignment marker (and parses its left side), and the
/// inputs are the comma-separated fields right of it, one each, in source
/// order.
pub proof fn lemma_line_fields(line: Seq<char>, addr: Addr, im: InstModel)
    requires
        spec_parse_line(line) == Ok::<_, ErrorKind>(Some((addr, im))),
    ensures
        ({
            let t = trimmed(line);
            &&& find_char(t, ':') is Some
            &&& {
                let k = find_char(t, ':')->0;
                let rest = trimmed(t.skip(k + 1));
                let tail = spec_tail(rest);
                &&& addr == hex_value(trimmed(t.take(k)))
                &&& spec_opcode_of(spec_mnemonic(rest)) == Some(im.opcode)
                &&& (im.output is Some <==> spec_out_text(tail) is Some)
                &&& (match spec_out_text(tail) {
                    Some(ot) => im.output matches Some(o) && spec_parse_operand(ot) == Ok::<
                        _,
                        ErrorKind,
                    >(o),
                    None => im.output is None,
                })
                &&& (if trimmed(spec_in_text(tail)).len() == 0 {
                    im.inputs.len() == 0
                } else {
                    let fields = split_top(spec_in_text(tail), ',');
                    &&& im.inputs.len() == fields.len()
                    &&& forall|j: int|
                        0 <= j < fields.len() ==> spec_parse_operand(#[trigger] fields[j])
                            == Ok::<_, ErrorKind>(im.inputs[j])
                })
            }
        }),
{
    let t = trimmed(line);
    let k = find_char(t, ':')->0;
    let addr_txt = trimmed(t.take(k));
    lemma_hex_value_nonneg(addr_txt);
    let rest = trimmed(t.skip(k + 1));
    let tail = spec_tail(rest);
    if trimmed(spec_in_text(tail)).len() != 0 {
        let fields = split_top(spec_in_text(tail), ',');
        lemma_operands_elementwise(fields, im.inputs);
    }
}

} // verus!
