//! Pass 2: re-walks the program tree with the finished symbol table,
//! encodes every statement, and places each section's bytes at its resolved
//! base address inside an image sized to the program end address.
//!
//! The spec functions in this module are the reference semantics of the
//! pass: [`MachineCodeGenerator::generate`] is proved to compute exactly
//! [`p2_program`].

use crate::encoding::{
    byte_of, codify_1r, codify_2r, codify_3r, fits_byte, spec_codify_1r, spec_codify_2r,
    spec_codify_3r,
};
use crate::flags::Flags;
use crate::message::{
    address_not_byte_text, error_msg, instruction_in_data_text, msg_address_not_byte,
    msg_instruction_in_data, msg_not_defined, msg_raw_data_in_text, msg_value_not_byte, msgs_view,
    raw_data_in_text_text, warning_msg, AssemblerMessage, MsgV,
};
use crate::node::Node;
use crate::nodes::{Function, Instruction, Literal, Program, RawData, Statement};
use crate::span::Span;
use crate::symbol_table::{spec_program_end, SymbolTable, SymbolTableEntry, SymbolTableV};
use vstd::prelude::*;

verus! {

/// The value of an evaluated literal operand: a plain immediate, or an
/// address-valued immediate that may not be silently narrowed.
#[derive(Debug, Clone, Copy, PartialEq, Eq, Structural)]
pub enum LiteralValue {
    Imm(u16),
    AddrImm(u16),
}

/// What one statement contributes to its section: an instruction word, raw
/// bytes, or nothing.
#[derive(Debug)]
pub enum SectionItem {
    Code(u16),
    Data(Vec<u8>),
    Nothing,
}

/// The mathematical value of a [`SectionItem`].
pub ghost enum SectionItemV {
    Code(u16),
    Data(Seq<u8>),
    Nothing,
}

impl View for SectionItem {
    type V = SectionItemV;

    open spec fn view(&self) -> SectionItemV {
        match self {
            SectionItem::Code(w) => SectionItemV::Code(*w),
            SectionItem::Data(d) => SectionItemV::Data(d@),
            SectionItem::Nothing => SectionItemV::Nothing,
        }
    }
}

/// The values of a list of section items, in order.
pub open spec fn items_view(s: Seq<SectionItem>) -> Seq<SectionItemV> {
    s.map_values(|it: SectionItem| it@)
}

/// The two little-endian bytes of a 16-bit word.
pub open spec fn le_bytes(w: u16) -> Seq<u8> {
    seq![(w % 0x100) as u8, (w / 0x100) as u8]
}

/// The 16-bit value an operand evaluates to, address or not.
pub open spec fn spec_as_u16(v: LiteralValue) -> u16 {
    match v {
        LiteralValue::Imm(i) => i,
        LiteralValue::AddrImm(i) => i,
    }
}

/// Narrowing an operand to a byte: a plain immediate follows the
/// lossless-byte rule; an address never fits.
pub open spec fn spec_as_u8(v: LiteralValue) -> Result<u8, Seq<char>> {
    match v {
        LiteralValue::Imm(i) => if fits_byte(i) {
            Ok(byte_of(i))
        } else {
            Err(msg_value_not_byte())
        },
        LiteralValue::AddrImm(_) => Err(msg_address_not_byte()),
    }
}

/// A branch operand: a plain immediate is a literal byte offset, while an
/// address becomes the word distance from `rel_to`, truncated to a byte.
pub open spec fn spec_as_u8_relative(v: LiteralValue, rel_to: u16) -> Result<u8, Seq<char>> {
    match v {
        LiteralValue::Imm(i) => if fits_byte(i) {
            Ok(byte_of(i))
        } else {
            Err(msg_value_not_byte())
        },
        LiteralValue::AddrImm(a) => Ok(byte_of(a.wrapping_sub(rel_to) / 2)),
    }
}

/// Evaluates a literal against the table: a number is itself; a symbol is
/// its table value (an undefined one is reported and reads as 0); `lo`/`hi`
/// take the low or high byte of their operand.
pub open spec fn spec_eval_literal(
    lit: Literal,
    symbols: Map<Seq<char>, SymbolTableEntry>,
) -> (LiteralValue, Seq<MsgV>)
    decreases lit,
{
    match lit {
        Literal::Constant(c) => (LiteralValue::Imm(c), Seq::empty()),
        Literal::SymbolRef(srn) => {
            let name = srn.data.name@;
            if symbols.contains_key(name) {
                let e = symbols[name];
                (
                    if e.is_address {
                        LiteralValue::AddrImm(e.value)
                    } else {
                        LiteralValue::Imm(e.value)
                    },
                    Seq::empty(),
                )
            } else {
                (LiteralValue::Imm(0), seq![error_msg(msg_not_defined(name), Some(srn.common))])
            }
        },
        Literal::Function(f) => match f.data {
            Function::Lo(l) => {
                let (v, ms) = spec_eval_literal(l.data, symbols);
                (LiteralValue::Imm(spec_as_u16(v) & 0xFF), ms)
            },
            Function::Hi(l) => {
                let (v, ms) = spec_eval_literal(l.data, symbols);
                (LiteralValue::Imm(spec_as_u16(v) >> 8), ms)
            },
        },
    }
}

/// Encodes a two-register instruction whose third operand is a byte
/// immediate.
pub open spec fn spec_codify_imm2(
    opcode: u8,
    ra: u8,
    rb: u8,
    lit: Node<Span, Literal>,
    symbols: Map<Seq<char>, SymbolTableEntry>,
) -> (Result<u16, Seq<char>>, Seq<MsgV>) {
    let (v, ms) = spec_eval_literal(lit.data, symbols);
    match spec_as_u8(v) {
        Ok(b) => (Ok(spec_codify_2r(opcode, ra, rb, b)), ms),
        Err(e) => (Err(e), ms),
    }
}

/// Encodes a one-register instruction whose second operand is a byte
/// immediate.
pub open spec fn spec_codify_imm1(
    opcode: u8,
    ra: u8,
    ext: bool,
    lit: Node<Span, Literal>,
    symbols: Map<Seq<char>, SymbolTableEntry>,
) -> (Result<u16, Seq<char>>, Seq<MsgV>) {
    let (v, ms) = spec_eval_literal(lit.data, symbols);
    match spec_as_u8(v) {
        Ok(b) => (Ok(spec_codify_1r(opcode, ra, ext, b)), ms),
        Err(e) => (Err(e), ms),
    }
}

/// Encodes a branch: the offset is relative to the address after the
/// instruction (`pc + 2`).
pub open spec fn spec_codify_branch(
    ra: u8,
    ext: bool,
    lit: Node<Span, Literal>,
    symbols: Map<Seq<char>, SymbolTableEntry>,
    pc: u16,
) -> (Result<u16, Seq<char>>, Seq<MsgV>) {
    let (v, ms) = spec_eval_literal(lit.data, symbols);
    match spec_as_u8_relative(v, pc.wrapping_add(2)) {
        Ok(b) => (Ok(spec_codify_1r(0x8, ra, ext, b)), ms),
        Err(e) => (Err(e), ms),
    }
}

/// The word an instruction at address `pc` encodes to, with the
/// diagnostics its operands raise.  `Nop` encodes as the all-zero word.
pub open spec fn spec_codify_instruction(
    ins: Instruction,
    symbols: Map<Seq<char>, SymbolTableEntry>,
    pc: u16,
) -> (Result<u16, Seq<char>>, Seq<MsgV>) {
    match ins {
        Instruction::And { rd, ra, rb } => (
            Ok(spec_codify_3r(0x0, ra.data.reg, rb.data.reg, rd.data.reg, 0)),
            Seq::empty(),
        ),
        Instruction::Or { rd, ra, rb } => (
            Ok(spec_codify_3r(0x0, ra.data.reg, rb.data.reg, rd.data.reg, 1)),
            Seq::empty(),
        ),
        Instruction::Xor { rd, ra, rb } => (
            Ok(spec_codify_3r(0x0, ra.data.reg, rb.data.reg, rd.data.reg, 2)),
            Seq::empty(),
        ),
        Instruction::Not { rd, ra } => (
            Ok(spec_codify_3r(0x0, ra.data.reg, 0, rd.data.reg, 3)),
            Seq::empty(),
        ),
        Instruction::Add { rd, ra, rb } => (
            Ok(spec_codify_3r(0x0, ra.data.reg, rb.data.reg, rd.data.reg, 4)),
            Seq::empty(),
        ),
        Instruction::Sub { rd, ra, rb } => (
            Ok(spec_codify_3r(0x0, ra.data.reg, rb.data.reg, rd.data.reg, 5)),
            Seq::empty(),
        ),
        Instruction::Sha { rd, ra, rb } => (
            Ok(spec_codify_3r(0x0, ra.data.reg, rb.data.reg, rd.data.reg, 6)),
            Seq::empty(),
        ),
        Instruction::Shl { rd, ra, rb } => (
            Ok(spec_codify_3r(0x0, ra.data.reg, rb.data.reg, rd.data.reg, 7)),
            Seq::empty(),
        ),
        Instruction::Cmplt { rd, ra, rb } => (
            Ok(spec_codify_3r(0x1, ra.data.reg, rb.data.reg, rd.data.reg, 0)),
            Seq::empty(),
        ),
        Instruction::Cmple { rd, ra, rb } => (
            Ok(spec_codify_3r(0x1, ra.data.reg, rb.data.reg, rd.data.reg, 1)),
            Seq::empty(),
        ),
        Instruction::Cmpeq { rd, ra, rb } => (
            Ok(spec_codify_3r(0x1, ra.data.reg, rb.data.reg, rd.data.reg, 3)),
            Seq::empty(),
        ),
        Instruction::Cmpltu { rd, ra, rb } => (
            Ok(spec_codify_3r(0x1, ra.data.reg, rb.data.reg, rd.data.reg, 4)),
            Seq::empty(),
        ),
        Instruction::Cmpleu { rd, ra, rb } => (
            Ok(spec_codify_3r(0x1, ra.data.reg, rb.data.reg, rd.data.reg, 5)),
            Seq::empty(),
        ),
        Instruction::Addi { rd, ra, n6 } => spec_codify_imm2(
            0x2,
            ra.data.reg,
            rd.data.reg,
            n6,
            symbols,
        ),
        Instruction::Ld { rd, n6, ra } => spec_codify_imm2(
            0x3,
            ra.data.reg,
            rd.data.reg,
            n6,
            symbols,
        ),
        Instruction::St { n6, ra, rb } => spec_codify_imm2(
            0x4,
            ra.data.reg,
            rb.data.reg,
            n6,
            symbols,
        ),
        Instruction::Ldb { rd, n6, ra } => spec_codify_imm2(
            0x5,
            ra.data.reg,
            rd.data.reg,
            n6,
            symbols,
        ),
        Instruction::Stb { n6, ra, rb } => spec_codify_imm2(
            0x6,
            ra.data.reg,
            rb.data.reg,
            n6,
            symbols,
        ),
        Instruction::Jalr { rd, ra } => (
            Ok(spec_codify_2r(0x7, ra.data.reg, rd.data.reg, 0)),
            Seq::empty(),
        ),
        Instruction::Bz { ra, n8 } => spec_codify_branch(ra.data.reg, false, n8, symbols, pc),
        Instruction::Bnz { ra, n8 } => spec_codify_branch(ra.data.reg, true, n8, symbols, pc),
        Instruction::Movi { rd, n8 } => spec_codify_imm1(0x9, rd.data.reg, false, n8, symbols),
        Instruction::Movhi { rd, n8 } => spec_codify_imm1(0x9, rd.data.reg, true, n8, symbols),
        Instruction::In { rd, n8 } => spec_codify_imm1(0xA, rd.data.reg, false, n8, symbols),
        Instruction::Out { n8, ra } => spec_codify_imm1(0xA, ra.data.reg, true, n8, symbols),
        Instruction::Nop => (Ok(0u16), Seq::empty()),
    }
}

/// The bytes of a `.byte` list: one byte per literal, under the
/// lossless-byte rule; a literal that does not fit is reported (against the
/// directive's span) and contributes no byte.
pub open spec fn p2_bytes_list(
    lits: Seq<Node<Span, Literal>>,
    symbols: Map<Seq<char>, SymbolTableEntry>,
    span: Span,
) -> (Seq<u8>, Seq<MsgV>)
    decreases lits.len(),
{
    if lits.len() == 0 {
        (Seq::empty(), Seq::empty())
    } else {
        let (bs, ms) = p2_bytes_list(lits.drop_last(), symbols, span);
        let (v, ms2) = spec_eval_literal(lits.last().data, symbols);
        match spec_as_u8(v) {
            Ok(b) => (bs.push(b), ms + ms2),
            Err(e) => (bs, ms + ms2.push(error_msg(e, Some(span)))),
        }
    }
}

/// The bytes of a `.word` list: two little-endian bytes per literal, the
/// full 16-bit value (an address is legal here).
pub open spec fn p2_words_list(
    lits: Seq<Node<Span, Literal>>,
    symbols: Map<Seq<char>, SymbolTableEntry>,
) -> (Seq<u8>, Seq<MsgV>)
    decreases lits.len(),
{
    if lits.len() == 0 {
        (Seq::empty(), Seq::empty())
    } else {
        let (bs, ms) = p2_words_list(lits.drop_last(), symbols);
        let (v, ms2) = spec_eval_literal(lits.last().data, symbols);
        (bs + le_bytes(spec_as_u16(v)), ms + ms2)
    }
}

/// What a raw-data directive at `cursor` emits, where the cursor ends up,
/// and what it reports.
pub open spec fn p2_raw_data(
    r: RawData,
    span: Span,
    symbols: Map<Seq<char>, SymbolTableEntry>,
    flags: Flags,
    cursor: u16,
) -> (SectionItemV, u16, Seq<MsgV>) {
    match r {
        RawData::WordAlign => if cursor % 2 == 0 {
            (SectionItemV::Nothing, cursor, Seq::empty())
        } else {
            (SectionItemV::Data(seq![0u8]), cursor.wrapping_add(1), Seq::empty())
        },
        RawData::Bytes(lits) => {
            let c2 = cursor.wrapping_add(r.spec_size(cursor));
            let (bs, ms) = p2_bytes_list(lits@, symbols, span);
            (SectionItemV::Data(bs), c2, ms)
        },
        RawData::Words(lits) => {
            let c2 = cursor.wrapping_add(r.spec_size(cursor));
            let (pad, c3) = if flags.auto_align_words && c2 % 2 != 0 {
                (seq![0u8], c2.wrapping_add(1))
            } else {
                (Seq::<u8>::empty(), c2)
            };
            let (bs, ms) = p2_words_list(lits@, symbols);
            (SectionItemV::Data(pad + bs), c3, ms)
        },
    }
}

/// What one statement at `cursor` contributes.  An instruction that fails
/// to encode is reported against its span and contributes nothing; labels
/// and constants were consumed by pass 1.
pub open spec fn p2_statement(
    node: Node<Span, Statement>,
    symbols: Map<Seq<char>, SymbolTableEntry>,
    flags: Flags,
    cursor: u16,
) -> (SectionItemV, u16, Seq<MsgV>) {
    match node.data {
        Statement::Instruction(inode) => {
            let (res, ms) = spec_codify_instruction(inode.data, symbols, cursor);
            match res {
                Ok(w) => (SectionItemV::Code(w), cursor.wrapping_add(2), ms),
                Err(e) => (
                    SectionItemV::Nothing,
                    cursor.wrapping_add(2),
                    ms.push(error_msg(e, Some(inode.common))),
                ),
            }
        },
        Statement::RawData(rnode) => p2_raw_data(rnode.data, rnode.common, symbols, flags, cursor),
        _ => (SectionItemV::Nothing, cursor, Seq::empty()),
    }
}

/// The contributions of a statement list, in order.
pub open spec fn p2_statements(
    ss: Seq<Node<Span, Statement>>,
    symbols: Map<Seq<char>, SymbolTableEntry>,
    flags: Flags,
    cursor: u16,
) -> (Seq<SectionItemV>, u16, Seq<MsgV>)
    decreases ss.len(),
{
    if ss.len() == 0 {
        (Seq::empty(), cursor, Seq::empty())
    } else {
        let (items, c, ms) = p2_statements(ss.drop_last(), symbols, flags, cursor);
        let (it, c2, ms2) = p2_statement(ss.last(), symbols, flags, c);
        (items.push(it), c2, ms + ms2)
    }
}

/// A whole section: an optional alignment padding item, then the
/// statements.
pub open spec fn p2_section_items(
    ss: Seq<Node<Span, Statement>>,
    symbols: Map<Seq<char>, SymbolTableEntry>,
    flags: Flags,
    cursor: u16,
) -> (Seq<SectionItemV>, u16, Seq<MsgV>) {
    let pre: Seq<SectionItemV> = if flags.auto_align_sections && cursor % 2 != 0 {
        seq![SectionItemV::Data(seq![0u8])]
    } else {
        Seq::empty()
    };
    let c0 = if flags.auto_align_sections && cursor % 2 != 0 {
        cursor.wrapping_add(1)
    } else {
        cursor
    };
    let (items, c, ms) = p2_statements(ss, symbols, flags, c0);
    (pre + items, c, ms)
}

/// Flattens a section's items to bytes, warning about an instruction in
/// `.data` or raw data in `.text`.
pub open spec fn p2_flatten(items: Seq<SectionItemV>, in_text: bool) -> (Seq<u8>, Seq<MsgV>)
    decreases items.len(),
{
    if items.len() == 0 {
        (Seq::empty(), Seq::empty())
    } else {
        let (bs, ms) = p2_flatten(items.drop_last(), in_text);
        match items.last() {
            SectionItemV::Code(w) => (
                bs + le_bytes(w),
                if in_text {
                    ms
                } else {
                    ms.push(warning_msg(msg_instruction_in_data(), None))
                },
            ),
            SectionItemV::Data(d) => (
                bs + d,
                if in_text {
                    ms.push(warning_msg(msg_raw_data_in_text(), None))
                } else {
                    ms
                },
            ),
            SectionItemV::Nothing => (bs, ms),
        }
    }
}

/// A section's bytes and diagnostics: the traversal's diagnostics first,
/// then the flattening warnings.
pub open spec fn p2_section_bytes(
    ss: Seq<Node<Span, Statement>>,
    symbols: Map<Seq<char>, SymbolTableEntry>,
    flags: Flags,
    base: u16,
    in_text: bool,
) -> (Seq<u8>, Seq<MsgV>) {
    let (items, c, ms) = p2_section_items(ss, symbols, flags, base);
    let (bs, wms) = p2_flatten(items, in_text);
    (bs, ms + wms)
}

/// An all-zero image of the given length.
pub open spec fn zero_image(len: u16) -> Seq<u8> {
    Seq::new(len as nat, |i: int| 0u8)
}

/// Writes `bytes` into `buf` starting at `base`; positions past the end of
/// `buf` are dropped.
pub open spec fn place_bytes(buf: Seq<u8>, base: u16, bytes: Seq<u8>) -> Seq<u8> {
    Seq::new(
        buf.len(),
        |i: int|
            if base <= i < base + bytes.len() {
                bytes[i - base]
            } else {
                buf[i]
            },
    )
}

/// The whole of pass 2: a zero-filled image of the program end length,
/// with each present section's bytes placed at its base; the text
/// section's diagnostics come before the data section's.
pub open spec fn p2_program(prog: Program, table: SymbolTableV, flags: Flags) -> (
    Seq<u8>,
    Seq<MsgV>,
) {
    let end = spec_program_end(table.text_section, table.data_section);
    let buf0 = zero_image(end);
    let (buf1, ms1) = match prog.text_section {
        Some(ts) => {
            let (bs, ms) = p2_section_bytes(
                ts.data.statements@,
                table.symbols,
                flags,
                table.text_section.base_address,
                true,
            );
            (place_bytes(buf0, table.text_section.base_address, bs), ms)
        },
        None => (buf0, Seq::<MsgV>::empty()),
    };
    let (buf2, ms2) = match prog.data_section {
        Some(ds) => {
            let (bs, ms) = p2_section_bytes(
                ds.data.statements@,
                table.symbols,
                flags,
                table.data_section.base_address,
                false,
            );
            (place_bytes(buf1, table.data_section.base_address, bs), ms)
        },
        None => (buf1, Seq::<MsgV>::empty()),
    };
    (buf2, ms1 + ms2)
}

/// The image pass 2 produces is exactly as long as the program end address
/// recorded in the table, whatever the program holds.
pub proof fn lemma_image_length(prog: Program, table: SymbolTableV, flags: Flags)
    ensures
        p2_program(prog, table, flags).0.len() == spec_program_end(
            table.text_section,
            table.data_section,
        ),
{
}

/// Placing section bytes never writes outside the image: a position not
/// covered by the placed range keeps the value it had.
pub proof fn lemma_place_bytes_frame(buf: Seq<u8>, base: u16, bytes: Seq<u8>, j: int)
    requires
        0 <= j < buf.len(),
        !(base <= j < base + bytes.len()),
    ensures
        place_bytes(buf, base, bytes)[j] == buf[j],
{
}

impl LiteralValue {
    /// The full 16-bit value, address or not.
    pub fn as_u16(&self) -> (r: u16)
        ensures
            r == spec_as_u16(*self),
    {
        match self {
            LiteralValue::Imm(i) => *i,
            LiteralValue::AddrImm(i) => *i,
        }
    }

    /// Narrows to a byte under the lossless-byte rule; an address is
    /// rejected outright.
    pub fn as_u8(&self) -> (r: Result<u8, String>)
        ensures
            ({
                let s = spec_as_u8(*self);
                match (r, s) {
                    (Ok(b), Ok(sb)) => b == sb,
                    (Err(e), Err(se)) => e@ == se,
                    _ => false,
                }
            }),
    {
        match self {
            LiteralValue::Imm(i) => crate::encoding::as_u8_lossless(*i),
            LiteralValue::AddrImm(_) => Err(address_not_byte_text()),
        }
    }

    /// Narrows to a branch offset byte relative to `rel_to`.
    pub fn as_u8_relative(&self, rel_to: u16) -> (r: Result<u8, String>)
        ensures
            ({
                let s = spec_as_u8_relative(*self, rel_to);
                match (r, s) {
                    (Ok(b), Ok(sb)) => b == sb,
                    (Err(e), Err(se)) => e@ == se,
                    _ => false,
                }
            }),
    {
        match self {
            LiteralValue::Imm(i) => crate::encoding::as_u8_lossless(*i),
            LiteralValue::AddrImm(a) => Ok(((a.wrapping_sub(rel_to) / 2) % 0x100) as u8),
        }
    }
}

/// The pass-2 visitor: owns the finished table, the cursor, and the
/// diagnostics it raises.
pub struct MachineCodeGenerator {
    pub symbol_table: SymbolTable,
    pub current_pos: u16,
    pub messages: Vec<AssemblerMessage>,
    pub flags: Flags,
}

impl MachineCodeGenerator {
    /// A generator over the table pass 1 built.
    pub fn new(symbol_table: SymbolTable, flags: &Flags) -> (r: Self)
        ensures
            r.symbol_table == symbol_table,
            r.current_pos == 0,
            r.messages@ == Seq::<AssemblerMessage>::empty(),
            r.flags == *flags,
    {
        Self { symbol_table, current_pos: 0, messages: Vec::new(), flags: *flags }
    }

    /// A copy of the diagnostics raised so far, in order.
    pub fn get_messages(&self) -> (r: Vec<AssemblerMessage>)
        ensures
            r@ == self.messages@,
    {
        let mut out: Vec<AssemblerMessage> = Vec::new();
        let mut i: usize = 0;
        while i < self.messages.len()
            invariant
                0 <= i <= self.messages@.len(),
                out@ == self.messages@.take(i as int),
            decreases self.messages@.len() - i,
        {
            out.push(self.messages[i].duplicate());
            proof {
                assert(self.messages@.take(i + 1) =~= self.messages@.take(i as int).push(
                    self.messages@[i as int],
                ));
            }
            i += 1;
        }
        proof {
            assert(self.messages@.take(self.messages@.len() as int) =~= self.messages@);
        }
        out
    }

    /// Records a warning.
    fn add_warning(&mut self, description: String, span: Option<Span>)
        ensures
            final(self).current_pos == old(self).current_pos,
            final(self).symbol_table == old(self).symbol_table,
            final(self).flags == old(self).flags,
            msgs_view(final(self).messages@) == msgs_view(old(self).messages@).push(
                warning_msg(description@, span),
            ),
    {
        self.messages.push(AssemblerMessage::warning(description, span));
        proof {
            assert(msgs_view(self.messages@) =~= msgs_view(old(self).messages@).push(
                msgs_view(self.messages@).last(),
            ));
        }
    }

    /// Evaluates a literal operand, reporting undefined symbols.
    fn visit_literal(&mut self, node: &Node<Span, Literal>) -> (r: LiteralValue)
        requires
            old(self).symbol_table.wf(),
        ensures
            final(self).current_pos == old(self).current_pos,
            final(self).symbol_table == old(self).symbol_table,
            final(self).flags == old(self).flags,
            ({
                let (v, ms) = spec_eval_literal(node.data, old(self).symbol_table@.symbols);
                r == v && msgs_view(final(self).messages@) == msgs_view(old(self).messages@) + ms
            }),
        decreases node.data,
    {
        let ghost old_msgs = msgs_view(self.messages@);
        match node.get_data() {
            Literal::Constant(c) => {
                proof {
                    assert(old_msgs + Seq::<MsgV>::empty() =~= old_msgs);
                }
                LiteralValue::Imm(*c)
            },
            Literal::SymbolRef(sr) => {
                let looked_up: Result<LiteralValue, String> = match self.symbol_table.get_symbol(
                    sr.get_data().name.as_str(),
                ) {
                    Ok(e) => Ok(
                        if e.is_address() {
                            LiteralValue::AddrImm(e.get_value())
                        } else {
                            LiteralValue::Imm(e.get_value())
                        },
                    ),
                    Err(msg) => Err(msg),
                };
                match looked_up {
                    Ok(v) => {
                        proof {
                            assert(old_msgs + Seq::<MsgV>::empty() =~= old_msgs);
                        }
                        v
                    },
                    Err(msg) => {
                        let span = *sr.get_common();
                        self.add_error(msg, Some(span));
                        proof {
                            let ms = spec_eval_literal(
                                node.data,
                                self.symbol_table@.symbols,
                            ).1;
                            assert(old_msgs.push(ms.last()) =~= old_msgs + ms);
                        }
                        LiteralValue::Imm(0)
                    },
                }
            },
            Literal::Function(f) => match f.get_data() {
                Function::Lo(l) => {
                    let v = self.visit_literal(l);
                    LiteralValue::Imm(v.as_u16() & 0xFF)
                },
                Function::Hi(l) => {
                    let v = self.visit_literal(l);
                    LiteralValue::Imm(v.as_u16() >> 8)
                },
            },
        }
    }

    /// Encodes a two-register instruction with a byte immediate.
    fn codify_imm2(&mut self, opcode: u8, ra: u8, rb: u8, lit: &Node<Span, Literal>) -> (r: Result<
        u16,
        String,
    >)
        requires
            old(self).symbol_table.wf(),
        ensures
            final(self).current_pos == old(self).current_pos,
            final(self).symbol_table == old(self).symbol_table,
            final(self).flags == old(self).flags,
            ({
                let (res, ms) = spec_codify_imm2(
                    opcode,
                    ra,
                    rb,
                    *lit,
                    old(self).symbol_table@.symbols,
                );
                msgs_view(final(self).messages@) == msgs_view(old(self).messages@) + ms && match (
                    r,
                    res,
                ) {
                    (Ok(w), Ok(sw)) => w == sw,
                    (Err(e), Err(se)) => e@ == se,
                    _ => false,
                }
            }),
    {
        let v = self.visit_literal(lit);
        match v.as_u8() {
            Ok(b) => Ok(codify_2r(opcode, ra, rb, b)),
            Err(e) => Err(e),
        }
    }

    /// Encodes a one-register instruction with a byte immediate.
    fn codify_imm1(&mut self, opcode: u8, ra: u8, ext: bool, lit: &Node<Span, Literal>) -> (r:
        Result<u16, String>)
        requires
            old(self).symbol_table.wf(),
        ensures
            final(self).current_pos == old(self).current_pos,
            final(self).symbol_table == old(self).symbol_table,
            final(self).flags == old(self).flags,
            ({
                let (res, ms) = spec_codify_imm1(
                    opcode,
                    ra,
                    ext,
                    *lit,
                    old(self).symbol_table@.symbols,
                );
                msgs_view(final(self).messages@) == msgs_view(old(self).messages@) + ms && match (
                    r,
                    res,
                ) {
                    (Ok(w), Ok(sw)) => w == sw,
                    (Err(e), Err(se)) => e@ == se,
                    _ => false,
                }
            }),
    {
        let v = self.visit_literal(lit);
        match v.as_u8() {
            Ok(b) => Ok(codify_1r(opcode, ra, ext, b)),
            Err(e) => Err(e),
        }
    }

    /// Encodes a branch instruction relative to `pc + 2`.
    fn codify_branch(&mut self, ra: u8, ext: bool, lit: &Node<Span, Literal>, pc: u16) -> (r:
        Result<u16, String>)
        requires
            old(self).symbol_table.wf(),
        ensures
            final(self).current_pos == old(self).current_pos,
            final(self).symbol_table == old(self).symbol_table,
            final(self).flags == old(self).flags,
            ({
                let (res, ms) = spec_codify_branch(
                    ra,
                    ext,
                    *lit,
                    old(self).symbol_table@.symbols,
                    pc,
                );
                msgs_view(final(self).messages@) == msgs_view(old(self).messages@) + ms && match (
                    r,
                    res,
                ) {
                    (Ok(w), Ok(sw)) => w == sw,
                    (Err(e), Err(se)) => e@ == se,
                    _ => false,
                }
            }),
    {
        let v = self.visit_literal(lit);
        match v.as_u8_relative(pc.wrapping_add(2)) {
            Ok(b) => Ok(codify_1r(0x8, ra, ext, b)),
            Err(e) => Err(e),
        }
    }

    /// Encodes one instruction at address `pc`.
    fn codify_instruction(&mut self, node: &Instruction, pc: u16) -> (r: Result<u16, String>)
        requires
            old(self).symbol_table.wf(),
        ensures
            final(self).current_pos == old(self).current_pos,
            final(self).symbol_table == old(self).symbol_table,
            final(self).flags == old(self).flags,
            ({
                let (res, ms) = spec_codify_instruction(
                    *node,
                    old(self).symbol_table@.symbols,
                    pc,
                );
                msgs_view(final(self).messages@) == msgs_view(old(self).messages@) + ms && match (
                    r,
                    res,
                ) {
                    (Ok(w), Ok(sw)) => w == sw,
                    (Err(e), Err(se)) => e@ == se,
                    _ => false,
                }
            }),
    {
        let ghost old_msgs = msgs_view(self.messages@);
        proof {
            assert(old_msgs + Seq::<MsgV>::empty() =~= old_msgs);
        }
        match node {
            Instruction::And { rd, ra, rb } => Ok(
                codify_3r(0x0, ra.get_data().reg, rb.get_data().reg, rd.get_data().reg, 0),
            ),
            Instruction::Or { rd, ra, rb } => Ok(
                codify_3r(0x0, ra.get_data().reg, rb.get_data().reg, rd.get_data().reg, 1),
            ),
            Instruction::Xor { rd, ra, rb } => Ok(
                codify_3r(0x0, ra.get_data().reg, rb.get_data().reg, rd.get_data().reg, 2),
            ),
            Instruction::Not { rd, ra } => Ok(
                codify_3r(0x0, ra.get_data().reg, 0, rd.get_data().reg, 3),
            ),
            Instruction::Add { rd, ra, rb } => Ok(
                codify_3r(0x0, ra.get_data().reg, rb.get_data().reg, rd.get_data().reg, 4),
            ),
            Instruction::Sub { rd, ra, rb } => Ok(
                codify_3r(0x0, ra.get_data().reg, rb.get_data().reg, rd.get_data().reg, 5),
            ),
            Instruction::Sha { rd, ra, rb } => Ok(
                codify_3r(0x0, ra.get_data().reg, rb.get_data().reg, rd.get_data().reg, 6),
            ),
            Instruction::Shl { rd, ra, rb } => Ok(
                codify_3r(0x0, ra.get_data().reg, rb.get_data().reg, rd.get_data().reg, 7),
            ),
            Instruction::Cmplt { rd, ra, rb } => Ok(
                codify_3r(0x1, ra.get_data().reg, rb.get_data().reg, rd.get_data().reg, 0),
            ),
            Instruction::Cmple { rd, ra, rb } => Ok(
                codify_3r(0x1, ra.get_data().reg, rb.get_data().reg, rd.get_data().reg, 1),
            ),
            Instruction::Cmpeq { rd, ra, rb } => Ok(
                codify_3r(0x1, ra.get_data().reg, rb.get_data().reg, rd.get_data().reg, 3),
            ),
            Instruction::Cmpltu { rd, ra, rb } => Ok(
                codify_3r(0x1, ra.get_data().reg, rb.get_data().reg, rd.get_data().reg, 4),
            ),
            Instruction::Cmpleu { rd, ra, rb } => Ok(
                codify_3r(0x1, ra.get_data().reg, rb.get_data().reg, rd.get_data().reg, 5),
            ),
            Instruction::Addi { rd, ra, n6 } => {
                let ra_v = ra.get_data().reg;
                let rd_v = rd.get_data().reg;
                self.codify_imm2(0x2, ra_v, rd_v, n6)
            },
            Instruction::Ld { rd, n6, ra } => {
                let ra_v = ra.get_data().reg;
                let rd_v = rd.get_data().reg;
                self.codify_imm2(0x3, ra_v, rd_v, n6)
            },
            Instruction::St { n6, ra, rb } => {
                let ra_v = ra.get_data().reg;
                let rb_v = rb.get_data().reg;
                self.codify_imm2(0x4, ra_v, rb_v, n6)
            },
            Instruction::Ldb { rd, n6, ra } => {
                let ra_v = ra.get_data().reg;
                let rd_v = rd.get_data().reg;
                self.codify_imm2(0x5, ra_v, rd_v, n6)
            },
            Instruction::Stb { n6, ra, rb } => {
                let ra_v = ra.get_data().reg;
                let rb_v = rb.get_data().reg;
                self.codify_imm2(0x6, ra_v, rb_v, n6)
            },
            Instruction::Jalr { rd, ra } => Ok(
                codify_2r(0x7, ra.get_data().reg, rd.get_data().reg, 0),
            ),
            Instruction::Bz { ra, n8 } => {
                let ra_v = ra.get_data().reg;
                self.codify_branch(ra_v, false, n8, pc)
            },
            Instruction::Bnz { ra, n8 } => {
                let ra_v = ra.get_data().reg;
                self.codify_branch(ra_v, true, n8, pc)
            },
            Instruction::Movi { rd, n8 } => {
                let rd_v = rd.get_data().reg;
                self.codify_imm1(0x9, rd_v, false, n8)
            },
            Instruction::Movhi { rd, n8 } => {
                let rd_v = rd.get_data().reg;
                self.codify_imm1(0x9, rd_v, true, n8)
            },
            Instruction::In { rd, n8 } => {
                let rd_v = rd.get_data().reg;
                self.codify_imm1(0xA, rd_v, false, n8)
            },
            Instruction::Out { n8, ra } => {
                let ra_v = ra.get_data().reg;
                self.codify_imm1(0xA, ra_v, true, n8)
            },
            Instruction::Nop => Ok(0),
        }
    }

    /// Emits the bytes of a raw-data directive and advances the cursor.
    fn visit_raw_data(&mut self, node: &Node<Span, RawData>) -> (r: SectionItem)
        requires
            old(self).symbol_table.wf(),
        ensures
            final(self).symbol_table == old(self).symbol_table,
            final(self).flags == old(self).flags,
            ({
                let (it, c2, ms) = p2_raw_data(
                    node.data,
                    node.common,
                    old(self).symbol_table@.symbols,
                    old(self).flags,
                    old(self).current_pos,
                );
                r@ == it && final(self).current_pos == c2 && msgs_view(final(self).messages@)
                    == msgs_view(old(self).messages@) + ms
            }),
    {
        let ghost old_msgs = msgs_view(self.messages@);
        let ghost symbols = self.symbol_table@.symbols;
        let sp = *node.get_common();
        proof {
            assert(sp == node.common);
        }
        let ghost span = node.common;
        match node.get_data() {
            RawData::WordAlign => {
                proof {
                    assert(old_msgs + Seq::<MsgV>::empty() =~= old_msgs);
                }
                if self.current_pos % 2 == 0 {
                    SectionItem::Nothing
                } else {
                    self.current_pos = self.current_pos.wrapping_add(1);
                    let mut d: Vec<u8> = Vec::new();
                    d.push(0);
                    proof {
                        assert(d@ =~= seq![0u8]);
                    }
                    SectionItem::Data(d)
                }
            },
            RawData::Bytes(data) => {
                let size = node.get_data().get_size(self.current_pos);
                self.current_pos = self.current_pos.wrapping_add(size);
                let ghost cur = self.current_pos;
                let mut bytes: Vec<u8> = Vec::new();
                let mut i: usize = 0;
                proof {
                    assert(data@.take(0) =~= Seq::<Node<Span, Literal>>::empty());
                    assert(old_msgs + Seq::<MsgV>::empty() =~= old_msgs);
                }
                while i < data.len()
                    invariant
                        0 <= i <= data@.len(),
                        self.symbol_table.wf(),
                        self.symbol_table == old(self).symbol_table,
                        symbols == self.symbol_table@.symbols,
                        self.flags == old(self).flags,
                        self.current_pos == cur,
                        sp == span,
                        bytes@ == p2_bytes_list(data@.take(i as int), symbols, span).0,
                        msgs_view(self.messages@) == old_msgs + p2_bytes_list(
                            data@.take(i as int),
                            symbols,
                            span,
                        ).1,
                    decreases data@.len() - i,
                {
                    let ghost prefix = data@.take(i as int);
                    let ghost pms = p2_bytes_list(prefix, symbols, span).1;
                    let v = self.visit_literal(&data[i]);
                    let ghost ev = spec_eval_literal(data@[i as int].data, symbols);
                    match v.as_u8() {
                        Ok(b) => {
                            bytes.push(b);
                            proof {
                                assert((old_msgs + pms) + ev.1 =~= old_msgs + (pms + ev.1));
                            }
                        },
                        Err(e) => {
                            let ghost etext = e@;
                            self.add_error(e, Some(sp));
                            proof {
                                assert(((old_msgs + pms) + ev.1).push(error_msg(etext, Some(span)))
                                    =~= old_msgs + (pms + ev.1.push(error_msg(etext, Some(span)))));
                            }
                        },
                    }
                    proof {
                        assert(data@.take(i + 1).drop_last() =~= prefix);
                        assert(data@.take(i + 1).last() == data@[i as int]);
                    }
                    i += 1;
                }
                proof {
                    assert(data@.take(data@.len() as int) =~= data@);
                }
                SectionItem::Data(bytes)
            },
            RawData::Words(data) => {
                let size = node.get_data().get_size(self.current_pos);
                self.current_pos = self.current_pos.wrapping_add(size);
                let mut bytes: Vec<u8> = Vec::new();
                if self.flags.auto_align_words && self.current_pos % 2 != 0 {
                    self.current_pos = self.current_pos.wrapping_add(1);
                    bytes.push(0);
                    proof {
                        assert(bytes@ =~= seq![0u8]);
                    }
                }
                let ghost cur = self.current_pos;
                let ghost pad = bytes@;
                let mut i: usize = 0;
                proof {
                    assert(data@.take(0) =~= Seq::<Node<Span, Literal>>::empty());
                    assert(pad + Seq::<u8>::empty() =~= pad);
                    assert(old_msgs + Seq::<MsgV>::empty() =~= old_msgs);
                }
                while i < data.len()
                    invariant
                        0 <= i <= data@.len(),
                        self.symbol_table.wf(),
                        self.symbol_table == old(self).symbol_table,
                        symbols == self.symbol_table@.symbols,
                        self.flags == old(self).flags,
                        self.current_pos == cur,
                        bytes@ == pad + p2_words_list(data@.take(i as int), symbols).0,
                        msgs_view(self.messages@) == old_msgs + p2_words_list(
                            data@.take(i as int),
                            symbols,
                        ).1,
                    decreases data@.len() - i,
                {
                    let ghost prefix = data@.take(i as int);
                    let ghost pws = p2_words_list(prefix, symbols);
                    let v = self.visit_literal(&data[i]);
                    let ghost ev = spec_eval_literal(data@[i as int].data, symbols);
                    let w = v.as_u16();
                    bytes.push((w % 0x100) as u8);
                    bytes.push((w / 0x100) as u8);
                    proof {
                        assert(data@.take(i + 1).drop_last() =~= prefix);
                        assert(data@.take(i + 1).last() == data@[i as int]);
                        assert((pad + pws.0) + le_bytes(w) =~= pad + (pws.0 + le_bytes(w)));
                        assert((old_msgs + pws.1) + ev.1 =~= old_msgs + (pws.1 + ev.1));
                    }
                    i += 1;
                }
                proof {
                    assert(data@.take(data@.len() as int) =~= data@);
                }
                SectionItem::Data(bytes)
            },
        }
    }

    /// Encodes one statement, advancing the cursor as pass 1 did.
    fn visit_statement(&mut self, node: &Node<Span, Statement>) -> (r: SectionItem)
        requires
            old(self).symbol_table.wf(),
        ensures
            final(self).symbol_table == old(self).symbol_table,
            final(self).flags == old(self).flags,
            ({
                let (it, c2, ms) = p2_statement(
                    *node,
                    old(self).symbol_table@.symbols,
                    old(self).flags,
                    old(self).current_pos,
                );
                r@ == it && final(self).current_pos == c2 && msgs_view(final(self).messages@)
                    == msgs_view(old(self).messages@) + ms
            }),
    {
        let ghost old_msgs = msgs_view(self.messages@);
        match node.get_data() {
            Statement::Instruction(inode) => {
                let pc = self.current_pos;
                self.current_pos = self.current_pos.wrapping_add(2);
                match self.codify_instruction(inode.get_data(), pc) {
                    Ok(w) => SectionItem::Code(w),
                    Err(e) => {
                        let ghost etext = e@;
                        let ghost ms = spec_codify_instruction(
                            inode.data,
                            self.symbol_table@.symbols,
                            pc,
                        ).1;
                        self.add_error(e, Some(*inode.get_common()));
                        proof {
                            assert((old_msgs + ms).push(error_msg(etext, Some(inode.common)))
                                =~= old_msgs + ms.push(error_msg(etext, Some(inode.common))));
                        }
                        SectionItem::Nothing
                    },
                }
            },
            Statement::RawData(rnode) => self.visit_raw_data(rnode),
            Statement::Label(_) => {
                proof {
                    assert(old_msgs + Seq::<MsgV>::empty() =~= old_msgs);
                }
                SectionItem::Nothing
            },
            Statement::Constant(_) => {
                proof {
                    assert(old_msgs + Seq::<MsgV>::empty() =~= old_msgs);
                }
                SectionItem::Nothing
            },
        }
    }

    /// Emits one whole section: collects each statement's contribution,
    /// then flattens them to bytes, warning about misplaced items.
    fn visit_section(&mut self, statements: &Vec<Node<Span, Statement>>, in_text: bool) -> (r: Vec<
        u8,
    >)
        requires
            old(self).symbol_table.wf(),
        ensures
            final(self).symbol_table == old(self).symbol_table,
            final(self).flags == old(self).flags,
            ({
                let (bs, ms) = p2_section_bytes(
                    statements@,
                    old(self).symbol_table@.symbols,
                    old(self).flags,
                    old(self).current_pos,
                    in_text,
                );
                let (items, c, tms) = p2_section_items(
                    statements@,
                    old(self).symbol_table@.symbols,
                    old(self).flags,
                    old(self).current_pos,
                );
                r@ == bs && final(self).current_pos == c && msgs_view(final(self).messages@)
                    == msgs_view(old(self).messages@) + ms
            }),
    {
        let ghost symbols = self.symbol_table@.symbols;
        let ghost flags = self.flags;
        let ghost old_msgs = msgs_view(self.messages@);
        let mut items: Vec<SectionItem> = Vec::new();
        if self.flags.auto_align_sections && self.current_pos % 2 != 0 {
            self.current_pos = self.current_pos.wrapping_add(1);
            let mut d: Vec<u8> = Vec::new();
            d.push(0);
            proof {
                assert(d@ =~= seq![0u8]);
            }
            items.push(SectionItem::Data(d));
        }
        let ghost pre = items_view(items@);
        let ghost c0 = self.current_pos;
        let mut i: usize = 0;
        proof {
            assert(statements@.take(0) =~= Seq::<Node<Span, Statement>>::empty());
            assert(pre + Seq::<SectionItemV>::empty() =~= pre);
            assert(old_msgs + Seq::<MsgV>::empty() =~= old_msgs);
            if flags.auto_align_sections && old(self).current_pos % 2 != 0 {
                assert(pre =~= seq![SectionItemV::Data(seq![0u8])]);
            } else {
                assert(pre =~= Seq::<SectionItemV>::empty());
            }
        }
        while i < statements.len()
            invariant
                0 <= i <= statements@.len(),
                self.symbol_table.wf(),
                self.symbol_table == old(self).symbol_table,
                symbols == self.symbol_table@.symbols,
                self.flags == old(self).flags,
                flags == self.flags,
                items_view(items@) == pre + p2_statements(
                    statements@.take(i as int),
                    symbols,
                    flags,
                    c0,
                ).0,
                self.current_pos == p2_statements(statements@.take(i as int), symbols, flags, c0).1,
                msgs_view(self.messages@) == old_msgs + p2_statements(
                    statements@.take(i as int),
                    symbols,
                    flags,
                    c0,
                ).2,
            decreases statements@.len() - i,
        {
            let ghost prefix = statements@.take(i as int);
            let ghost ps = p2_statements(prefix, symbols, flags, c0);
            let ghost before_items = items_view(items@);
            let it = self.visit_statement(&statements[i]);
            let ghost st = p2_statement(statements@[i as int], symbols, flags, ps.1);
            items.push(it);
            proof {
                assert(statements@.take(i + 1).drop_last() =~= prefix);
                assert(statements@.take(i + 1).last() == statements@[i as int]);
                assert(items_view(items@) =~= before_items.push(it@));
                assert((pre + ps.0).push(st.0) =~= pre + ps.0.push(st.0));
                assert((old_msgs + ps.2) + st.2 =~= old_msgs + (ps.2 + st.2));
            }
            i += 1;
        }
        proof {
            assert(statements@.take(statements@.len() as int) =~= statements@);
        }
        let bytes = self.flatten_items(&items, in_text);
        proof {
            let tms = p2_statements(statements@, symbols, flags, c0).2;
            let wms = p2_flatten(items_view(items@), in_text).1;
            assert((old_msgs + tms) + wms =~= old_msgs + (tms + wms));
        }
        bytes
    }

    /// Flattens collected section items to bytes, warning about an
    /// instruction in `.data` or raw data in `.text`.
    fn flatten_items(&mut self, items: &Vec<SectionItem>, in_text: bool) -> (r: Vec<u8>)
        ensures
            final(self).symbol_table == old(self).symbol_table,
            final(self).flags == old(self).flags,
            final(self).current_pos == old(self).current_pos,
            ({
                let (bs, wms) = p2_flatten(items_view(items@), in_text);
                r@ == bs && msgs_view(final(self).messages@) == msgs_view(old(self).messages@)
                    + wms
            }),
    {
        let ghost itemsv = items_view(items@);
        let ghost old_msgs = msgs_view(self.messages@);
        let mut bytes: Vec<u8> = Vec::new();
        let mut j: usize = 0;
        proof {
            assert(itemsv.take(0) =~= Seq::<SectionItemV>::empty());
            assert(old_msgs + Seq::<MsgV>::empty() =~= old_msgs);
        }
        while j < items.len()
            invariant
                0 <= j <= items@.len(),
                self.symbol_table == old(self).symbol_table,
                self.flags == old(self).flags,
                self.current_pos == old(self).current_pos,
                itemsv == items_view(items@),
                bytes@ == p2_flatten(itemsv.take(j as int), in_text).0,
                msgs_view(self.messages@) == old_msgs + p2_flatten(itemsv.take(j as int), in_text).1,
            decreases items@.len() - j,
        {
            let ghost fprefix = p2_flatten(itemsv.take(j as int), in_text);
            match &items[j] {
                SectionItem::Code(w) => {
                    let word = *w;
                    bytes.push((word % 0x100) as u8);
                    bytes.push((word / 0x100) as u8);
                    proof {
                        assert(bytes@ =~= fprefix.0 + le_bytes(word));
                    }
                    if !in_text {
                        self.add_warning(instruction_in_data_text(), None);
                    }
                },
                SectionItem::Data(d) => {
                    let mut k: usize = 0;
                    let ghost before = bytes@;
                    proof {
                        assert(before + d@.take(0) =~= before);
                    }
                    while k < d.len()
                        invariant
                            0 <= k <= d@.len(),
                            bytes@ == before + d@.take(k as int),
                        decreases d@.len() - k,
                    {
                        bytes.push(d[k]);
                        proof {
                            assert(before + d@.take(k + 1) =~= (before + d@.take(k as int)).push(
                                d@[k as int],
                            ));
                        }
                        k += 1;
                    }
                    proof {
                        assert(d@.take(d@.len() as int) =~= d@);
                    }
                    if in_text {
                        self.add_warning(raw_data_in_text_text(), None);
                    }
                },
                SectionItem::Nothing => {},
            }
            proof {
                assert(itemsv.take(j + 1).drop_last() =~= itemsv.take(j as int));
                assert(itemsv.take(j + 1).last() == itemsv[j as int]);
                assert(itemsv[j as int] == items@[j as int]@);
            }
            j += 1;
        }
        proof {
            assert(itemsv.take(items@.len() as int) =~= itemsv);
        }
        bytes
    }

    /// Re-walks the program and produces the byte image.
    pub fn generate(&mut self, node: &Node<Span, Program>) -> (r: Option<Vec<u8>>)
        requires
            old(self).symbol_table.wf(),
        ensures
            final(self).symbol_table == old(self).symbol_table,
            final(self).flags == old(self).flags,
            ({
                let (bytes, ms) = p2_program(node.data, old(self).symbol_table@, old(self).flags);
                (r matches Some(v) && v@ == bytes) && msgs_view(final(self).messages@) == msgs_view(
                    old(self).messages@,
                ) + ms
            }),
    {
        let ghost table = self.symbol_table@;
        let ghost flags = self.flags;
        let ghost old_msgs = msgs_view(self.messages@);
        let end = self.symbol_table.get_program_end_address();
        let mut image: Vec<u8> = Vec::new();
        while image.len() < end as usize
            invariant
                image@.len() <= end,
                forall|k: int| 0 <= k < image@.len() ==> image@[k] == 0u8,
            decreases end - image@.len(),
        {
            image.push(0);
        }
        proof {
            assert(image@ =~= zero_image(end));
        }
        let ghost buf0 = image@;
        if let Some(ts) = &node.get_data().text_section {
            let base = self.symbol_table.get_text_section_base_address();
            self.current_pos = base;
            let bytes = self.visit_section(&ts.get_data().statements, true);
            self.place(&mut image, base, &bytes);
        }
        let ghost buf1 = image@;
        let ghost ms1 = msgs_view(self.messages@);
        if let Some(ds) = &node.get_data().data_section {
            let base = self.symbol_table.get_data_section_base_address();
            self.current_pos = base;
            let bytes = self.visit_section(&ds.get_data().statements, false);
            self.place(&mut image, base, &bytes);
        }
        proof {
            let (sbytes, sms) = p2_program(node.data, table, flags);
            assert(msgs_view(self.messages@) =~= old_msgs + sms);
            assert(image@ =~= sbytes);
        }
        Some(image)
    }

    /// Writes `bytes` into the image from `base` on, dropping what falls
    /// past the image's end.
    fn place(&self, image: &mut Vec<u8>, base: u16, bytes: &Vec<u8>)
        ensures
            final(image)@ == place_bytes(old(image)@, base, bytes@),
    {
        let ghost buf0 = image@;
        let b = base as usize;
        let mut i: usize = 0;
        proof {
            assert(place_bytes(buf0, base, bytes@.take(0)) =~= buf0);
        }
        while i < bytes.len()
            invariant
                0 <= i <= bytes@.len(),
                b == base as int,
                image@ == place_bytes(buf0, base, bytes@.take(i as int)),
                image@.len() == buf0.len(),
            decreases bytes@.len() - i,
        {
            if b < image.len() && i < image.len() - b {
                let val = bytes[i];
                vstd::pervasive::VecAdditionalExecFns::set(image, b + i, val);
            }
            proof {
                assert(image@ =~= place_bytes(buf0, base, bytes@.take(i + 1)));
            }
            i += 1;
        }
        proof {
            assert(bytes@.take(bytes@.len() as int) =~= bytes@);
        }
    }

    /// Records an error.
    fn add_error(&mut self, description: String, span: Option<Span>)
        ensures
            final(self).current_pos == old(self).current_pos,
            final(self).symbol_table == old(self).symbol_table,
            final(self).flags == old(self).flags,
            msgs_view(final(self).messages@) == msgs_view(old(self).messages@).push(
                error_msg(description@, span),
            ),
    {
        self.messages.push(AssemblerMessage::error(description, span));
        proof {
            assert(msgs_view(self.messages@) =~= msgs_view(old(self).messages@).push(
                msgs_view(self.messages@).last(),
            ));
        }
    }
}

} // verus!
