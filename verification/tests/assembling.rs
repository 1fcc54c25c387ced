use sisa_assembler::assembler::{Assembler, AssemblerResult};
use sisa_assembler::flags::{DataSectionStart, Flags};
use sisa_assembler::message::AssemblerMessageType;
use sisa_assembler::node::Node;
use sisa_assembler::nodes::{
    Constant, DataSection, Instruction, Label, Literal, Program, RawData, Registry, Statement,
    SymbolRef, TextSection,
};
use sisa_assembler::span::{FileLoc, Span};

fn sp() -> Span {
    Span { lo: FileLoc { line: 1, col: 1 }, hi: FileLoc { line: 1, col: 2 } }
}

fn reg(n: u8) -> Node<Span, Registry> {
    Node::new(sp(), Registry { reg: n })
}

fn lit(v: u16) -> Node<Span, Literal> {
    Node::new(sp(), Literal::Constant(v))
}

fn sym(name: &str) -> Node<Span, Literal> {
    Node::new(sp(), Literal::SymbolRef(Node::new(sp(), SymbolRef { name: name.to_string() })))
}

fn lo_of(l: Node<Span, Literal>) -> Node<Span, Literal> {
    Node::new(
        sp(),
        Literal::Function(Box::new(Node::new(sp(), sisa_assembler::nodes::Function::Lo(l)))),
    )
}

fn hi_of(l: Node<Span, Literal>) -> Node<Span, Literal> {
    Node::new(
        sp(),
        Literal::Function(Box::new(Node::new(sp(), sisa_assembler::nodes::Function::Hi(l)))),
    )
}

fn instr(i: Instruction) -> Node<Span, Statement> {
    Node::new(sp(), Statement::Instruction(Node::new(sp(), i)))
}

fn label(name: &str) -> Node<Span, Statement> {
    Node::new(sp(), Statement::Label(Node::new(sp(), Label { label: name.to_string() })))
}

fn raw(r: RawData) -> Node<Span, Statement> {
    Node::new(sp(), Statement::RawData(Node::new(sp(), r)))
}

fn text_program(stmts: Vec<Node<Span, Statement>>) -> Node<Span, Program> {
    let mut p = Program::empty();
    p.text_section = Some(Node::new(sp(), TextSection { statements: stmts }));
    Node::new(sp(), p)
}

fn data_program(stmts: Vec<Node<Span, Statement>>) -> Node<Span, Program> {
    let mut p = Program::empty();
    p.data_section = Some(Node::new(sp(), DataSection { statements: stmts }));
    Node::new(sp(), p)
}

fn assemble_with(flags: Flags, p: &Node<Span, Program>) -> AssemblerResult {
    Assembler::new(&flags).assemble(p)
}

fn assemble_default(p: &Node<Span, Program>) -> AssemblerResult {
    assemble_with(Flags::default(), p)
}

fn words_of(r: &AssemblerResult) -> Vec<u16> {
    let bytes = r.machine_code.as_ref().expect("expected output");
    assert!(bytes.len() % 2 == 0);
    bytes.chunks(2).map(|c| (c[0] as u16) | ((c[1] as u16) << 8)).collect()
}

#[test]
fn movi_small_immediate() {
    let p = text_program(vec![instr(Instruction::Movi { rd: reg(0), n8: lit(5) })]);
    let r = assemble_default(&p);
    assert!(r.assembler_messages.is_empty());
    assert_eq!(r.machine_code, Some(vec![0x05, 0x90]));
}

#[test]
fn branch_to_next_address_has_offset_zero() {
    let p = text_program(vec![
        instr(Instruction::Bz { ra: reg(0), n8: sym("loop") }),
        label("loop"),
    ]);
    let r = assemble_default(&p);
    assert!(r.assembler_messages.is_empty());
    assert_eq!(r.machine_code, Some(vec![0x00, 0x80]));
}

#[test]
fn data_start_below_text_end_is_overlap_error() {
    let mut p = Program::empty();
    p.text_section = Some(Node::new(
        sp(),
        TextSection {
            statements: vec![instr(Instruction::Nop), instr(Instruction::Nop)],
        },
    ));
    p.data_section = Some(Node::new(
        sp(),
        DataSection { statements: vec![raw(RawData::Bytes(vec![lit(1)]))] },
    ));
    let node = Node::new(sp(), p);
    let flags = Flags {
        data_section_start: DataSectionStart::Absolute(2),
        ..Flags::default()
    };
    let r = assemble_with(flags, &node);
    assert_eq!(r.machine_code, None);
    assert_eq!(r.assembler_messages.len(), 1);
    assert_eq!(r.assembler_messages[0].msg_type, AssemblerMessageType::Error);
    assert_eq!(r.assembler_messages[0].description, "sections .text and .data are overlapping");
}

#[test]
fn overlap_detection_is_order_independent() {
    // Data placed below the text section, overlapping it.
    let mut p = Program::empty();
    p.text_section = Some(Node::new(
        sp(),
        TextSection { statements: vec![instr(Instruction::Nop), instr(Instruction::Nop)] },
    ));
    p.data_section = Some(Node::new(
        sp(),
        DataSection { statements: vec![raw(RawData::Bytes(vec![lit(1), lit(2), lit(3)]))] },
    ));
    let node = Node::new(sp(), p);

    // Text at 4, data at 2: data sits below text but runs into it.
    let flags = Flags {
        text_section_start: 4,
        data_section_start: DataSectionStart::Absolute(2),
        ..Flags::default()
    };
    let r = assemble_with(flags, &node);
    assert_eq!(r.machine_code, None);
    assert!(r
        .assembler_messages
        .iter()
        .any(|m| m.description == "sections .text and .data are overlapping"));

    // Same shapes, far apart: no error either way around.
    let flags_apart = Flags {
        text_section_start: 4,
        data_section_start: DataSectionStart::Absolute(0x100),
        ..Flags::default()
    };
    let r2 = assemble_with(flags_apart, &node);
    assert!(r2.machine_code.is_some());
    assert!(r2.assembler_messages.is_empty());

    let flags_apart_rev = Flags {
        text_section_start: 0x100,
        data_section_start: DataSectionStart::Absolute(4),
        ..Flags::default()
    };
    let r3 = assemble_with(flags_apart_rev, &node);
    assert!(r3.machine_code.is_some());
    assert!(r3.assembler_messages.is_empty());
}

#[test]
fn duplicate_label_is_error_and_first_binding_wins() {
    let p = text_program(vec![
        label("spot"),
        instr(Instruction::Nop),
        label("spot"),
        instr(Instruction::Movi { rd: reg(0), n8: sym("spot") }),
    ]);
    let r = assemble_default(&p);
    assert_eq!(r.machine_code, None);
    assert_eq!(r.assembler_messages.len(), 2);
    assert_eq!(r.assembler_messages[0].msg_type, AssemblerMessageType::Error);
    assert_eq!(r.assembler_messages[0].description, "Symbol spot is already defined");
    // The first binding (address 0) stays: the address is an address-valued
    // symbol, so narrowing it to the MOVI byte is the second error.
    assert_eq!(r.assembler_messages[1].description, "Can't fit an address in a byte!");
}

#[test]
fn set_directive_rejects_symbol_values_and_accepts_numbers() {
    // A constant whose value is a symbol reference is rejected.
    let mut p = Program::empty();
    p.text_section = Some(Node::new(sp(), TextSection { statements: vec![] }));
    p.constants = vec![Node::new(sp(), Constant::new("bad".to_string(), sym("other")))];
    let r = assemble_default(&Node::new(sp(), p));
    assert_eq!(r.machine_code, None);
    assert_eq!(r.assembler_messages.len(), 1);
    assert_eq!(
        r.assembler_messages[0].description,
        ".set directive only accepts constant values! (Not functions nor labels)"
    );

    // A numeric constant is accepted and usable as an immediate.
    let mut p2 = Program::empty();
    p2.text_section = Some(Node::new(
        sp(),
        TextSection {
            statements: vec![instr(Instruction::Movi { rd: reg(1), n8: sym("answer") })],
        },
    ));
    p2.constants = vec![Node::new(sp(), Constant::new("answer".to_string(), lit(42)))];
    let r2 = assemble_default(&Node::new(sp(), p2));
    assert!(r2.assembler_messages.is_empty());
    // 0x9000 | 1 << 9 | 42
    assert_eq!(words_of(&r2), vec![0x922A]);
}

#[test]
fn assembling_twice_is_deterministic() {
    let p = text_program(vec![
        label("start"),
        instr(Instruction::Movi { rd: reg(0), n8: lit(300) }),
        instr(Instruction::Bz { ra: reg(0), n8: sym("start") }),
        raw(RawData::Bytes(vec![lit(7)])),
    ]);
    let flags = Flags { auto_align_words: true, ..Flags::default() };
    let r1 = assemble_with(flags, &p);
    let r2 = assemble_with(flags, &p);
    assert_eq!(r1.machine_code, r2.machine_code);
    assert_eq!(r1.assembler_messages.len(), r2.assembler_messages.len());
    for (a, b) in r1.assembler_messages.iter().zip(r2.assembler_messages.iter()) {
        assert_eq!(a.msg_type, b.msg_type);
        assert_eq!(a.description, b.description);
        assert_eq!(a.span, b.span);
    }
}

#[test]
fn output_length_is_program_end_and_gaps_stay_zero() {
    let mut p = Program::empty();
    p.text_section = Some(Node::new(
        sp(),
        TextSection {
            statements: vec![instr(Instruction::Movi { rd: reg(0), n8: lit(1) })],
        },
    ));
    p.data_section = Some(Node::new(
        sp(),
        DataSection { statements: vec![raw(RawData::Bytes(vec![lit(0xAB), lit(0xCD)]))] },
    ));
    let node = Node::new(sp(), p);
    let flags = Flags {
        data_section_start: DataSectionStart::Absolute(0x10),
        ..Flags::default()
    };
    let r = assemble_with(flags, &node);
    let bytes = r.machine_code.expect("expected output");
    assert_eq!(bytes.len(), 0x12);
    assert_eq!(&bytes[0..2], &[0x01, 0x90]);
    assert!(bytes[2..0x10].iter().all(|b| *b == 0));
    assert_eq!(&bytes[0x10..], &[0xAB, 0xCD]);
}

#[test]
fn three_register_formats_encode_as_documented() {
    let p = text_program(vec![
        instr(Instruction::And { rd: reg(1), ra: reg(2), rb: reg(3) }),
        instr(Instruction::Or { rd: reg(1), ra: reg(2), rb: reg(3) }),
        instr(Instruction::Xor { rd: reg(1), ra: reg(2), rb: reg(3) }),
        instr(Instruction::Not { rd: reg(1), ra: reg(2) }),
        instr(Instruction::Add { rd: reg(1), ra: reg(2), rb: reg(3) }),
        instr(Instruction::Sub { rd: reg(1), ra: reg(2), rb: reg(3) }),
        instr(Instruction::Sha { rd: reg(1), ra: reg(2), rb: reg(3) }),
        instr(Instruction::Shl { rd: reg(1), ra: reg(2), rb: reg(3) }),
        instr(Instruction::Cmplt { rd: reg(1), ra: reg(2), rb: reg(3) }),
        instr(Instruction::Cmple { rd: reg(1), ra: reg(2), rb: reg(3) }),
        instr(Instruction::Cmpeq { rd: reg(1), ra: reg(2), rb: reg(3) }),
        instr(Instruction::Cmpltu { rd: reg(1), ra: reg(2), rb: reg(3) }),
        instr(Instruction::Cmpleu { rd: reg(1), ra: reg(2), rb: reg(3) }),
    ]);
    let r = assemble_default(&p);
    assert!(r.assembler_messages.is_empty());
    // opcode(4) | ra(3) | rb(3) | rd(3) | func(3), ra=2 rb=3 rd=1.
    let base: u16 = (2 << 9) | (3 << 6) | (1 << 3);
    let not_base: u16 = 2 << 9 | (1 << 3);
    assert_eq!(
        words_of(&r),
        vec![
            base | 0,
            base | 1,
            base | 2,
            not_base | 3,
            base | 4,
            base | 5,
            base | 6,
            base | 7,
            0x1000 | base | 0,
            0x1000 | base | 1,
            0x1000 | base | 3,
            0x1000 | base | 4,
            0x1000 | base | 5,
        ]
    );
}

#[test]
fn immediate_formats_encode_as_documented() {
    let p = text_program(vec![
        instr(Instruction::Addi { rd: reg(1), ra: reg(2), n6: lit(3) }),
        instr(Instruction::Ld { rd: reg(1), n6: lit(4), ra: reg(2) }),
        instr(Instruction::St { n6: lit(4), ra: reg(2), rb: reg(3) }),
        instr(Instruction::Ldb { rd: reg(1), n6: lit(4), ra: reg(2) }),
        instr(Instruction::Stb { n6: lit(4), ra: reg(2), rb: reg(3) }),
        instr(Instruction::Jalr { rd: reg(1), ra: reg(2) }),
        instr(Instruction::Bnz { ra: reg(3), n8: lit(0x12) }),
        instr(Instruction::Movhi { rd: reg(2), n8: lit(0x34) }),
        instr(Instruction::In { rd: reg(5), n8: lit(7) }),
        instr(Instruction::Out { n8: lit(7), ra: reg(5) }),
        instr(Instruction::Nop),
    ]);
    let r = assemble_default(&p);
    assert!(r.assembler_messages.is_empty());
    assert_eq!(
        words_of(&r),
        vec![
            0x2443, 0x3444, 0x44C4, 0x5444, 0x64C4, 0x7440, 0x8712, 0x9534, 0xAA07, 0xAB07,
            0x0000,
        ]
    );
}

#[test]
fn negative_immediate_fits_as_signed_byte() {
    let p = text_program(vec![instr(Instruction::Movi { rd: reg(0), n8: lit(0xFFFE) })]);
    let r = assemble_default(&p);
    assert!(r.assembler_messages.is_empty());
    assert_eq!(words_of(&r), vec![0x90FE]);
}

#[test]
fn value_too_wide_for_byte_is_error() {
    let p = text_program(vec![instr(Instruction::Movi { rd: reg(0), n8: lit(300) })]);
    let r = assemble_default(&p);
    assert_eq!(r.machine_code, None);
    assert_eq!(r.assembler_messages.len(), 1);
    assert_eq!(r.assembler_messages[0].msg_type, AssemblerMessageType::Error);
    assert_eq!(r.assembler_messages[0].description, "This value doesn't fit in a byte!");
}

#[test]
fn undefined_symbol_is_error() {
    let p = text_program(vec![instr(Instruction::Movi { rd: reg(0), n8: sym("nowhere") })]);
    let r = assemble_default(&p);
    assert_eq!(r.machine_code, None);
    assert_eq!(r.assembler_messages.len(), 1);
    assert_eq!(r.assembler_messages[0].description, "Symbol nowhere isn't defined");
}

#[test]
fn lo_and_hi_narrow_addresses() {
    let p = text_program(vec![
        instr(Instruction::Movi { rd: reg(0), n8: lo_of(lit(0x1234)) }),
        instr(Instruction::Movhi { rd: reg(0), n8: hi_of(lit(0x1234)) }),
        label("here"),
        instr(Instruction::Movi { rd: reg(1), n8: lo_of(sym("here")) }),
    ]);
    let r = assemble_default(&p);
    assert!(r.assembler_messages.is_empty());
    assert_eq!(words_of(&r), vec![0x9034, 0x9112, 0x9204]);
}

#[test]
fn forward_branch_counts_words() {
    let p = text_program(vec![
        instr(Instruction::Bz { ra: reg(0), n8: sym("fwd") }),
        instr(Instruction::Nop),
        label("fwd"),
    ]);
    let r = assemble_default(&p);
    assert!(r.assembler_messages.is_empty());
    assert_eq!(words_of(&r), vec![0x8001, 0x0000]);
}

#[test]
fn backward_branch_has_negative_offset() {
    let p = text_program(vec![
        label("back"),
        instr(Instruction::Nop),
        instr(Instruction::Bz { ra: reg(0), n8: sym("back") }),
    ]);
    let r = assemble_default(&p);
    assert!(r.assembler_messages.is_empty());
    // The branch sits at 2, so the target lies two words behind pc + 2.
    assert_eq!(words_of(&r), vec![0x0000, 0x80FE]);
}

#[test]
fn words_emit_little_endian_and_accept_addresses() {
    let p = data_program(vec![
        label("tbl"),
        raw(RawData::Words(vec![lit(0x1234), sym("tbl")])),
    ]);
    let r = assemble_default(&p);
    assert!(r.assembler_messages.is_empty());
    assert_eq!(r.machine_code, Some(vec![0x34, 0x12, 0x00, 0x00]));
}

#[test]
fn raw_data_in_text_is_warning_only() {
    let p = text_program(vec![raw(RawData::Bytes(vec![lit(9)]))]);
    let r = assemble_default(&p);
    assert_eq!(r.assembler_messages.len(), 1);
    assert_eq!(r.assembler_messages[0].msg_type, AssemblerMessageType::Warning);
    assert_eq!(r.assembler_messages[0].description, "Found raw data in .text!");
    assert_eq!(r.machine_code, Some(vec![9]));
}

#[test]
fn instruction_in_data_is_warning_only() {
    let p = data_program(vec![instr(Instruction::Nop)]);
    let r = assemble_default(&p);
    assert_eq!(r.assembler_messages.len(), 1);
    assert_eq!(r.assembler_messages[0].msg_type, AssemblerMessageType::Warning);
    assert_eq!(r.assembler_messages[0].description, "Found an instruction on .data");
    assert_eq!(r.machine_code, Some(vec![0, 0]));
}

#[test]
fn word_align_pads_only_at_odd_addresses() {
    let p = data_program(vec![
        raw(RawData::Bytes(vec![lit(1)])),
        raw(RawData::WordAlign),
        raw(RawData::Bytes(vec![lit(2)])),
        raw(RawData::WordAlign),
        raw(RawData::Bytes(vec![lit(3)])),
    ]);
    let r = assemble_default(&p);
    assert!(r.assembler_messages.is_empty());
    // The cursor is odd after each single byte, so both aligns pad.
    assert_eq!(r.machine_code, Some(vec![1, 0, 2, 0, 3]));
}

#[test]
fn auto_align_words_pads_word_lists() {
    let p = data_program(vec![
        raw(RawData::Bytes(vec![lit(1)])),
        raw(RawData::Words(vec![lit(0x0203)])),
    ]);
    let flags = Flags { auto_align_words: true, ..Flags::default() };
    let r = assemble_with(flags, &p);
    assert!(r.assembler_messages.is_empty());
    assert_eq!(r.machine_code, Some(vec![1, 0, 0x03, 0x02]));
}

#[test]
fn auto_align_sections_pads_odd_base() {
    let p = text_program(vec![instr(Instruction::Nop)]);
    let flags = Flags {
        text_section_start: 1,
        auto_align_sections: true,
        ..Flags::default()
    };
    let r = assemble_with(flags, &p);
    // The alignment byte counts as raw data inside .text, which warns.
    assert_eq!(r.assembler_messages.len(), 1);
    assert_eq!(r.assembler_messages[0].msg_type, AssemblerMessageType::Warning);
    let bytes = r.machine_code.expect("expected output");
    assert_eq!(bytes, vec![0, 0, 0, 0]);
}

#[test]
fn empty_program_produces_empty_output() {
    let mut p = Program::empty();
    p.text_section = Some(Node::new(sp(), TextSection::empty()));
    p.data_section = Some(Node::new(sp(), DataSection::empty()));
    let r = assemble_default(&Node::new(sp(), p));
    assert!(r.assembler_messages.is_empty());
    assert_eq!(r.machine_code, Some(vec![]));
}
