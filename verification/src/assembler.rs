//! The assembler: pass 1, then pass 2, then the discard rule — when any
//! error was reported, the byte image is withheld and only the diagnostics
//! remain.

use crate::flags::Flags;
use crate::machine_code_generator::{
    le_bytes, p2_bytes_list, p2_flatten, p2_program, p2_raw_data, p2_section_items, p2_statement,
    p2_statements, p2_words_list, spec_as_u8, spec_codify_instruction, spec_eval_literal,
    MachineCodeGenerator, SectionItemV,
};
use crate::message::{error_msg, has_error, msgs_view, AssemblerMessage, AssemblerMessageType, MsgV};
use crate::node::Node;
use crate::nodes::{Program, RawData, Statement};
use crate::span::Span;
use crate::symbol_table::{SymbolTableEntry, SymbolTableV};
use crate::symbol_table_builder::{
    p1_build, p1_raw_advance, p1_section, p1_statement, p1_statements, P1State, SymbolTableBuilder,
};
use vstd::prelude::*;

verus! {

/// The assembler for one configuration.
pub struct Assembler {
    pub flags: Flags,
}

/// What an assembly run returns: the byte image (absent on failure) and
/// every diagnostic of both passes, in order.
pub struct AssemblerResult {
    pub machine_code: Option<Vec<u8>>,
    pub assembler_messages: Vec<AssemblerMessage>,
}

/// The whole assembler as a function of the program and the configuration:
/// pass 1 from an empty table, pass 2 against its result, pass-1
/// diagnostics before pass-2 diagnostics, and no output when any
/// diagnostic is an error.
pub open spec fn spec_assemble(prog: Program, flags: Flags) -> (Option<Seq<u8>>, Seq<MsgV>) {
    let r = p1_build(
        prog,
        flags,
        P1State { cursor: 0, symbols: Map::empty(), msgs: Seq::empty() },
    );
    let table = SymbolTableV {
        symbols: r.state.symbols,
        text_section: r.text_section,
        data_section: r.data_section,
    };
    let (bytes, p2ms) = p2_program(prog, table, flags);
    let msgs = r.state.msgs + p2ms;
    (
        if has_error(msgs) {
            None
        } else {
            Some(bytes)
        },
        msgs,
    )
}

/// Whenever the assembler produces an image, the image is exactly as long
/// as the program end address that pass 1 computed: the larger of the two
/// section end addresses.
pub proof fn lemma_output_length(prog: Program, flags: Flags)
    ensures
        ({
            let r = p1_build(
                prog,
                flags,
                P1State { cursor: 0, symbols: Map::empty(), msgs: Seq::empty() },
            );
            let (mc, ms) = spec_assemble(prog, flags);
            mc matches Some(bytes) ==> bytes.len() == crate::symbol_table::spec_program_end(
                r.text_section,
                r.data_section,
            )
        }),
{
    let r = p1_build(prog, flags, P1State { cursor: 0, symbols: Map::empty(), msgs: Seq::empty() });
    let table = SymbolTableV {
        symbols: r.state.symbols,
        text_section: r.text_section,
        data_section: r.data_section,
    };
    crate::machine_code_generator::lemma_image_length(prog, table, flags);
}

/// The result of [`spec_assemble`] depends on nothing but the program and
/// the configuration: two runs over the same tree agree byte for byte and
/// diagnostic for diagnostic.
pub proof fn lemma_assemble_deterministic(
    prog: Program,
    flags: Flags,
    r1: (Option<Seq<u8>>, Seq<MsgV>),
    r2: (Option<Seq<u8>>, Seq<MsgV>),
)
    requires
        r1 == spec_assemble(prog, flags),
        r2 == spec_assemble(prog, flags),
    ensures
        r1 == r2,
{
}

/// A raw-data directive moves pass 2's cursor exactly as far as it moved
/// pass 1's.
proof fn lemma_raw_data_cursor_agree(
    r: RawData,
    span: Span,
    symbols: Map<Seq<char>, SymbolTableEntry>,
    flags: Flags,
    cursor: u16,
)
    ensures
        p2_raw_data(r, span, symbols, flags, cursor).1 == p1_raw_advance(r, flags, cursor),
{
    if let RawData::Words(d) = r {
        let size = r.spec_size(cursor);
        assert(size % 2 == 0) by {
            let l = (d@.len() % 0x10000) as int;
            assert(0 <= l < 0x10000);
            assert(l * 2 % 0x10000 == if l * 2 < 0x10000 {
                l * 2
            } else {
                l * 2 - 0x10000
            });
        }
    }
}

/// One statement moves pass 2's cursor exactly as far as it moved
/// pass 1's.
proof fn lemma_statement_cursor_agree(
    node: Node<Span, Statement>,
    symbols: Map<Seq<char>, SymbolTableEntry>,
    flags: Flags,
    st: P1State,
)
    ensures
        p2_statement(node, symbols, flags, st.cursor).1 == p1_statement(node.data, flags, st).cursor,
{
    if let Statement::RawData(r) = node.data {
        lemma_raw_data_cursor_agree(r.data, r.common, symbols, flags, st.cursor);
    }
}

/// A statement list moves pass 2's cursor exactly as far as it moved
/// pass 1's.
proof fn lemma_statements_cursor_agree(
    ss: Seq<Node<Span, Statement>>,
    symbols: Map<Seq<char>, SymbolTableEntry>,
    flags: Flags,
    st: P1State,
)
    ensures
        p2_statements(ss, symbols, flags, st.cursor).1 == p1_statements(ss, flags, st).cursor,
    decreases ss.len(),
{
    if ss.len() > 0 {
        lemma_statements_cursor_agree(ss.drop_last(), symbols, flags, st);
        lemma_statement_cursor_agree(ss.last(), symbols, flags, p1_statements(ss.drop_last(), flags, st));
    }
}

/// The two passes stay consistent: walking one section, pass 2's cursor
/// ends exactly where pass 1's layout said it would, so every label bound
/// in pass 1 names the address pass 2 actually reaches.
pub proof fn lemma_passes_agree_on_layout(
    ss: Seq<Node<Span, Statement>>,
    symbols: Map<Seq<char>, SymbolTableEntry>,
    flags: Flags,
    st: P1State,
)
    ensures
        p2_section_items(ss, symbols, flags, st.cursor).1 == p1_section(ss, flags, st).cursor,
{
    let aligned = crate::symbol_table_builder::p1_align_section(flags, st);
    lemma_statements_cursor_agree(ss, symbols, flags, aligned);
}

/// The number of bytes one section item contributes to its section.
pub open spec fn item_len(it: SectionItemV) -> int {
    match it {
        SectionItemV::Code(_) => 2,
        SectionItemV::Data(d) => d.len() as int,
        SectionItemV::Nothing => 0,
    }
}

/// The wrapped sum reaches exactly `s` addresses past `c`, modulo the
/// address space.
proof fn lemma_wrap_delta(c: u16, s: u16)
    ensures
        (c.wrapping_add(s) - c) % 0x10000 == s as int,
{
    if c + s > u16::MAX {
        vstd::arithmetic::div_mod::lemma_mod_multiples_vanish(-1, s as int, 0x10000);
    }
    vstd::arithmetic::div_mod::lemma_small_mod(s as nat, 0x10000);
}

/// The wrapped difference is the distance modulo the address space.
proof fn lemma_wrap_sub_is_mod(a: u16, b: u16)
    ensures
        a.wrapping_sub(b) as int == (a - b) % 0x10000,
{
    if a - b < 0 {
        vstd::arithmetic::div_mod::lemma_mod_multiples_vanish(1, a - b, 0x10000);
        vstd::arithmetic::div_mod::lemma_small_mod((a - b + 0x10000) as nat, 0x10000);
    } else {
        vstd::arithmetic::div_mod::lemma_small_mod((a - b) as nat, 0x10000);
    }
}

/// When no literal of a `.byte` list fails to narrow, the list emits
/// exactly one byte per literal.
proof fn lemma_bytes_list_complete(
    lits: Seq<Node<Span, crate::nodes::Literal>>,
    symbols: Map<Seq<char>, SymbolTableEntry>,
    span: Span,
)
    requires
        !has_error(p2_bytes_list(lits, symbols, span).1),
    ensures
        p2_bytes_list(lits, symbols, span).0.len() == lits.len(),
    decreases lits.len(),
{
    if lits.len() > 0 {
        let (bs, ms) = p2_bytes_list(lits.drop_last(), symbols, span);
        let (v, ms2) = spec_eval_literal(lits.last().data, symbols);
        match spec_as_u8(v) {
            Ok(_) => {
                assert(!has_error(ms)) by {
                    if has_error(ms) {
                        let i = choose|i: int| 0 <= i < ms.len() && ms[i].msg_type is Error;
                        assert((ms + ms2)[i].msg_type is Error);
                    }
                }
                lemma_bytes_list_complete(lits.drop_last(), symbols, span);
            },
            Err(e) => {
                let whole = ms + ms2.push(error_msg(e, Some(span)));
                assert(whole[whole.len() - 1].msg_type is Error);
                assert(false);
            },
        }
    }
}

/// A `.word` list always emits two bytes per literal.
proof fn lemma_words_list_len(
    lits: Seq<Node<Span, crate::nodes::Literal>>,
    symbols: Map<Seq<char>, SymbolTableEntry>,
)
    ensures
        p2_words_list(lits, symbols).0.len() == 2 * lits.len(),
    decreases lits.len(),
{
    if lits.len() > 0 {
        lemma_words_list_len(lits.drop_last(), symbols);
    }
}

/// When a statement raises no error, it emits exactly as many bytes as it
/// moves the cursor, modulo the address space.
proof fn lemma_statement_bytes_match(
    node: Node<Span, Statement>,
    symbols: Map<Seq<char>, SymbolTableEntry>,
    flags: Flags,
    cursor: u16,
)
    requires
        !has_error(p2_statement(node, symbols, flags, cursor).2),
    ensures
        ({
            let (it, c2, ms) = p2_statement(node, symbols, flags, cursor);
            item_len(it) % 0x10000 == (c2 - cursor) % 0x10000
        }),
{
    let m = 0x10000int;
    match node.data {
        Statement::Instruction(inode) => {
            let (res, ms) = spec_codify_instruction(inode.data, symbols, cursor);
            match res {
                Ok(_) => {
                    lemma_wrap_delta(cursor, 2);
                    vstd::arithmetic::div_mod::lemma_small_mod(2, 0x10000);
                },
                Err(e) => {
                    let whole = ms.push(error_msg(e, Some(inode.common)));
                    assert(whole[whole.len() - 1].msg_type is Error);
                    assert(false);
                },
            }
        },
        Statement::RawData(rnode) => {
            let r = rnode.data;
            match r {
                RawData::WordAlign => {
                    if cursor % 2 != 0 {
                        lemma_wrap_delta(cursor, 1);
                        vstd::arithmetic::div_mod::lemma_small_mod(1, 0x10000);
                    }
                },
                RawData::Bytes(lits) => {
                    let size = r.spec_size(cursor);
                    lemma_bytes_list_complete(lits@, symbols, rnode.common);
                    lemma_wrap_delta(cursor, size);
                    // One byte per literal, and the size is the literal
                    // count modulo the address space.
                    vstd::arithmetic::div_mod::lemma_mod_twice(lits@.len() as int, m);
                },
                RawData::Words(lits) => {
                    let size = r.spec_size(cursor);
                    let c2 = cursor.wrapping_add(size);
                    lemma_words_list_len(lits@, symbols);
                    lemma_wrap_delta(cursor, size);
                    let l = lits@.len() as int;
                    // The size field is the doubled count, modulo the
                    // address space.
                    assert(size as int == (l % m) * 2 % m);
                    vstd::arithmetic::div_mod::lemma_mul_mod_noop_left(l, 2, m);
                    assert(size as int == 2 * l % m);
                    if flags.auto_align_words && c2 % 2 != 0 {
                        lemma_wrap_delta(c2, 1);
                        let c3 = c2.wrapping_add(1);
                        // Compose the two wrapped steps.
                        vstd::arithmetic::div_mod::lemma_add_mod_noop(c2 - cursor, c3 - c2, m);
                        assert((c3 - cursor) % m == ((c2 - cursor) % m + (c3 - c2) % m) % m);
                        assert((c3 - cursor) % m == (size + 1) % m);
                        // 1 + 2l bytes were emitted.
                        vstd::arithmetic::div_mod::lemma_add_mod_noop_right(1, 2 * l, m);
                        vstd::arithmetic::div_mod::lemma_add_mod_noop_right(1, size as int, m);
                        vstd::arithmetic::div_mod::lemma_small_mod(size as nat, 0x10000);
                        assert((1 + 2 * l) % m == (1 + size) % m);
                    } else {
                        vstd::arithmetic::div_mod::lemma_mod_twice(2 * l, m);
                        vstd::arithmetic::div_mod::lemma_small_mod(size as nat, 0x10000);
                    }
                },
            }
        },
        _ => {
            vstd::arithmetic::div_mod::lemma_small_mod(0, 0x10000);
        },
    }
}

/// Flattening distributes over concatenation of item lists.
proof fn lemma_flatten_concat(a: Seq<SectionItemV>, b: Seq<SectionItemV>, in_text: bool)
    ensures
        p2_flatten(a + b, in_text).0 == p2_flatten(a, in_text).0 + p2_flatten(b, in_text).0,
    decreases b.len(),
{
    if b.len() == 0 {
        assert(a + b =~= a);
        assert(p2_flatten(a, in_text).0 + p2_flatten(b, in_text).0 =~= p2_flatten(a, in_text).0);
    } else {
        lemma_flatten_concat(a, b.drop_last(), in_text);
        assert((a + b).drop_last() =~= a + b.drop_last());
        assert((a + b).last() == b.last());
        let fa = p2_flatten(a, in_text).0;
        let fb = p2_flatten(b.drop_last(), in_text).0;
        match b.last() {
            SectionItemV::Code(w) => {
                assert((fa + fb) + le_bytes(w) =~= fa + (fb + le_bytes(w)));
            },
            SectionItemV::Data(d) => {
                assert((fa + fb) + d =~= fa + (fb + d));
            },
            SectionItemV::Nothing => {},
        }
    }
}

/// When a statement list raises no error, it emits exactly as many bytes
/// as it moves the cursor, modulo the address space.
proof fn lemma_statements_bytes_match(
    ss: Seq<Node<Span, Statement>>,
    symbols: Map<Seq<char>, SymbolTableEntry>,
    flags: Flags,
    cursor: u16,
    in_text: bool,
)
    requires
        !has_error(p2_statements(ss, symbols, flags, cursor).2),
    ensures
        ({
            let (items, c2, ms) = p2_statements(ss, symbols, flags, cursor);
            p2_flatten(items, in_text).0.len() % 0x10000 == (c2 - cursor) % 0x10000
        }),
    decreases ss.len(),
{
    let m = 0x10000int;
    if ss.len() == 0 {
        vstd::arithmetic::div_mod::lemma_small_mod(0, 0x10000);
    } else {
        let rest = ss.drop_last();
        let (items1, c1, ms1) = p2_statements(rest, symbols, flags, cursor);
        let (it, c2, ms2) = p2_statement(ss.last(), symbols, flags, c1);
        assert(!has_error(ms1)) by {
            if has_error(ms1) {
                let i = choose|i: int| 0 <= i < ms1.len() && ms1[i].msg_type is Error;
                assert((ms1 + ms2)[i].msg_type is Error);
            }
        }
        assert(!has_error(ms2)) by {
            if has_error(ms2) {
                let i = choose|i: int| 0 <= i < ms2.len() && ms2[i].msg_type is Error;
                assert((ms1 + ms2)[ms1.len() + i].msg_type is Error);
            }
        }
        lemma_statements_bytes_match(rest, symbols, flags, cursor, in_text);
        lemma_statement_bytes_match(ss.last(), symbols, flags, c1);
        let fitems = p2_flatten(items1, in_text).0;
        assert(items1.push(it).drop_last() =~= items1);
        let whole = p2_flatten(items1.push(it), in_text).0;
        assert(whole.len() == fitems.len() + item_len(it));
        vstd::arithmetic::div_mod::lemma_add_mod_noop(
            fitems.len() as int,
            item_len(it),
            m,
        );
        vstd::arithmetic::div_mod::lemma_add_mod_noop(c1 - cursor, c2 - c1, m);
    }
}

/// The central consistency law of the two passes: when a section raises no
/// error, pass 2 emits for it exactly the number of bytes that pass 1
/// counted as the section's length (modulo the address space), and the
/// cursors of the two passes agree throughout.
pub proof fn lemma_section_emits_counted_bytes(
    ss: Seq<Node<Span, Statement>>,
    symbols: Map<Seq<char>, SymbolTableEntry>,
    flags: Flags,
    st: P1State,
    in_text: bool,
)
    requires
        !has_error(p2_section_items(ss, symbols, flags, st.cursor).2),
    ensures
        ({
            let (items, c2, ms) = p2_section_items(ss, symbols, flags, st.cursor);
            p2_flatten(items, in_text).0.len() % 0x10000 == p1_section(
                ss,
                flags,
                st,
            ).cursor.wrapping_sub(st.cursor) as int
        }),
{
    let m = 0x10000int;
    let cursor = st.cursor;
    let aligned = if flags.auto_align_sections && cursor % 2 != 0 {
        cursor.wrapping_add(1)
    } else {
        cursor
    };
    let pre: Seq<SectionItemV> = if flags.auto_align_sections && cursor % 2 != 0 {
        seq![SectionItemV::Data(seq![0u8])]
    } else {
        Seq::empty()
    };
    let (items, c2, ms) = p2_statements(ss, symbols, flags, aligned);
    lemma_statements_bytes_match(ss, symbols, flags, aligned, in_text);
    lemma_flatten_concat(pre, items, in_text);
    lemma_passes_agree_on_layout(ss, symbols, flags, st);
    lemma_wrap_sub_is_mod(c2, cursor);
    let fpre = p2_flatten(pre, in_text).0;
    let fitems = p2_flatten(items, in_text).0;
    if flags.auto_align_sections && cursor % 2 != 0 {
        assert(pre.drop_last() =~= Seq::<SectionItemV>::empty());
        assert(p2_flatten(Seq::<SectionItemV>::empty(), in_text).0 == Seq::<u8>::empty());
        assert(pre.last() == SectionItemV::Data(seq![0u8]));
        assert(fpre =~= seq![0u8]);
        lemma_wrap_delta(cursor, 1);
        vstd::arithmetic::div_mod::lemma_add_mod_noop(1, c2 - aligned, m);
        vstd::arithmetic::div_mod::lemma_small_mod(1, 0x10000);
        vstd::arithmetic::div_mod::lemma_add_mod_noop(aligned - cursor, c2 - aligned, m);
        vstd::arithmetic::div_mod::lemma_add_mod_noop(
            1,
            (fitems.len() as int) % m,
            m,
        );
        vstd::arithmetic::div_mod::lemma_add_mod_noop_right(1, fitems.len() as int, m);
    } else {
        assert(pre + items =~= items);
        assert(fpre =~= Seq::<u8>::empty());
        assert(fpre + fitems =~= fitems);
    }
}

impl Assembler {
    pub fn new(flags: &Flags) -> (r: Self)
        ensures
            r.flags == *flags,
    {
        Self { flags: *flags }
    }

    /// Assembles an already-parsed program.
    pub fn assemble(&self, node: &Node<Span, Program>) -> (r: AssemblerResult)
        ensures
            ({
                let (mc, ms) = spec_assemble(node.data, self.flags);
                msgs_view(r.assembler_messages@) == ms && match (r.machine_code, mc) {
                    (Some(v), Some(s)) => v@ == s,
                    (None, None) => true,
                    _ => false,
                }
            }),
    {
        let mut builder = SymbolTableBuilder::new(&self.flags);
        builder.build(node);
        let mut messages = builder.get_messages();
        let symbol_table = builder.get_symbol_table();

        let mut generator = MachineCodeGenerator::new(symbol_table, &self.flags);
        let mut machine_code = generator.generate(node);
        let mut gen_messages = generator.get_messages();
        let ghost p1_msgs = msgs_view(messages@);
        let ghost p2_msgs = msgs_view(gen_messages@);
        messages.append(&mut gen_messages);
        proof {
            assert(msgs_view(messages@) =~= p1_msgs + p2_msgs);
        }

        let mut any_error = false;
        let mut i: usize = 0;
        while i < messages.len()
            invariant
                0 <= i <= messages@.len(),
                any_error == exists|k: int|
                    0 <= k < i && (#[trigger] messages@[k])@.msg_type is Error,
            decreases messages@.len() - i,
        {
            if messages[i].msg_type == AssemblerMessageType::Error {
                any_error = true;
                proof {
                    assert(messages@[i as int]@.msg_type is Error);
                }
            }
            i += 1;
        }
        proof {
            let mv = msgs_view(messages@);
            if any_error {
                let k = choose|k: int|
                    0 <= k < messages@.len() && (#[trigger] messages@[k])@.msg_type is Error;
                assert(mv[k].msg_type is Error);
                assert(has_error(mv));
            } else {
                if has_error(mv) {
                    let j = choose|j: int| 0 <= j < mv.len() && mv[j].msg_type is Error;
                    assert((#[trigger] messages@[j])@.msg_type is Error);
                    assert(false);
                }
            }
        }
        if any_error {
            machine_code = None;
        }
        AssemblerResult { machine_code, assembler_messages: messages }
    }
}

} // verus!
