//! Pass 1: walks the program tree without emitting any byte, assigns the
//! two sections their places, binds every label to its address and every
//! constant to its value, and reports the layout error when the sections
//! overlap.
//!
//! The spec functions in this module are the reference semantics of the
//! pass: [`SymbolTableBuilder::build`] is proved to compute exactly
//! [`p1_build`].

use crate::flags::{DataSectionStart, Flags};
use crate::message::{
    constant_not_numeric_text, error_msg, msg_already_defined, msg_constant_not_numeric,
    msg_sections_overlap, msgs_view, sections_overlap_text, AssemblerMessage, MsgV,
};
use crate::node::Node;
use crate::nodes::{Constant, Label, Literal, Program, RawData, Statement};
use crate::span::Span;
use crate::symbol_table::{spec_layout_valid, Section, SymbolTable, SymbolTableEntry};
use vstd::prelude::*;

verus! {

/// The running state of pass 1: the cursor, the bindings made so far, and
/// the diagnostics reported so far.
pub ghost struct P1State {
    pub cursor: u16,
    pub symbols: Map<Seq<char>, SymbolTableEntry>,
    pub msgs: Seq<MsgV>,
}

/// The outcome of pass 1: the final state plus the two recorded sections.
pub ghost struct P1Result {
    pub state: P1State,
    pub text_section: Section,
    pub data_section: Section,
}

/// A label binds its name to the cursor address; a second binding of the
/// same name is an error and the first stays.
pub open spec fn p1_label(lbl: Label, span: Span, st: P1State) -> P1State {
    if st.symbols.contains_key(lbl.label@) {
        P1State {
            msgs: st.msgs.push(error_msg(msg_already_defined(lbl.label@), Some(span))),
            ..st
        }
    } else {
        P1State {
            symbols: st.symbols.insert(lbl.label@, SymbolTableEntry::address_spec(st.cursor)),
            ..st
        }
    }
}

/// A constant declaration is accepted only when its value is a plain
/// number; it binds like a label but carries a value, not an address.
pub open spec fn p1_constant(c: Constant, span: Span, st: P1State) -> P1State {
    match c.value.data {
        Literal::Constant(v) => if st.symbols.contains_key(c.name@) {
            P1State {
                msgs: st.msgs.push(error_msg(msg_already_defined(c.name@), Some(span))),
                ..st
            }
        } else {
            P1State { symbols: st.symbols.insert(c.name@, SymbolTableEntry::constant_spec(v)), ..st }
        },
        _ => P1State {
            msgs: st.msgs.push(error_msg(msg_constant_not_numeric(), Some(span))),
            ..st
        },
    }
}

/// How far a raw-data directive moves the cursor: an optional alignment
/// byte before a word list, then the directive's own size.
pub open spec fn p1_raw_advance(r: RawData, flags: Flags, cursor: u16) -> u16 {
    let c1 = if (r is Words) && flags.auto_align_words && cursor % 2 != 0 {
        cursor.wrapping_add(1)
    } else {
        cursor
    };
    c1.wrapping_add(r.spec_size(c1))
}

/// The effect of one statement on the pass-1 state.
pub open spec fn p1_statement(stmt: Statement, flags: Flags, st: P1State) -> P1State {
    match stmt {
        Statement::Instruction(_) => P1State { cursor: st.cursor.wrapping_add(2), ..st },
        Statement::Label(l) => p1_label(l.data, l.common, st),
        Statement::RawData(r) => P1State { cursor: p1_raw_advance(r.data, flags, st.cursor), ..st },
        Statement::Constant(c) => p1_constant(c.data, c.common, st),
    }
}

/// The effect of a statement list, in order.
pub open spec fn p1_statements(ss: Seq<Node<Span, Statement>>, flags: Flags, st: P1State) -> P1State
    decreases ss.len(),
{
    if ss.len() == 0 {
        st
    } else {
        p1_statement(ss.last().data, flags, p1_statements(ss.drop_last(), flags, st))
    }
}

/// One padding byte at the start of a section whose base is odd, when the
/// section-alignment flag asks for it.
pub open spec fn p1_align_section(flags: Flags, st: P1State) -> P1State {
    if flags.auto_align_sections && st.cursor % 2 != 0 {
        P1State { cursor: st.cursor.wrapping_add(1), ..st }
    } else {
        st
    }
}

/// The effect of one whole section.
pub open spec fn p1_section(ss: Seq<Node<Span, Statement>>, flags: Flags, st: P1State) -> P1State {
    p1_statements(ss, flags, p1_align_section(flags, st))
}

/// The effect of the top-level constant declarations, in order.
pub open spec fn p1_constants(cs: Seq<Node<Span, Constant>>, st: P1State) -> P1State
    decreases cs.len(),
{
    if cs.len() == 0 {
        st
    } else {
        p1_constant(cs.last().data, cs.last().common, p1_constants(cs.drop_last(), st))
    }
}

/// The whole traversal of pass 1: text section first, then the data
/// section (at its configured start, or right after the text), then the
/// top-level constants.  Section lengths are measured by the cursor.
pub open spec fn p1_program(prog: Program, flags: Flags, st0: P1State) -> P1Result {
    let st1 = P1State { cursor: flags.text_section_start, ..st0 };
    let st2 = match prog.text_section {
        Some(ts) => p1_section(ts.data.statements@, flags, st1),
        None => st1,
    };
    let text = Section {
        base_address: flags.text_section_start,
        length: st2.cursor.wrapping_sub(flags.text_section_start),
    };
    let dstart = match flags.data_section_start {
        DataSectionStart::Absolute(p) => p,
        DataSectionStart::AfterText => st2.cursor,
    };
    let st3 = P1State { cursor: dstart, ..st2 };
    let st4 = match prog.data_section {
        Some(ds) => p1_section(ds.data.statements@, flags, st3),
        None => st3,
    };
    let data = Section { base_address: dstart, length: st4.cursor.wrapping_sub(dstart) };
    let st5 = p1_constants(prog.constants@, st4);
    P1Result { state: st5, text_section: text, data_section: data }
}

/// Pass 1 followed by the overlap check: when the two recorded sections
/// overlap, one layout error is appended, and nothing else changes.
pub open spec fn p1_build(prog: Program, flags: Flags, st0: P1State) -> P1Result {
    let r = p1_program(prog, flags, st0);
    if spec_layout_valid(r.text_section, r.data_section) {
        r
    } else {
        P1Result {
            state: P1State {
                msgs: r.state.msgs.push(error_msg(msg_sections_overlap(), None)),
                ..r.state
            },
            ..r
        }
    }
}

/// The overlap error is reported exactly when the two computed section
/// ranges are not disjoint, and it is the only diagnostic the check adds;
/// which section lies lower does not matter, since
/// [`crate::symbol_table::lemma_layout_valid_symmetric`] shows the
/// validity test symmetric in the two sections.
pub proof fn lemma_overlap_error_iff(prog: Program, flags: Flags, st0: P1State)
    ensures
        ({
            let r0 = p1_program(prog, flags, st0);
            let r = p1_build(prog, flags, st0);
            &&& r.text_section == r0.text_section
            &&& r.data_section == r0.data_section
            &&& r.state.symbols == r0.state.symbols
            &&& spec_layout_valid(r0.text_section, r0.data_section) ==> r.state.msgs
                == r0.state.msgs
            &&& !spec_layout_valid(r0.text_section, r0.data_section) ==> r.state.msgs
                == r0.state.msgs.push(error_msg(msg_sections_overlap(), None))
        }),
{
}

/// The pass-1 visitor: owns the table being built, the diagnostics, and
/// the cursor.
pub struct SymbolTableBuilder {
    pub current_pos: u16,
    pub symbol_table: SymbolTable,
    pub messages: Vec<AssemblerMessage>,
    pub flags: Flags,
}

impl SymbolTableBuilder {
    /// The builder's part of the pass-1 state.
    pub open spec fn st(&self) -> P1State {
        P1State {
            cursor: self.current_pos,
            symbols: self.symbol_table@.symbols,
            msgs: msgs_view(self.messages@),
        }
    }

    /// A fresh builder for the given configuration.
    pub fn new(flags: &Flags) -> (r: Self)
        ensures
            r.symbol_table.wf(),
            r.flags == *flags,
            r.current_pos == 0,
            r.st().symbols == Map::<Seq<char>, SymbolTableEntry>::empty(),
            r.st().msgs == Seq::<MsgV>::empty(),
            r.symbol_table.text_section == (Section { base_address: 0u16, length: 0u16 }),
            r.symbol_table.data_section == (Section { base_address: 0u16, length: 0u16 }),
    {
        let r = Self {
            current_pos: 0,
            symbol_table: SymbolTable::new(),
            messages: Vec::new(),
            flags: *flags,
        };
        proof {
            assert(msgs_view(r.messages@) =~= Seq::<MsgV>::empty());
        }
        r
    }

    /// Binds `name` to a constant value in the table being built.
    fn put_constant(&mut self, name: String, value: u16) -> (r: Result<(), String>)
        requires
            old(self).symbol_table.wf(),
        ensures
            final(self).symbol_table.wf(),
            final(self).current_pos == old(self).current_pos,
            final(self).messages == old(self).messages,
            final(self).flags == old(self).flags,
            final(self).symbol_table.text_section == old(self).symbol_table.text_section,
            final(self).symbol_table.data_section == old(self).symbol_table.data_section,
            old(self).st().symbols.contains_key(name@) ==> (r matches Err(e) && e@
                == msg_already_defined(name@) && final(self).st().symbols == old(
                self,
            ).st().symbols),
            !old(self).st().symbols.contains_key(name@) ==> (r is Ok && final(self).st().symbols
                == old(self).st().symbols.insert(name@, SymbolTableEntry::constant_spec(value))),
    {
        self.symbol_table.put_constant(name, value)
    }

    /// Binds `label` to the cursor's current address.
    fn put_current_address(&mut self, label: String) -> (r: Result<(), String>)
        requires
            old(self).symbol_table.wf(),
        ensures
            final(self).symbol_table.wf(),
            final(self).current_pos == old(self).current_pos,
            final(self).messages == old(self).messages,
            final(self).flags == old(self).flags,
            final(self).symbol_table.text_section == old(self).symbol_table.text_section,
            final(self).symbol_table.data_section == old(self).symbol_table.data_section,
            old(self).st().symbols.contains_key(label@) ==> (r matches Err(e) && e@
                == msg_already_defined(label@) && final(self).st().symbols == old(
                self,
            ).st().symbols),
            !old(self).st().symbols.contains_key(label@) ==> (r is Ok && final(self).st().symbols
                == old(self).st().symbols.insert(
                label@,
                SymbolTableEntry::address_spec(old(self).current_pos),
            )),
    {
        let pos = self.current_pos;
        self.symbol_table.put_address(label, pos)
    }

    /// Records one diagnostic.
    fn push_message(&mut self, msg: AssemblerMessage)
        ensures
            final(self).current_pos == old(self).current_pos,
            final(self).symbol_table == old(self).symbol_table,
            final(self).flags == old(self).flags,
            final(self).messages@ == old(self).messages@.push(msg),
            msgs_view(final(self).messages@) == msgs_view(old(self).messages@).push(msg@),
    {
        self.messages.push(msg);
        proof {
            assert(msgs_view(self.messages@) =~= msgs_view(old(self).messages@).push(msg@));
        }
    }

    /// Pass-1 handling of a label statement.
    fn visit_label(&mut self, node: &Node<Span, Label>)
        requires
            old(self).symbol_table.wf(),
        ensures
            final(self).symbol_table.wf(),
            final(self).flags == old(self).flags,
            final(self).symbol_table.text_section == old(self).symbol_table.text_section,
            final(self).symbol_table.data_section == old(self).symbol_table.data_section,
            final(self).st() == p1_label(node.data, node.common, old(self).st()),
    {
        let name = node.get_data().label.clone();
        if let Err(e) = self.put_current_address(name) {
            self.push_message(AssemblerMessage::error(e, Some(*node.get_common())));
        }
    }

    /// Pass-1 handling of a constant declaration.
    fn visit_constant(&mut self, node: &Node<Span, Constant>)
        requires
            old(self).symbol_table.wf(),
        ensures
            final(self).symbol_table.wf(),
            final(self).flags == old(self).flags,
            final(self).symbol_table.text_section == old(self).symbol_table.text_section,
            final(self).symbol_table.data_section == old(self).symbol_table.data_section,
            final(self).st() == p1_constant(node.data, node.common, old(self).st()),
    {
        let outcome: Result<(), String> = match node.get_data().value.get_data() {
            Literal::Constant(v) => {
                let name = node.get_data().name.clone();
                let value = *v;
                self.put_constant(name, value)
            },
            _ => Err(constant_not_numeric_text()),
        };
        if let Err(e) = outcome {
            self.push_message(AssemblerMessage::error(e, Some(*node.get_common())));
        }
    }

    /// Pass-1 handling of a raw-data directive: only the cursor moves.
    fn visit_raw_data(&mut self, node: &Node<Span, RawData>)
        ensures
            final(self).symbol_table == old(self).symbol_table,
            final(self).messages == old(self).messages,
            final(self).flags == old(self).flags,
            final(self).current_pos == p1_raw_advance(node.data, old(self).flags, old(self).current_pos),
    {
        if let RawData::Words(_) = node.get_data() {
            if self.flags.auto_align_words && self.current_pos % 2 != 0 {
                self.current_pos = self.current_pos.wrapping_add(1);
            }
        }
        let size = node.get_data().get_size(self.current_pos);
        self.current_pos = self.current_pos.wrapping_add(size);
    }

    /// Pass-1 handling of one statement.
    fn visit_statement(&mut self, node: &Node<Span, Statement>)
        requires
            old(self).symbol_table.wf(),
        ensures
            final(self).symbol_table.wf(),
            final(self).flags == old(self).flags,
            final(self).symbol_table.text_section == old(self).symbol_table.text_section,
            final(self).symbol_table.data_section == old(self).symbol_table.data_section,
            final(self).st() == p1_statement(node.data, old(self).flags, old(self).st()),
    {
        match node.get_data() {
            Statement::Instruction(_) => {
                self.current_pos = self.current_pos.wrapping_add(2);
            },
            Statement::Label(l) => self.visit_label(l),
            Statement::RawData(r) => self.visit_raw_data(r),
            Statement::Constant(c) => self.visit_constant(c),
        }
    }

    /// Pass-1 traversal of a statement list, after the optional section
    /// alignment.
    fn visit_statements(&mut self, statements: &Vec<Node<Span, Statement>>)
        requires
            old(self).symbol_table.wf(),
        ensures
            final(self).symbol_table.wf(),
            final(self).flags == old(self).flags,
            final(self).symbol_table.text_section == old(self).symbol_table.text_section,
            final(self).symbol_table.data_section == old(self).symbol_table.data_section,
            final(self).st() == p1_section(statements@, old(self).flags, old(self).st()),
    {
        if self.flags.auto_align_sections && self.current_pos % 2 != 0 {
            self.current_pos = self.current_pos.wrapping_add(1);
        }
        let ghost flags = self.flags;
        let ghost aligned = self.st();
        proof {
            assert(aligned == p1_align_section(flags, old(self).st()));
            assert(statements@.take(0) =~= Seq::<Node<Span, Statement>>::empty());
        }
        let mut i: usize = 0;
        while i < statements.len()
            invariant
                0 <= i <= statements@.len(),
                self.symbol_table.wf(),
                self.flags == flags,
                self.symbol_table.text_section == old(self).symbol_table.text_section,
                self.symbol_table.data_section == old(self).symbol_table.data_section,
                self.st() == p1_statements(statements@.take(i as int), flags, aligned),
            decreases statements@.len() - i,
        {
            let ghost prefix = statements@.take(i as int);
            self.visit_statement(&statements[i]);
            proof {
                assert(statements@.take(i + 1).drop_last() =~= prefix);
                assert(statements@.take(i + 1).last() == statements@[i as int]);
            }
            i += 1;
        }
        proof {
            assert(statements@.take(statements@.len() as int) =~= statements@);
        }
    }

    /// Pass-1 traversal of the whole program.
    fn visit_program(&mut self, node: &Node<Span, Program>)
        requires
            old(self).symbol_table.wf(),
        ensures
            final(self).symbol_table.wf(),
            final(self).flags == old(self).flags,
            ({
                let r = p1_program(node.data, old(self).flags, old(self).st());
                final(self).st() == r.state && final(self).symbol_table.text_section
                    == r.text_section && final(self).symbol_table.data_section == r.data_section
            }),
    {
        self.current_pos = self.flags.text_section_start;
        let text_start = self.current_pos;
        if let Some(ts) = &node.get_data().text_section {
            self.visit_statements(&ts.get_data().statements);
        }
        let text_len = self.current_pos.wrapping_sub(text_start);
        self.symbol_table.set_text_section(text_start, text_len);

        if let DataSectionStart::Absolute(pos) = self.flags.data_section_start {
            self.current_pos = pos;
        }
        let data_start = self.current_pos;
        if let Some(ds) = &node.get_data().data_section {
            self.visit_statements(&ds.get_data().statements);
        }
        let data_len = self.current_pos.wrapping_sub(data_start);
        self.symbol_table.set_data_section(data_start, data_len);

        let ghost mid = self.st();
        let constants = &node.get_data().constants;
        proof {
            assert(constants@.take(0) =~= Seq::<Node<Span, Constant>>::empty());
        }
        let mut i: usize = 0;
        while i < constants.len()
            invariant
                0 <= i <= constants@.len(),
                self.symbol_table.wf(),
                self.flags == old(self).flags,
                self.symbol_table.text_section == (Section { base_address: text_start, length: text_len }),
                self.symbol_table.data_section == (Section { base_address: data_start, length: data_len }),
                self.st() == p1_constants(constants@.take(i as int), mid),
            decreases constants@.len() - i,
        {
            let ghost prefix = constants@.take(i as int);
            self.visit_constant(&constants[i]);
            proof {
                assert(constants@.take(i + 1).drop_last() =~= prefix);
                assert(constants@.take(i + 1).last() == constants@[i as int]);
            }
            i += 1;
        }
        proof {
            assert(constants@.take(constants@.len() as int) =~= constants@);
        }
    }

    /// Runs pass 1 on the program and then checks the section layout.
    pub fn build(&mut self, node: &Node<Span, Program>)
        requires
            old(self).symbol_table.wf(),
        ensures
            final(self).symbol_table.wf(),
            final(self).flags == old(self).flags,
            ({
                let r = p1_build(node.data, old(self).flags, old(self).st());
                final(self).st() == r.state && final(self).symbol_table.text_section
                    == r.text_section && final(self).symbol_table.data_section == r.data_section
            }),
    {
        self.visit_program(node);
        if !self.symbol_table.is_valid_layout() {
            self.push_message(AssemblerMessage::error(sections_overlap_text(), None));
        }
    }

    /// A copy of the diagnostics recorded so far, in order.
    pub fn get_messages(&self) -> (r: Vec<AssemblerMessage>)
        ensures
            r@ == self.messages@,
    {
        let mut out: Vec<AssemblerMessage> = Vec::new();
        let mut i: usize = 0;
        while i < self.messages.len()
            invariant
                0 <= i <= self.messages@.len(),
                out@ == self.messages@.take(i as int),
            decreases self.messages@.len() - i,
        {
            out.push(self.messages[i].duplicate());
            proof {
                assert(self.messages@.take(i + 1) =~= self.messages@.take(i as int).push(
                    self.messages@[i as int],
                ));
            }
            i += 1;
        }
        proof {
            assert(self.messages@.take(self.messages@.len() as int) =~= self.messages@);
        }
        out
    }

    /// Hands the finished table over to pass 2.
    pub fn get_symbol_table(self) -> (r: SymbolTable)
        ensures
            r == self.symbol_table,
    {
        self.symbol_table
    }
}

} // verus!
