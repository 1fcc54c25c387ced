//! The program tree: sections, statements, instructions, raw data and
//! literal expressions.  Every node is wrapped in [`Node`] together with the
//! source span it was parsed from.

use crate::node::Node;
use crate::span::Span;
use vstd::prelude::*;

verus! {

/// A whole source program: at most one section of each kind, plus the
/// constant declarations that appeared before the sections.
#[derive(Debug)]
pub struct Program {
    pub data_section: Option<Node<Span, DataSection>>,
    pub text_section: Option<Node<Span, TextSection>>,
    pub constants: Vec<Node<Span, Constant>>,
}

/// The `.data` section: an ordered sequence of statements.
#[derive(Debug)]
pub struct DataSection {
    pub statements: Vec<Node<Span, Statement>>,
}

/// The `.text` section: an ordered sequence of statements.
#[derive(Debug)]
pub struct TextSection {
    pub statements: Vec<Node<Span, Statement>>,
}

/// One line of a section.
#[derive(Debug)]
pub enum Statement {
    Instruction(Node<Span, Instruction>),
    Label(Node<Span, Label>),
    RawData(Node<Span, RawData>),
    Constant(Node<Span, Constant>),
}

/// The instruction set.  Every instruction occupies exactly two bytes.
#[derive(Debug)]
pub enum Instruction {
    And { rd: Node<Span, Registry>, ra: Node<Span, Registry>, rb: Node<Span, Registry> },
    Or { rd: Node<Span, Registry>, ra: Node<Span, Registry>, rb: Node<Span, Registry> },
    Xor { rd: Node<Span, Registry>, ra: Node<Span, Registry>, rb: Node<Span, Registry> },
    Not { rd: Node<Span, Registry>, ra: Node<Span, Registry> },
    Add { rd: Node<Span, Registry>, ra: Node<Span, Registry>, rb: Node<Span, Registry> },
    Sub { rd: Node<Span, Registry>, ra: Node<Span, Registry>, rb: Node<Span, Registry> },
    Sha { rd: Node<Span, Registry>, ra: Node<Span, Registry>, rb: Node<Span, Registry> },
    Shl { rd: Node<Span, Registry>, ra: Node<Span, Registry>, rb: Node<Span, Registry> },
    Cmplt { rd: Node<Span, Registry>, ra: Node<Span, Registry>, rb: Node<Span, Registry> },
    Cmple { rd: Node<Span, Registry>, ra: Node<Span, Registry>, rb: Node<Span, Registry> },
    Cmpeq { rd: Node<Span, Registry>, ra: Node<Span, Registry>, rb: Node<Span, Registry> },
    Cmpltu { rd: Node<Span, Registry>, ra: Node<Span, Registry>, rb: Node<Span, Registry> },
    Cmpleu { rd: Node<Span, Registry>, ra: Node<Span, Registry>, rb: Node<Span, Registry> },
    Addi { rd: Node<Span, Registry>, ra: Node<Span, Registry>, n6: Node<Span, Literal> },
    Ld { rd: Node<Span, Registry>, n6: Node<Span, Literal>, ra: Node<Span, Registry> },
    St { n6: Node<Span, Literal>, ra: Node<Span, Registry>, rb: Node<Span, Registry> },
    Ldb { rd: Node<Span, Registry>, n6: Node<Span, Literal>, ra: Node<Span, Registry> },
    Stb { n6: Node<Span, Literal>, ra: Node<Span, Registry>, rb: Node<Span, Registry> },
    Jalr { rd: Node<Span, Registry>, ra: Node<Span, Registry> },
    Bz { ra: Node<Span, Registry>, n8: Node<Span, Literal> },
    Bnz { ra: Node<Span, Registry>, n8: Node<Span, Literal> },
    Movi { rd: Node<Span, Registry>, n8: Node<Span, Literal> },
    Movhi { rd: Node<Span, Registry>, n8: Node<Span, Literal> },
    In { rd: Node<Span, Registry>, n8: Node<Span, Literal> },
    Out { n8: Node<Span, Literal>, ra: Node<Span, Registry> },
    Nop,
}

/// A raw-data directive.
#[derive(Debug)]
pub enum RawData {
    /// `.even`: one byte of padding when the cursor is odd, none otherwise.
    WordAlign,
    /// `.byte`/`.space`: one byte per literal.
    Bytes(Vec<Node<Span, Literal>>),
    /// `.word`: two little-endian bytes per literal.
    Words(Vec<Node<Span, Literal>>),
}

/// A register operand, in `[0, 7]`.
#[derive(Debug, Clone)]
pub struct Registry {
    pub reg: u8,
}

/// A 16-bit-producing expression.
#[derive(Debug)]
pub enum Literal {
    /// A plain number.
    Constant(u16),
    /// A reference to a label or a declared constant.
    SymbolRef(Node<Span, SymbolRef>),
    /// `lo(..)` or `hi(..)` applied to another literal.
    Function(Box<Node<Span, Function>>),
}

/// A label definition: binds a name to the cursor address where it appears.
#[derive(Debug, Clone)]
pub struct Label {
    pub label: String,
}

/// A use of a symbol by name inside a literal.
#[derive(Debug, Clone)]
pub struct SymbolRef {
    pub name: String,
}

/// Low- or high-byte extraction from a literal.
#[derive(Debug)]
pub enum Function {
    Lo(Node<Span, Literal>),
    Hi(Node<Span, Literal>),
}

/// A constant declaration (`.set NAME, value` or `NAME = value`).
#[derive(Debug)]
pub struct Constant {
    pub name: String,
    pub value: Node<Span, Literal>,
}

impl Program {
    /// A program with no sections and no constants.
    pub fn empty() -> (r: Self)
        ensures
            r.text_section is None,
            r.data_section is None,
            r.constants@ == Seq::<Node<Span, Constant>>::empty(),
    {
        Self { text_section: None, data_section: None, constants: Vec::new() }
    }
}

impl DataSection {
    /// A `.data` section with no statements.
    pub fn empty() -> (r: Self)
        ensures
            r.statements@ == Seq::<Node<Span, Statement>>::empty(),
    {
        Self { statements: Vec::new() }
    }
}

impl TextSection {
    /// A `.text` section with no statements.
    pub fn empty() -> (r: Self)
        ensures
            r.statements@ == Seq::<Node<Span, Statement>>::empty(),
    {
        Self { statements: Vec::new() }
    }
}

impl RawData {
    /// How many bytes this directive occupies when it starts at address
    /// `pos`.  A list longer than the address space counts modulo its size.
    pub open spec fn spec_size(&self, pos: u16) -> u16 {
        match self {
            RawData::WordAlign => if pos % 2 != 0 { 1u16 } else { 0u16 },
            RawData::Bytes(data) => (data@.len() % 0x10000) as u16,
            RawData::Words(data) => ((data@.len() % 0x10000) * 2 % 0x10000) as u16,
        }
    }

    /// The number of bytes this directive emits at address `pos`.
    pub fn get_size(&self, pos: u16) -> (r: u16)
        ensures
            r == self.spec_size(pos),
    {
        match self {
            RawData::WordAlign => if pos % 2 != 0 { 1 } else { 0 },
            RawData::Bytes(data) => (data.len() % 0x10000) as u16,
            RawData::Words(data) => (data.len() % 0x10000 * 2 % 0x10000) as u16,
        }
    }
}

impl Constant {
    pub fn new(name: String, value: Node<Span, Literal>) -> (r: Self)
        ensures
            r.name == name,
            r.value == value,
    {
        Self { name, value }
    }
}

} // verus!
