//! Diagnostics produced by the two passes: a severity, a human-readable
//! description and, when known, the source span the problem came from.

use crate::span::Span;
use vstd::prelude::*;
use vstd::string::StringExecFns;

verus! {

/// The severity of a diagnostic.  An `Error` makes the whole assembly fail;
/// a `Warning` or `Help` does not.
#[derive(Debug, Clone, Copy, PartialEq, Eq, Structural)]
pub enum AssemblerMessageType {
    Error,
    Warning,
    Help,
}

/// One diagnostic.
#[derive(Debug)]
pub struct AssemblerMessage {
    pub msg_type: AssemblerMessageType,
    pub description: String,
    pub span: Option<Span>,
}

/// The mathematical value of a diagnostic: the description as a character
/// sequence, everything else as it is.
pub ghost struct MsgV {
    pub msg_type: AssemblerMessageType,
    pub description: Seq<char>,
    pub span: Option<Span>,
}

impl View for AssemblerMessage {
    type V = MsgV;

    open spec fn view(&self) -> MsgV {
        MsgV { msg_type: self.msg_type, description: self.description@, span: self.span }
    }
}

/// The values of a list of diagnostics, in order.
pub open spec fn msgs_view(s: Seq<AssemblerMessage>) -> Seq<MsgV> {
    s.map_values(|m: AssemblerMessage| m@)
}

/// An error diagnostic with the given text and span.
pub open spec fn error_msg(description: Seq<char>, span: Option<Span>) -> MsgV {
    MsgV { msg_type: AssemblerMessageType::Error, description, span }
}

/// A warning diagnostic with the given text and span.
pub open spec fn warning_msg(description: Seq<char>, span: Option<Span>) -> MsgV {
    MsgV { msg_type: AssemblerMessageType::Warning, description, span }
}

/// Whether some diagnostic in the list is an error.
pub open spec fn has_error(msgs: Seq<MsgV>) -> bool {
    exists|i: int| 0 <= i < msgs.len() && msgs[i].msg_type is Error
}

/// The text reported when a symbol is defined a second time.
pub open spec fn msg_already_defined(name: Seq<char>) -> Seq<char> {
    "Symbol "@ + name + " is already defined"@
}

/// The text reported when a symbol is used but never defined.
pub open spec fn msg_not_defined(name: Seq<char>) -> Seq<char> {
    "Symbol "@ + name + " isn't defined"@
}

/// The text reported when a constant declaration is given a non-numeric
/// value.
pub open spec fn msg_constant_not_numeric() -> Seq<char> {
    ".set directive only accepts constant values! (Not functions nor labels)"@
}

/// The text reported when the two sections overlap.
pub open spec fn msg_sections_overlap() -> Seq<char> {
    "sections .text and .data are overlapping"@
}

/// The text reported when a 16-bit value cannot be narrowed to a byte.
pub open spec fn msg_value_not_byte() -> Seq<char> {
    "This value doesn't fit in a byte!"@
}

/// The text reported when an address is used where only a byte is legal.
pub open spec fn msg_address_not_byte() -> Seq<char> {
    "Can't fit an address in a byte!"@
}

/// The text of the warning for an instruction inside `.data`.
pub open spec fn msg_instruction_in_data() -> Seq<char> {
    "Found an instruction on .data"@
}

/// The text of the warning for raw data inside `.text`.
pub open spec fn msg_raw_data_in_text() -> Seq<char> {
    "Found raw data in .text!"@
}

/// Builds the duplicate-definition error text for `name`.
pub fn already_defined_text(name: &str) -> (r: String)
    ensures
        r@ == msg_already_defined(name@),
{
    let mut s = String::from_str("Symbol ");
    s.append(name);
    s.append(" is already defined");
    s
}

/// Builds the undefined-symbol error text for `name`.
pub fn not_defined_text(name: &str) -> (r: String)
    ensures
        r@ == msg_not_defined(name@),
{
    let mut s = String::from_str("Symbol ");
    s.append(name);
    s.append(" isn't defined");
    s
}

/// Builds the not-a-byte error text.
pub fn value_not_byte_text() -> (r: String)
    ensures
        r@ == msg_value_not_byte(),
{
    String::from_str("This value doesn't fit in a byte!")
}

/// Builds the address-in-a-byte error text.
pub fn address_not_byte_text() -> (r: String)
    ensures
        r@ == msg_address_not_byte(),
{
    String::from_str("Can't fit an address in a byte!")
}

/// Builds the non-numeric-constant error text.
pub fn constant_not_numeric_text() -> (r: String)
    ensures
        r@ == msg_constant_not_numeric(),
{
    String::from_str(".set directive only accepts constant values! (Not functions nor labels)")
}

/// Builds the overlapping-sections error text.
pub fn sections_overlap_text() -> (r: String)
    ensures
        r@ == msg_sections_overlap(),
{
    String::from_str("sections .text and .data are overlapping")
}

/// Builds the instruction-in-data warning text.
pub fn instruction_in_data_text() -> (r: String)
    ensures
        r@ == msg_instruction_in_data(),
{
    String::from_str("Found an instruction on .data")
}

/// Builds the raw-data-in-text warning text.
pub fn raw_data_in_text_text() -> (r: String)
    ensures
        r@ == msg_raw_data_in_text(),
{
    String::from_str("Found raw data in .text!")
}

impl AssemblerMessage {
    /// An error with the given description and span.
    pub fn error(description: String, span: Option<Span>) -> (r: Self)
        ensures
            r@ == error_msg(description@, span),
    {
        AssemblerMessage { msg_type: AssemblerMessageType::Error, description, span }
    }

    /// A warning with the given description and span.
    pub fn warning(description: String, span: Option<Span>) -> (r: Self)
        ensures
            r@ == warning_msg(description@, span),
    {
        AssemblerMessage { msg_type: AssemblerMessageType::Warning, description, span }
    }

    /// A copy of this diagnostic.
    pub fn duplicate(&self) -> (r: Self)
        ensures
            r == *self,
    {
        AssemblerMessage {
            msg_type: self.msg_type,
            description: self.description.clone(),
            span: self.span,
        }
    }
}

} // verus!
