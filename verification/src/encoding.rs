//! Bit-level packing of the three instruction layouts, and the
//! lossless-byte rule for immediate operands.

use crate::message::{msg_value_not_byte, value_not_byte_text};
use vstd::prelude::*;

verus! {

/// The three-register layout: `opcode(4) | ra(3) | rb(3) | rd(3) | func(3)`.
pub open spec fn spec_codify_3r(opcode: u8, ra: u8, rb: u8, rd: u8, f: u8) -> u16 {
    ((opcode as u16 & 0xF) << 12) | ((ra as u16 & 0x7) << 9) | ((rb as u16 & 0x7) << 6) | ((
    rd as u16 & 0x7) << 3) | (f as u16 & 0x7)
}

/// The two-register-plus-immediate layout: `opcode(4) | ra(3) | rb(3) | n6(6)`.
pub open spec fn spec_codify_2r(opcode: u8, ra: u8, rb: u8, n: u8) -> u16 {
    ((opcode as u16 & 0xF) << 12) | ((ra as u16 & 0x7) << 9) | ((rb as u16 & 0x7) << 6) | (
    n as u16 & 0x3F)
}

/// The one-register-plus-immediate layout: `opcode(4) | ra(3) | ext(1) | n8(8)`.
pub open spec fn spec_codify_1r(opcode: u8, ra: u8, ext: bool, n: u8) -> u16 {
    ((opcode as u16 & 0xF) << 12) | ((ra as u16 & 0x7) << 9) | ((if ext {
        1u16
    } else {
        0u16
    }) << 8) | (n as u16 & 0xFF)
}

/// Packs a three-register instruction word.
pub fn codify_3r(opcode: u8, ra: u8, rb: u8, rd: u8, f: u8) -> (r: u16)
    ensures
        r == spec_codify_3r(opcode, ra, rb, rd, f),
{
    ((opcode as u16 & 0xF) << 12) | ((ra as u16 & 0x7) << 9) | ((rb as u16 & 0x7) << 6) | ((
    rd as u16 & 0x7) << 3) | (f as u16 & 0x7)
}

/// Packs a two-register-plus-immediate instruction word.
pub fn codify_2r(opcode: u8, ra: u8, rb: u8, n: u8) -> (r: u16)
    ensures
        r == spec_codify_2r(opcode, ra, rb, n),
{
    ((opcode as u16 & 0xF) << 12) | ((ra as u16 & 0x7) << 9) | ((rb as u16 & 0x7) << 6) | (
    n as u16 & 0x3F)
}

/// Packs a one-register-plus-immediate instruction word.
pub fn codify_1r(opcode: u8, ra: u8, ext: bool, n: u8) -> (r: u16)
    ensures
        r == spec_codify_1r(opcode, ra, ext, n),
{
    ((opcode as u16 & 0xF) << 12) | ((ra as u16 & 0x7) << 9) | ((if ext {
        1u16
    } else {
        0u16
    }) << 8) | (n as u16 & 0xFF)
}

/// Whether a 16-bit value can be narrowed to one byte without loss: it is
/// an unsigned byte, or the sign extension of its own low byte.
pub open spec fn fits_byte(v: u16) -> bool {
    v <= 255 || v >= 0xFF80
}

/// The low byte of a 16-bit value.
pub open spec fn byte_of(v: u16) -> u8 {
    (v % 0x100) as u8
}

/// Narrows `val` to a byte when the lossless-byte rule allows it.
pub fn as_u8_lossless(val: u16) -> (r: Result<u8, String>)
    ensures
        fits_byte(val) ==> (r matches Ok(b) && b == byte_of(val)),
        !fits_byte(val) ==> (r matches Err(e) && e@ == msg_value_not_byte()),
{
    if val <= 255 || val >= 0xFF80 {
        Ok((val % 0x100) as u8)
    } else {
        Err(value_not_byte_text())
    }
}

/// Every field of a packed three-register word reads back unchanged.
pub proof fn lemma_codify_3r_round_trip(opcode: u8, ra: u8, rb: u8, rd: u8, f: u8)
    requires
        opcode < 16,
        ra < 8,
        rb < 8,
        rd < 8,
        f < 8,
    ensures
        spec_codify_3r(opcode, ra, rb, rd, f) >> 12 == opcode,
        (spec_codify_3r(opcode, ra, rb, rd, f) >> 9) & 0x7 == ra,
        (spec_codify_3r(opcode, ra, rb, rd, f) >> 6) & 0x7 == rb,
        (spec_codify_3r(opcode, ra, rb, rd, f) >> 3) & 0x7 == rd,
        spec_codify_3r(opcode, ra, rb, rd, f) & 0x7 == f,
{
    assert(opcode < 16 && ra < 8 && rb < 8 && rd < 8 && f < 8 ==> {
        let v = ((opcode as u16 & 0xF) << 12) | ((ra as u16 & 0x7) << 9) | ((rb as u16 & 0x7) << 6)
            | ((rd as u16 & 0x7) << 3) | (f as u16 & 0x7);
        v >> 12 == opcode && (v >> 9) & 0x7 == ra && (v >> 6) & 0x7 == rb && (v >> 3) & 0x7 == rd
            && v & 0x7 == f
    }) by (bit_vector);
}

/// Every field of a packed two-register word reads back unchanged.
pub proof fn lemma_codify_2r_round_trip(opcode: u8, ra: u8, rb: u8, n: u8)
    requires
        opcode < 16,
        ra < 8,
        rb < 8,
        n < 64,
    ensures
        spec_codify_2r(opcode, ra, rb, n) >> 12 == opcode,
        (spec_codify_2r(opcode, ra, rb, n) >> 9) & 0x7 == ra,
        (spec_codify_2r(opcode, ra, rb, n) >> 6) & 0x7 == rb,
        spec_codify_2r(opcode, ra, rb, n) & 0x3F == n,
{
    assert(opcode < 16 && ra < 8 && rb < 8 && n < 64 ==> {
        let v = ((opcode as u16 & 0xF) << 12) | ((ra as u16 & 0x7) << 9) | ((rb as u16 & 0x7) << 6)
            | (n as u16 & 0x3F);
        v >> 12 == opcode && (v >> 9) & 0x7 == ra && (v >> 6) & 0x7 == rb && v & 0x3F == n
    }) by (bit_vector);
}

/// Every field of a packed one-register word reads back unchanged.
pub proof fn lemma_codify_1r_round_trip(opcode: u8, ra: u8, ext: bool, n: u8)
    requires
        opcode < 16,
        ra < 8,
    ensures
        spec_codify_1r(opcode, ra, ext, n) >> 12 == opcode,
        (spec_codify_1r(opcode, ra, ext, n) >> 9) & 0x7 == ra,
        ((spec_codify_1r(opcode, ra, ext, n) >> 8) & 0x1 == 1) == ext,
        spec_codify_1r(opcode, ra, ext, n) & 0xFF == n,
{
    let e: u16 = if ext { 1 } else { 0 };
    assert(opcode < 16 && ra < 8 && (e == 0 || e == 1) ==> {
        let v = ((opcode as u16 & 0xF) << 12) | ((ra as u16 & 0x7) << 9) | (e << 8) | (n as u16
            & 0xFF);
        v >> 12 == opcode && (v >> 9) & 0x7 == ra && (v >> 8) & 0x1 == e && v & 0xFF == n
    }) by (bit_vector);
}

} // verus!
