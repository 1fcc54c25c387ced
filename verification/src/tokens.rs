//! The token alphabet of the assembly language, and the helpers that turn
//! register and numeric-literal spellings into token payloads.

use vstd::prelude::*;
use vstd::string::StrSliceExecFns;

verus! {

/// One lexical token.
#[derive(Debug, PartialEq, Eq)]
pub enum Token {
    Invalid(String),
    Ignore,
    And,
    Or,
    Xor,
    Not,
    Add,
    Sub,
    Sha,
    Shl,
    Cmplt,
    Cmple,
    Cmpeq,
    Cmpltu,
    Cmpleu,
    Addi,
    Ld,
    St,
    Ldb,
    Stb,
    Jalr,
    Bz,
    Bnz,
    Movi,
    Movhi,
    In,
    Out,
    Nop,
    Reg(u8),
    Lit(u16),
    Comma,
    Lpar,
    Rpar,
    Colon,
    Ident(String),
    Lo,
    Hi,
    BeginText,
    BeginData,
    End,
    Byte,
    Word,
    Space,
    Even,
    Equals,
    SetDir,
}

/// Whether `c` is a decimal digit.
pub open spec fn is_dec_digit(c: char) -> bool {
    '0' <= c <= '9'
}

/// The numeric value of a decimal digit.
pub open spec fn dec_digit_val(c: char) -> int {
    c as int - '0' as int
}

/// Whether `c` is a hexadecimal digit.
pub open spec fn is_hex_digit(c: char) -> bool {
    is_dec_digit(c) || 'a' <= c <= 'f' || 'A' <= c <= 'F'
}

/// The numeric value of a hexadecimal digit.
pub open spec fn hex_digit_val(c: char) -> int {
    if is_dec_digit(c) {
        c as int - '0' as int
    } else if 'a' <= c <= 'f' {
        c as int - 'a' as int + 10
    } else {
        c as int - 'A' as int + 10
    }
}

/// The value of a string of decimal digits, most significant first.
pub open spec fn dec_value(s: Seq<char>) -> int
    decreases s.len(),
{
    if s.len() == 0 {
        0
    } else {
        dec_value(s.drop_last()) * 10 + dec_digit_val(s.last())
    }
}

/// The value of a string of hexadecimal digits, most significant first.
pub open spec fn hex_value(s: Seq<char>) -> int
    decreases s.len(),
{
    if s.len() == 0 {
        0
    } else {
        hex_value(s.drop_last()) * 16 + hex_digit_val(s.last())
    }
}

/// A digit string's value is never negative.
proof fn lemma_dec_value_nonneg(s: Seq<char>)
    requires
        forall|i: int| 0 <= i < s.len() ==> is_dec_digit(#[trigger] s[i]),
    ensures
        dec_value(s) >= 0,
    decreases s.len(),
{
    if s.len() > 0 {
        lemma_dec_value_nonneg(s.drop_last());
    }
}

/// A digit string is worth at least as much as any of its prefixes.
proof fn lemma_dec_value_prefix_le(s: Seq<char>, i: int)
    requires
        forall|j: int| 0 <= j < s.len() ==> is_dec_digit(#[trigger] s[j]),
        0 <= i <= s.len(),
    ensures
        dec_value(s.take(i)) <= dec_value(s),
    decreases s.len() - i,
{
    if i == s.len() {
        assert(s.take(i) =~= s);
    } else {
        lemma_dec_value_nonneg(s.take(i));
        assert(s.take(i + 1).drop_last() =~= s.take(i));
        lemma_dec_value_prefix_le(s, i + 1);
    }
}

/// As above, for hexadecimal digit strings.
proof fn lemma_hex_value_nonneg(s: Seq<char>)
    requires
        forall|i: int| 0 <= i < s.len() ==> is_hex_digit(#[trigger] s[i]),
    ensures
        hex_value(s) >= 0,
    decreases s.len(),
{
    if s.len() > 0 {
        lemma_hex_value_nonneg(s.drop_last());
    }
}

proof fn lemma_hex_value_prefix_le(s: Seq<char>, i: int)
    requires
        forall|j: int| 0 <= j < s.len() ==> is_hex_digit(#[trigger] s[j]),
        0 <= i <= s.len(),
    ensures
        hex_value(s.take(i)) <= hex_value(s),
    decreases s.len() - i,
{
    if i == s.len() {
        assert(s.take(i) =~= s);
    } else {
        lemma_hex_value_nonneg(s.take(i));
        assert(s.take(i + 1).drop_last() =~= s.take(i));
        lemma_hex_value_prefix_le(s, i + 1);
    }
}

/// Turns a register spelling `R0`..`R7` into its register token.
pub fn parse_reg(tok: &str) -> (r: Token)
    requires
        tok@.len() == 2,
        tok@[0] == 'R',
        '0' <= tok@[1] <= '7',
    ensures
        r == Token::Reg(dec_digit_val(tok@[1]) as u8),
{
    let c = tok.get_char(1);
    Token::Reg((c as u32 - 48) as u8)
}

/// Turns a decimal literal, optionally signed, into its 16-bit token value;
/// a negative value is taken in two's complement.
pub fn parse_int_lit(tok: &str) -> (r: Token)
    requires
        tok@.len() >= 1,
        (tok@[0] == '-' || tok@[0] == '+') ==> tok@.len() >= 2,
        forall|i: int|
            (if tok@[0] == '-' || tok@[0] == '+' {
                1int
            } else {
                0int
            }) <= i < tok@.len() ==> is_dec_digit(#[trigger] tok@[i]),
        tok@[0] == '-' ==> dec_value(tok@.skip(1)) <= 0x8000,
        tok@[0] != '-' && tok@[0] != '+' ==> dec_value(tok@) <= 0x7FFF,
        tok@[0] == '+' ==> dec_value(tok@.skip(1)) <= 0x7FFF,
    ensures
        r == Token::Lit(spec_int_lit_value(tok@)),
{
    let len = tok.unicode_len();
    let first = tok.get_char(0);
    let negative = first == '-';
    let mut i: usize = if first == '-' || first == '+' {
        1
    } else {
        0
    };
    let ghost start = i as int;
    let ghost digits = tok@.skip(start);
    let mut acc: u32 = 0;
    proof {
        assert(digits.take(0) =~= Seq::<char>::empty());
        assert(tok@.skip(0) =~= tok@);
        assert forall|j: int| 0 <= j < digits.len() implies is_dec_digit(#[trigger] digits[j]) by {
            assert(digits[j] == tok@[j + start]);
        }
    }
    while i < len
        invariant
            len == tok@.len(),
            0 <= start <= i <= len,
            digits == tok@.skip(start),
            forall|j: int| 0 <= j < digits.len() ==> is_dec_digit(#[trigger] digits[j]),
            dec_value(digits) <= 0x8000,
            acc == dec_value(digits.take(i - start)),
        decreases len - i,
    {
        let c = tok.get_char(i);
        proof {
            assert(digits[i - start] == tok@[i as int]);
            lemma_dec_value_prefix_le(digits, i - start + 1);
            lemma_dec_value_nonneg(digits.take(i - start));
            assert(digits.take(i - start + 1).drop_last() =~= digits.take(i - start));
            assert(digits.take(i - start + 1).last() == digits[i - start]);
        }
        acc = acc * 10 + (c as u32 - 48);
        i += 1;
    }
    proof {
        assert(digits.take(len - start) =~= digits);
    }
    if negative {
        Token::Lit(((0x10000u32 - acc) % 0x10000) as u16)
    } else {
        Token::Lit(acc as u16)
    }
}

/// The 16-bit value a decimal literal token denotes.
pub open spec fn spec_int_lit_value(s: Seq<char>) -> u16 {
    if s[0] == '-' {
        (((0x10000 - dec_value(s.skip(1))) % 0x10000) as u16)
    } else if s[0] == '+' {
        (dec_value(s.skip(1)) as u16)
    } else {
        (dec_value(s) as u16)
    }
}

/// Turns a hexadecimal literal (`0x` or `0X` prefix) into its 16-bit token.
pub fn parse_hex_lit(tok: &str) -> (r: Token)
    requires
        tok@.len() >= 3,
        tok@[0] == '0',
        tok@[1] == 'x' || tok@[1] == 'X',
        forall|i: int| 2 <= i < tok@.len() ==> is_hex_digit(#[trigger] tok@[i]),
        hex_value(tok@.skip(2)) <= 0xFFFF,
    ensures
        r == Token::Lit(hex_value(tok@.skip(2)) as u16),
{
    let len = tok.unicode_len();
    let ghost digits = tok@.skip(2);
    let mut i: usize = 2;
    let mut acc: u32 = 0;
    proof {
        assert(digits.take(0) =~= Seq::<char>::empty());
    }
    while i < len
        invariant
            len == tok@.len(),
            2 <= i <= len,
            digits == tok@.skip(2),
            forall|j: int| 0 <= j < digits.len() ==> is_hex_digit(#[trigger] digits[j]),
            hex_value(digits) <= 0xFFFF,
            acc == hex_value(digits.take(i - 2)),
        decreases len - i,
    {
        let c = tok.get_char(i);
        proof {
            assert(digits[i - 2] == tok@[i as int]);
            lemma_hex_value_prefix_le(digits, i - 2 + 1);
            lemma_hex_value_nonneg(digits.take(i - 2));
            assert(digits.take(i - 2 + 1).drop_last() =~= digits.take(i - 2));
            assert(digits.take(i - 2 + 1).last() == digits[i - 2]);
        }
        let v = c as u32;
        let d: u32 = if v >= 97 {
            v - 87
        } else if v >= 65 {
            v - 55
        } else {
            v - 48
        };
        acc = acc * 16 + d;
        i += 1;
    }
    proof {
        assert(digits.take(len - 2) =~= digits);
    }
    Token::Lit(acc as u16)
}

} // verus!
