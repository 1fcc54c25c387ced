use sisa_assembler::encoding::{codify_1r, codify_2r, codify_3r};
use sisa_assembler::tokens::{parse_hex_lit, parse_int_lit, parse_reg, Token};

#[test]
fn register_spellings_parse() {
    assert_eq!(parse_reg("R0"), Token::Reg(0));
    assert_eq!(parse_reg("R5"), Token::Reg(5));
    assert_eq!(parse_reg("R7"), Token::Reg(7));
}

#[test]
fn decimal_literals_parse_signed_and_unsigned() {
    assert_eq!(parse_int_lit("0"), Token::Lit(0));
    assert_eq!(parse_int_lit("42"), Token::Lit(42));
    assert_eq!(parse_int_lit("+42"), Token::Lit(42));
    assert_eq!(parse_int_lit("32767"), Token::Lit(32767));
    assert_eq!(parse_int_lit("-1"), Token::Lit(0xFFFF));
    assert_eq!(parse_int_lit("-32768"), Token::Lit(0x8000));
}

#[test]
fn hex_literals_parse_both_prefixes_and_cases() {
    assert_eq!(parse_hex_lit("0x0"), Token::Lit(0));
    assert_eq!(parse_hex_lit("0x1F"), Token::Lit(0x1F));
    assert_eq!(parse_hex_lit("0Xffff"), Token::Lit(0xFFFF));
    assert_eq!(parse_hex_lit("0xAbCd"), Token::Lit(0xABCD));
}

#[test]
fn packed_words_decode_back_to_their_fields() {
    for ra in 0..8u8 {
        for rb in 0..8u8 {
            let w = codify_3r(0x1, ra, rb, 7 - ra, ra % 8);
            assert_eq!(w >> 12, 0x1);
            assert_eq!((w >> 9) & 0x7, ra as u16);
            assert_eq!((w >> 6) & 0x7, rb as u16);
            assert_eq!((w >> 3) & 0x7, (7 - ra) as u16);
            assert_eq!(w & 0x7, (ra % 8) as u16);
        }
    }
    for n in 0..64u8 {
        let w = codify_2r(0x3, 2, 5, n);
        assert_eq!(w >> 12, 0x3);
        assert_eq!((w >> 9) & 0x7, 2);
        assert_eq!((w >> 6) & 0x7, 5);
        assert_eq!(w & 0x3F, n as u16);
    }
    for n in [0u8, 1, 0x7F, 0x80, 0xFF] {
        let w = codify_1r(0x9, 6, true, n);
        assert_eq!(w >> 12, 0x9);
        assert_eq!((w >> 9) & 0x7, 6);
        assert_eq!((w >> 8) & 0x1, 1);
        assert_eq!(w & 0xFF, n as u16);
        let w0 = codify_1r(0x9, 6, false, n);
        assert_eq!((w0 >> 8) & 0x1, 0);
    }
}
