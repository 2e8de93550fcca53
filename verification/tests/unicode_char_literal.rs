use superr::lexer::lex;
use superr::token::Token;

fn assert_tokens_eq(input: &str, expected: Vec<Token>) {
    assert_eq!(lex(input), expected, "Input: `{}`", input);
}


#[test]
fn test_unicode_char_literal_ascii_uppercase_a() {
    assert_tokens_eq("'\\u{0041}'", vec![Token::CharLiteral('A'), Token::EOF]);
}

#[test]
fn test_unicode_char_literal_ascii_uppercase_b() {
    assert_tokens_eq("'\\u{0042}'", vec![Token::CharLiteral('B'), Token::EOF]);
}

#[test]
fn test_unicode_char_literal_ascii_uppercase_c() {
    assert_tokens_eq("'\\u{0043}'", vec![Token::CharLiteral('C'), Token::EOF]);
}

#[test]
fn test_unicode_char_literal_ascii_uppercase_d() {
    assert_tokens_eq("'\\u{0044}'", vec![Token::CharLiteral('D'), Token::EOF]);
}

#[test]
fn test_unicode_char_literal_ascii_uppercase_e() {
    assert_tokens_eq("'\\u{0045}'", vec![Token::CharLiteral('E'), Token::EOF]);
}

#[test]
fn test_unicode_char_literal_ascii_uppercase_j() {
    assert_tokens_eq("'\\u{004a}'", vec![Token::CharLiteral('J'), Token::EOF]);
}

#[test]
fn test_unicode_char_literal_cyrillic_capital_ka() {
    assert_tokens_eq("'\\u{041a}'", vec![Token::CharLiteral('\u{041a}'), Token::EOF]);
}

#[test]
fn test_unicode_char_literal_hryvnia_sign() {
    assert_tokens_eq("'\\u{20B4}'", vec![Token::CharLiteral('\u{20B4}'), Token::EOF]);
}

#[test]
fn test_unicode_char_literal_grinning_face() {
    assert_tokens_eq("'\\u{1F600}'", vec![Token::CharLiteral('\u{1F600}'), Token::EOF]);
}

#[test]
fn test_unicode_char_literal_max_unicode() {
    assert_tokens_eq("'\\u{10FFFF}'", vec![Token::CharLiteral(char::from_u32(0x10FFFF).unwrap()), Token::EOF]);
}

#[test]
fn test_unicode_char_literal_zero() {
    assert_tokens_eq("'\\u{0}'", vec![Token::CharLiteral(char::from_u32(0x0).unwrap()), Token::EOF]);
}

#[test]
fn test_unicode_char_literal_hex_f() {
    assert_tokens_eq("'\\u{F}'", vec![Token::CharLiteral(char::from_u32(0xF).unwrap()), Token::EOF]);
}

#[test]
fn test_unicode_char_literal_hex_ff() {
    assert_tokens_eq("'\\u{FF}'", vec![Token::CharLiteral(char::from_u32(0xFF).unwrap()), Token::EOF]);
}

#[test]
fn test_unicode_char_literal_hex_fff() {
    assert_tokens_eq("'\\u{FFF}'", vec![Token::CharLiteral(char::from_u32(0xFFF).unwrap()), Token::EOF]);
}

#[test]
fn test_unicode_char_literal_hex_ffff() {
    assert_tokens_eq("'\\u{FFFF}'", vec![Token::CharLiteral(char::from_u32(0xFFFF).unwrap()), Token::EOF]);
}

#[test]
fn test_unicode_char_literal_hex_fffff() {
    assert_tokens_eq("'\\u{FFFFF}'", vec![Token::CharLiteral(char::from_u32(0xFFFFF).unwrap()), Token::EOF]);
}

#[test]
fn test_unicode_char_literal_hex_10ffff() {
    assert_tokens_eq("'\\u{10FFFF}'", vec![Token::CharLiteral(char::from_u32(0x10FFFF).unwrap()), Token::EOF]);
}

#[test]
fn test_unicode_char_literal_hex_000000() {
    assert_tokens_eq("'\\u{000000}'", vec![Token::CharLiteral(char::from_u32(0x000000).unwrap()), Token::EOF]);
}

#[test]
fn test_unicode_char_literal_hex_00000f() {
    assert_tokens_eq("'\\u{00000F}'", vec![Token::CharLiteral(char::from_u32(0x00000F).unwrap()), Token::EOF]);
}

#[test]
fn test_unicode_char_literal_hex_0000ff() {
    assert_tokens_eq("'\\u{0000FF}'", vec![Token::CharLiteral(char::from_u32(0x0000FF).unwrap()), Token::EOF]);
}

#[test]
fn test_unicode_char_literal_hex_000fff() {
    assert_tokens_eq("'\\u{000FFF}'", vec![Token::CharLiteral(char::from_u32(0x000FFF).unwrap()), Token::EOF]);
}

#[test]
fn test_unicode_char_literal_hex_00ffff() {
    assert_tokens_eq("'\\u{00FFFF}'", vec![Token::CharLiteral(char::from_u32(0x00FFFF).unwrap()), Token::EOF]);
}

#[test]
fn test_unicode_char_literal_hex_0fffff() {
    assert_tokens_eq("'\\u{0FFFFF}'", vec![Token::CharLiteral(char::from_u32(0x0FFFFF).unwrap()), Token::EOF]);
}
