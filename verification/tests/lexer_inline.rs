use superr::lexer::lex;
use superr::token::{Keyword, Token};

fn assert_tokens_eq(input: &str, expected: Vec<Token>) {
    assert_eq!(lex(input), expected, "Input: `{}`", input);
}

fn assert_tokens_ne(input: &str, expected: Vec<Token>) {
    assert_ne!(lex(input), expected, "Input: `{}`", input);
}

fn assert_identifier_correct_lexing_eq(input: &str) {
    assert_tokens_eq(
        input,
        vec![Token::Identifier(input.to_string()), Token::EOF],
    );
}

fn assert_identifier_correct_lexing_ne(input: &str) {
    assert_tokens_ne(
        input,
        vec![Token::Identifier(input.to_string()), Token::EOF],
    );
}

fn assert_unicode_char_literal_properly_decoded(input: &str, expected_value: u32) {
    assert_tokens_eq(
        input,
        vec![
            Token::CharLiteral(char::from_u32(expected_value).unwrap()),
            Token::EOF,
        ],
    );
}

#[test]
fn test_identifiers() {
    assert_identifier_correct_lexing_eq("qua");
    assert_identifier_correct_lexing_eq("Qua");
    assert_identifier_correct_lexing_eq("x");
    assert_identifier_correct_lexing_eq("x_");
    assert_identifier_correct_lexing_eq("_x");
    assert_identifier_correct_lexing_eq("____________________Qua_");

    assert_identifier_correct_lexing_ne("____________________Qua!_");
    assert_identifier_correct_lexing_ne("!Qua__");
    assert_identifier_correct_lexing_ne("*qua");

    assert_identifier_correct_lexing_eq("print");
    assert_identifier_correct_lexing_eq("range");
}

#[test]
fn test_keyword() {
    assert_tokens_eq("if", vec![Token::Keyword(Keyword::If), Token::EOF]);
    assert_tokens_eq("else", vec![Token::Keyword(Keyword::Else), Token::EOF]);
    assert_tokens_eq("for", vec![Token::Keyword(Keyword::For), Token::EOF]);
    assert_tokens_eq("while", vec![Token::Keyword(Keyword::While), Token::EOF]);
    assert_tokens_eq("return", vec![Token::Keyword(Keyword::Return), Token::EOF]);
    assert_tokens_eq("break", vec![Token::Keyword(Keyword::Break), Token::EOF]);
    assert_tokens_eq("continue", vec![Token::Keyword(Keyword::Continue), Token::EOF]);
    assert_tokens_eq("in", vec![Token::Keyword(Keyword::In), Token::EOF]);
}

#[test]
fn test_int_literal() {
    assert_tokens_eq("0", vec![Token::IntLiteral(0), Token::EOF]);
    assert_tokens_eq("1", vec![Token::IntLiteral(1), Token::EOF]);
    assert_tokens_eq("123", vec![Token::IntLiteral(123), Token::EOF]);
    assert_tokens_eq("4294967294", vec![Token::IntLiteral(4294967294), Token::EOF]);
    assert_tokens_eq("4294967295", vec![Token::IntLiteral(4294967295), Token::EOF]);
}

#[test]
fn test_string_literal() {
    assert_tokens_eq(
        "\"Qua!\"",
        vec![Token::StringLiteral("Qua!".to_string()), Token::EOF],
    );
    assert_tokens_eq(
        "\"\"",
        vec![Token::StringLiteral("".to_string()), Token::EOF],
    );
}

#[test]
fn test_char_literal() {
    assert_tokens_eq("'a'", vec![Token::CharLiteral('a'), Token::EOF]);
    assert_tokens_ne("a'", vec![Token::CharLiteral('a'), Token::EOF]);
    assert_tokens_ne("'a", vec![Token::CharLiteral('a'), Token::EOF]);
    assert_tokens_ne("a", vec![Token::CharLiteral('a'), Token::EOF]);

    assert_tokens_eq("'4'", vec![Token::CharLiteral('4'), Token::EOF]);
    assert_tokens_ne("4'", vec![Token::CharLiteral('4'), Token::EOF]);
    assert_tokens_ne("'4", vec![Token::CharLiteral('4'), Token::EOF]);
    assert_tokens_ne("4", vec![Token::CharLiteral('4'), Token::EOF]);
}

#[test]
fn test_char_literal_unicode() {
    assert_tokens_eq("'\\u{0041}'", vec![Token::CharLiteral('A'), Token::EOF]);
    assert_tokens_eq("'\\u{0042}'", vec![Token::CharLiteral('B'), Token::EOF]);
    assert_tokens_eq("'\\u{0043}'", vec![Token::CharLiteral('C'), Token::EOF]);
    assert_tokens_eq("'\\u{0044}'", vec![Token::CharLiteral('D'), Token::EOF]);
    assert_tokens_eq("'\\u{0045}'", vec![Token::CharLiteral('E'), Token::EOF]);
    assert_tokens_eq("'\\u{004a}'", vec![Token::CharLiteral('J'), Token::EOF]);
    assert_tokens_eq("'\\u{041a}'", vec![Token::CharLiteral('\u{041a}'), Token::EOF]);
    assert_tokens_eq("'\\u{20B4}'", vec![Token::CharLiteral('\u{20B4}'), Token::EOF]);
    assert_tokens_eq("'\\u{1F600}'", vec![Token::CharLiteral('\u{1F600}'), Token::EOF]);

    assert_unicode_char_literal_properly_decoded("'\\u{10FFFF}'", 0x10FFFF);
    assert_unicode_char_literal_properly_decoded("'\\u{0}'", 0x0);
    assert_unicode_char_literal_properly_decoded("'\\u{F}'", 0xF);
    assert_unicode_char_literal_properly_decoded("'\\u{FF}'", 0xFF);
    assert_unicode_char_literal_properly_decoded("'\\u{FFF}'", 0xFFF);
    assert_unicode_char_literal_properly_decoded("'\\u{FFFF}'", 0xFFFF);
    assert_unicode_char_literal_properly_decoded("'\\u{FFFFF}'", 0xFFFFF);
    assert_unicode_char_literal_properly_decoded("'\\u{10FFFF}'", 0x10FFFF);
    assert_unicode_char_literal_properly_decoded("'\\u{000000}'", 0x000000);
    assert_unicode_char_literal_properly_decoded("'\\u{00000F}'", 0x00000F);
    assert_unicode_char_literal_properly_decoded("'\\u{0000FF}'", 0x0000FF);
    assert_unicode_char_literal_properly_decoded("'\\u{000FFF}'", 0x000FFF);
    assert_unicode_char_literal_properly_decoded("'\\u{00FFFF}'", 0x00FFFF);
    assert_unicode_char_literal_properly_decoded("'\\u{0FFFFF}'", 0x0FFFFF);
    assert_unicode_char_literal_properly_decoded("'\\u{10FFFF}'", 0x10FFFF);
}

#[test]
fn test_delimiters() {
    assert_tokens_eq("(", vec![Token::OpenParen, Token::EOF]);
    assert_tokens_eq(")", vec![Token::CloseParen, Token::EOF]);

    assert_tokens_eq("()", vec![Token::OpenParen, Token::CloseParen, Token::EOF]);
    assert_tokens_eq(
        "(())",
        vec![
            Token::OpenParen,
            Token::OpenParen,
            Token::CloseParen,
            Token::CloseParen,
            Token::EOF,
        ],
    );
    assert_tokens_eq(
        "(()",
        vec![
            Token::OpenParen,
            Token::OpenParen,
            Token::CloseParen,
            Token::EOF,
        ],
    );

    assert_tokens_eq("{", vec![Token::OpenBrace, Token::EOF]);
    assert_tokens_eq("}", vec![Token::CloseBrace, Token::EOF]);

    assert_tokens_eq("{}", vec![Token::OpenBrace, Token::CloseBrace, Token::EOF]);
    assert_tokens_eq(
        "{{}}",
        vec![
            Token::OpenBrace,
            Token::OpenBrace,
            Token::CloseBrace,
            Token::CloseBrace,
            Token::EOF,
        ],
    );
    assert_tokens_eq(
        "{{}",
        vec![
            Token::OpenBrace,
            Token::OpenBrace,
            Token::CloseBrace,
            Token::EOF,
        ],
    );

    assert_tokens_eq("[", vec![Token::OpenBracket, Token::EOF]);
    assert_tokens_eq("]", vec![Token::CloseBracket, Token::EOF]);

    assert_tokens_eq("[]", vec![Token::OpenBracket, Token::CloseBracket, Token::EOF]);
    assert_tokens_eq(
        "[[]]",
        vec![
            Token::OpenBracket,
            Token::OpenBracket,
            Token::CloseBracket,
            Token::CloseBracket,
            Token::EOF,
        ],
    );
    assert_tokens_eq(
        "[[]",
        vec![
            Token::OpenBracket,
            Token::OpenBracket,
            Token::CloseBracket,
            Token::EOF,
        ],
    );
}

#[test]
fn test_logical_operators() {
    assert_tokens_eq("&&", vec![Token::And, Token::EOF]);
    assert_tokens_eq(
        "&& &&&&",
        vec![Token::And, Token::And, Token::And, Token::EOF],
    );

    assert_tokens_eq("||", vec![Token::Or, Token::EOF]);
    assert_tokens_eq("|| ||||", vec![Token::Or, Token::Or, Token::Or, Token::EOF]);

    assert_tokens_eq("!", vec![Token::Not, Token::EOF]);
    assert_tokens_eq("!!", vec![Token::Not, Token::Not, Token::EOF]);
}

#[test]
fn test_punctuation() {
    assert_tokens_eq(";", vec![Token::Semicolon, Token::EOF]);
    assert_tokens_eq(
        ";; ;",
        vec![
            Token::Semicolon,
            Token::Semicolon,
            Token::Semicolon,
            Token::EOF,
        ],
    );

    assert_tokens_eq(",", vec![Token::Comma, Token::EOF]);
    assert_tokens_eq(
        ",, ,",
        vec![Token::Comma, Token::Comma, Token::Comma, Token::EOF],
    );

    assert_tokens_eq(".", vec![Token::Period, Token::EOF]);
    assert_tokens_eq(
        ".. .",
        vec![Token::Period, Token::Period, Token::Period, Token::EOF],
    );
}

#[test]
fn test_math() {
    assert_tokens_eq("=", vec![Token::Equals, Token::EOF]);
    assert_tokens_eq("= =", vec![Token::Equals, Token::Equals, Token::EOF]);

    assert_tokens_eq("==", vec![Token::EqualsEquals, Token::EOF]);

    assert_tokens_eq("!=", vec![Token::NotEquals, Token::EOF]);

    assert_tokens_eq(">", vec![Token::Greater, Token::EOF]);

    assert_tokens_eq("<", vec![Token::Lesser, Token::EOF]);

    assert_tokens_eq(">=", vec![Token::GreaterEq, Token::EOF]);

    assert_tokens_eq("<=", vec![Token::LesserEq, Token::EOF]);

    assert_tokens_eq("+", vec![Token::Plus, Token::EOF]);
    assert_tokens_eq("++", vec![Token::PlusPlus, Token::EOF]);
    assert_tokens_eq("++ +", vec![Token::PlusPlus, Token::Plus, Token::EOF]);
    assert_tokens_eq("+ ++", vec![Token::Plus, Token::PlusPlus, Token::EOF]);

    assert_tokens_eq("-", vec![Token::Minus, Token::EOF]);
    assert_tokens_eq("--", vec![Token::MinusMinus, Token::EOF]);
    assert_tokens_eq("-- -", vec![Token::MinusMinus, Token::Minus, Token::EOF]);
    assert_tokens_eq("- --", vec![Token::Minus, Token::MinusMinus, Token::EOF]);

    assert_tokens_eq("/", vec![Token::Slash, Token::EOF]);
    assert_tokens_eq("/ /", vec![Token::Slash, Token::Slash, Token::EOF]);

    assert_tokens_eq("*", vec![Token::Asterisk, Token::EOF]);
    assert_tokens_eq(
        "* **",
        vec![
            Token::Asterisk,
            Token::Asterisk,
            Token::Asterisk,
            Token::EOF,
        ],
    );

    assert_tokens_eq("%", vec![Token::Percent, Token::EOF]);
    assert_tokens_eq(
        "%% %",
        vec![Token::Percent, Token::Percent, Token::Percent, Token::EOF],
    );
}

#[test]
fn test_comments() {
    assert_tokens_eq("//", vec![Token::EOF]);
    assert_tokens_eq("//hello, world!", vec![Token::EOF]);
    assert_tokens_eq("// hello, world!", vec![Token::EOF]);
    assert_tokens_eq(
        "// hello, world!\nint a = 0;",
        vec![
            Token::Identifier("int".to_string()),
            Token::Identifier("a".to_string()),
            Token::Equals,
            Token::IntLiteral(0),
            Token::Semicolon,
            Token::EOF,
        ],
    );
    assert_tokens_eq(
        "// Qua!\nint a = 0;// this creates a variable named int",
        vec![
            Token::Identifier("int".to_string()),
            Token::Identifier("a".to_string()),
            Token::Equals,
            Token::IntLiteral(0),
            Token::Semicolon,
            Token::EOF,
        ],
    );
}
