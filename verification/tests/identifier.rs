use superr::lexer::lex;
use superr::token::Token;

fn assert_tokens_eq(input: &str, expected: Vec<Token>) {
    assert_eq!(lex(input), expected, "Input: `{}`", input);
}

fn assert_tokens_ne(input: &str, expected: Vec<Token>) {
    assert_ne!(lex(input), expected, "Input: `{}`", input);
}

#[test]
fn test_identifier_alphabetic() {
    assert_tokens_eq("qua", vec![Token::Identifier("qua".to_string()), Token::EOF]);
    assert_tokens_eq("Qua", vec![Token::Identifier("Qua".to_string()), Token::EOF]);
    assert_tokens_eq("x", vec![Token::Identifier("x".to_string()), Token::EOF]);
}

#[test]
fn test_identifier_alphanumeric() {
    assert_tokens_eq("qua0", vec![Token::Identifier("qua0".to_string()), Token::EOF]);
    assert_tokens_eq("qua3", vec![Token::Identifier("qua3".to_string()), Token::EOF]);
    assert_tokens_eq("qua999999999999", vec![Token::Identifier("qua999999999999".to_string()), Token::EOF]);
}

#[test]
fn test_identifier_underscore() {
    assert_tokens_eq("x_", vec![Token::Identifier("x_".to_string()), Token::EOF]);
    assert_tokens_eq("_x", vec![Token::Identifier("_x".to_string()), Token::EOF]);
    assert_tokens_eq("____________________Qua_", vec![Token::Identifier("____________________Qua_".to_string()), Token::EOF]);
}

#[test]
fn test_identifier_invalid_start_digit() {
    assert_tokens_ne("0qua", vec![Token::Identifier("0qua".to_string()), Token::EOF]);
    assert_tokens_ne("3qua", vec![Token::Identifier("3qua".to_string()), Token::EOF]);
    assert_tokens_ne("999999999999qua", vec![Token::Identifier("999999999999qua".to_string()), Token::EOF]);
}

#[test]
fn test_identifier_invalid_chars() {
    assert_tokens_ne("____________________Qua!_", vec![Token::Identifier("____________________Qua!_".to_string()), Token::EOF]);
    assert_tokens_ne("!Qua__", vec![Token::Identifier("!Qua__".to_string()), Token::EOF]);
    assert_tokens_ne("*qua", vec![Token::Identifier("*qua".to_string()), Token::EOF]);
}

#[test]
fn test_identifier_valid_names() {
    assert_tokens_eq("print", vec![Token::Identifier("print".to_string()), Token::EOF]);
    assert_tokens_eq("range", vec![Token::Identifier("range".to_string()), Token::EOF]);
}
