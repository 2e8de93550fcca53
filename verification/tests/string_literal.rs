use superr::lexer::lex;
use superr::token::Token;

fn assert_tokens_eq(input: &str, expected: Vec<Token>) {
    assert_eq!(lex(input), expected, "Input: `{}`", input);
}


#[test]
fn test_string_literal_non_empty() {
    assert_tokens_eq("\"Qua!\"", vec![Token::StringLiteral("Qua!".to_string()), Token::EOF]);
}

#[test]
fn test_string_literal_empty() {
    assert_tokens_eq("\"\"", vec![Token::StringLiteral("".to_string()), Token::EOF]);
}

#[test]
fn string_literal_test_string_literal_non_empty() {
    assert_tokens_eq("\"Qua!\"", vec![Token::StringLiteral("Qua!".to_string()), Token::EOF]);
}

#[test]
fn string_literal_test_string_literal_empty() {
    assert_tokens_eq("\"\"", vec![Token::StringLiteral("".to_string()), Token::EOF]);
}
