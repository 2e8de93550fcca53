use superr::lexer::lex;
use superr::token::Token;

fn assert_tokens_eq(input: &str, expected: Vec<Token>) {
    assert_eq!(lex(input), expected, "Input: `{}`", input);
}


#[test]
fn test_logical_and() {
    assert_tokens_eq("&&", vec![Token::And, Token::EOF]);
}

#[test]
fn test_logical_multiple_and() {
    assert_tokens_eq("&& &&&&", vec![Token::And, Token::And, Token::And, Token::EOF]);
}

#[test]
fn test_logical_or() {
    assert_tokens_eq("||", vec![Token::Or, Token::EOF]);
}

#[test]
fn test_logical_multiple_or() {
    assert_tokens_eq("|| ||||", vec![Token::Or, Token::Or, Token::Or, Token::EOF]);
}

#[test]
fn test_logical_not() {
    assert_tokens_eq("!", vec![Token::Not, Token::EOF]);
}

#[test]
fn test_logical_multiple_not() {
    assert_tokens_eq("!!", vec![Token::Not, Token::Not, Token::EOF]);
}
