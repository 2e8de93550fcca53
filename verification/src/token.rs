//! Tokens and keywords of the small source language.

use vstd::prelude::*;

use crate::text::str_eq;

verus! {

/// One lexical token.  A floating-point literal keeps its source spelling.
#[derive(Debug, Clone, PartialEq)]
pub enum Token {
    Identifier(String),
    Keyword(Keyword),
    IntLiteral(u32),
    FloatLiteral(String),
    StringLiteral(String),
    CharLiteral(char),
    OpenParen,
    CloseParen,
    OpenBrace,
    CloseBrace,
    OpenBracket,
    CloseBracket,
    And,
    Or,
    Not,
    Semicolon,
    Comma,
    Period,
    Equals,
    EqualsEquals,
    NotEquals,
    Greater,
    Lesser,
    GreaterEq,
    LesserEq,
    Plus,
    Minus,
    Slash,
    Asterisk,
    Percent,
    PlusPlus,
    MinusMinus,
    EOF,
    Invalid(String),
}

/// A reserved word.
#[derive(Debug, Clone, Copy, PartialEq, Eq, Structural)]
pub enum Keyword {
    If,
    Else,
    For,
    While,
    Return,
    Break,
    Continue,
    In,
}

/// The keyword a word names, if any.
pub open spec fn spec_lookup(s: Seq<char>) -> Option<Keyword> {
    if s == "if"@ {
        Some(Keyword::If)
    } else if s == "else"@ {
        Some(Keyword::Else)
    } else if s == "for"@ {
        Some(Keyword::For)
    } else if s == "while"@ {
        Some(Keyword::While)
    } else if s == "return"@ {
        Some(Keyword::Return)
    } else if s == "break"@ {
        Some(Keyword::Break)
    } else if s == "continue"@ {
        Some(Keyword::Continue)
    } else if s == "in"@ {
        Some(Keyword::In)
    } else {
        None
    }
}

/// Finds the keyword a word names: exactly `spec_lookup`.
pub fn lookup(ident: &str) -> (r: Option<Keyword>)
    ensures
        r == spec_lookup(ident@),
{
    if str_eq(ident, "if") {
        Some(Keyword::If)
    } else if str_eq(ident, "else") {
        Some(Keyword::Else)
    } else if str_eq(ident, "for") {
        Some(Keyword::For)
    } else if str_eq(ident, "while") {
        Some(Keyword::While)
    } else if str_eq(ident, "return") {
        Some(Keyword::Return)
    } else if str_eq(ident, "break") {
        Some(Keyword::Break)
    } else if str_eq(ident, "continue") {
        Some(Keyword::Continue)
    } else if str_eq(ident, "in") {
        Some(Keyword::In)
    } else {
        None
    }
}

} // verus!
