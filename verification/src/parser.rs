//! The recursive-descent parser of the small source language.
//!
//! Every parsing function keeps the cursor inside the token list, never
//! moves it backwards, and consumes at least one token whenever it
//! succeeds; parsing therefore always terminates, and a failure is always
//! reported as a `ParseError`, never a panic.

use vstd::prelude::*;

use crate::ast::{
    BinaryExpr, Expr, Function, Literal, Parameter, Program, Stmt, Type, UnaryExpr,
};
use crate::lexer::Lexer;
use crate::text::str_eq;
use crate::token::{Keyword, Token};

verus! {

/// Why a parse failed.
#[derive(Debug, Clone, PartialEq)]
pub enum ParseError {
    UnexpectedToken { expected: String, found: Token },
    UnexpectedEof,
    InvalidExpression(String),
    InvalidStatement(String),
}

/// The outcome of one parsing step.
pub type ParseResult<T> = Result<T, ParseError>;

/// The shape of a token, without its payload.
#[derive(Debug, Clone, Copy, PartialEq, Eq, Structural)]
pub enum TokenKind {
    Identifier,
    KeywordWord,
    IntLiteral,
    FloatLiteral,
    StringLiteral,
    CharLiteral,
    OpenParen,
    CloseParen,
    OpenBrace,
    CloseBrace,
    OpenBracket,
    CloseBracket,
    And,
    Or,
    Not,
    Semicolon,
    Comma,
    Period,
    Equals,
    EqualsEquals,
    NotEquals,
    Greater,
    Lesser,
    GreaterEq,
    LesserEq,
    Plus,
    Minus,
    Slash,
    Asterisk,
    Percent,
    PlusPlus,
    MinusMinus,
    EndOfFile,
    Invalid,
}

/// The shape of a token.
pub fn token_kind(t: &Token) -> TokenKind {
    match t {
        Token::Identifier(_) => TokenKind::Identifier,
        Token::Keyword(_) => TokenKind::KeywordWord,
        Token::IntLiteral(_) => TokenKind::IntLiteral,
        Token::FloatLiteral(_) => TokenKind::FloatLiteral,
        Token::StringLiteral(_) => TokenKind::StringLiteral,
        Token::CharLiteral(_) => TokenKind::CharLiteral,
        Token::OpenParen => TokenKind::OpenParen,
        Token::CloseParen => TokenKind::CloseParen,
        Token::OpenBrace => TokenKind::OpenBrace,
        Token::CloseBrace => TokenKind::CloseBrace,
        Token::OpenBracket => TokenKind::OpenBracket,
        Token::CloseBracket => TokenKind::CloseBracket,
        Token::And => TokenKind::And,
        Token::Or => TokenKind::Or,
        Token::Not => TokenKind::Not,
        Token::Semicolon => TokenKind::Semicolon,
        Token::Comma => TokenKind::Comma,
        Token::Period => TokenKind::Period,
        Token::Equals => TokenKind::Equals,
        Token::EqualsEquals => TokenKind::EqualsEquals,
        Token::NotEquals => TokenKind::NotEquals,
        Token::Greater => TokenKind::Greater,
        Token::Lesser => TokenKind::Lesser,
        Token::GreaterEq => TokenKind::GreaterEq,
        Token::LesserEq => TokenKind::LesserEq,
        Token::Plus => TokenKind::Plus,
        Token::Minus => TokenKind::Minus,
        Token::Slash => TokenKind::Slash,
        Token::Asterisk => TokenKind::Asterisk,
        Token::Percent => TokenKind::Percent,
        Token::PlusPlus => TokenKind::PlusPlus,
        Token::MinusMinus => TokenKind::MinusMinus,
        Token::EOF => TokenKind::EndOfFile,
        Token::Invalid(_) => TokenKind::Invalid,
    }
}

/// The type a name denotes; an unknown name is a custom type.
pub fn type_from_name(s: &str) -> Type {
    if str_eq(s, "int") {
        Type::Int
    } else if str_eq(s, "float") {
        Type::Float
    } else if str_eq(s, "string") {
        Type::String
    } else if str_eq(s, "char") {
        Type::Char
    } else {
        Type::Custom(s.to_owned())
    }
}

/// The parser: a cursor over a token list.
#[derive(Debug)]
pub struct Parser {
    pub tokens: Vec<Token>,
    pub pos: usize,
}

impl Parser {
    /// The cursor never leaves the token list.
    pub open spec fn wf(self) -> bool {
        self.pos <= self.tokens@.len()
    }

    /// The tokens are unchanged and the cursor did not move backwards.
    pub open spec fn advanced_from(self, other: Parser) -> bool {
        &&& self.wf()
        &&& self.tokens == other.tokens
        &&& self.pos >= other.pos
    }

    /// Creates a parser by draining a lexer.
    #[verifier::loop_isolation(false)]
    pub fn new(lexer: Lexer) -> (r: Parser)
        requires
            lexer.wf(),
        ensures
            r.wf(),
    {
        let mut lexer = lexer;
        let mut tokens: Vec<Token> = Vec::new();
        let ghost total = lexer.chars@.len();
        loop
            invariant
                lexer.wf(),
                lexer.chars@.len() == total,
            decreases total - lexer.pos,
        {
            let token = lexer.next_token();
            match token {
                Token::EOF => {
                    break ;
                },
                _ => {
                    tokens.push(token);
                },
            }
        }
        tokens.push(Token::EOF);
        Parser { tokens, pos: 0 }
    }

    /// The shape of the token at the cursor; past the end it reads as the
    /// end of the input.
    pub fn current_kind(&self) -> (r: TokenKind)
        requires
            self.wf(),
        ensures
            r != TokenKind::EndOfFile ==> self.pos < self.tokens@.len(),
            self.tokens@.len() <= usize::MAX,
    {
        if self.pos < self.tokens.len() {
            token_kind(&self.tokens[self.pos])
        } else {
            TokenKind::EndOfFile
        }
    }

    /// The shape of the token after the cursor.
    pub fn peek_kind(&self) -> TokenKind
        requires
            self.wf(),
    {
        if self.tokens.len() - self.pos > 1 {
            token_kind(&self.tokens[self.pos + 1])
        } else {
            TokenKind::EndOfFile
        }
    }

    /// The error for an unexpected token at the cursor.
    fn unexpected(&self, expected: &str) -> ParseError
        requires
            self.wf(),
    {
        let found = if self.pos < self.tokens.len() {
            self.tokens[self.pos].clone()
        } else {
            Token::EOF
        };
        ParseError::UnexpectedToken { expected: expected.to_owned(), found }
    }

    /// Consumes the token at the cursor if it has the wanted shape.
    fn expect_kind(&mut self, kind: TokenKind, expected: &str) -> (r: ParseResult<()>)
        requires
            old(self).wf(),
        ensures
            final(self).advanced_from(*old(self)),
            r is Ok ==> final(self).pos == old(self).pos + 1,
            r is Err ==> final(self).pos == old(self).pos,
    {
        if self.pos < self.tokens.len() && token_kind(&self.tokens[self.pos]) == kind {
            self.pos = self.pos + 1;
            Ok(())
        } else {
            Err(self.unexpected(expected))
        }
    }

    /// Whether the cursor is at a type name (`int`, `float`, `string`,
    /// `char`).
    fn current_is_type(&self) -> (r: bool)
        requires
            self.wf(),
        ensures
            r ==> self.pos < self.tokens@.len(),
            self.tokens@.len() <= usize::MAX,
    {
        if self.pos < self.tokens.len() {
            match &self.tokens[self.pos] {
                Token::Identifier(name) => str_eq(name.as_str(), "int") || str_eq(
                    name.as_str(),
                    "float",
                ) || str_eq(name.as_str(), "string") || str_eq(name.as_str(), "char"),
                _ => false,
            }
        } else {
            false
        }
    }

    /// Whether the cursor is at the given keyword.
    fn current_is_keyword(&self, k: Keyword) -> (r: bool)
        requires
            self.wf(),
        ensures
            r ==> self.pos < self.tokens@.len(),
            self.tokens@.len() <= usize::MAX,
    {
        if self.pos < self.tokens.len() {
            match &self.tokens[self.pos] {
                Token::Keyword(kw) => *kw == k,
                _ => false,
            }
        } else {
            false
        }
    }

    /// Reads the identifier at the cursor and consumes it.
    fn take_identifier(&mut self, expected: &str) -> (r: ParseResult<String>)
        requires
            old(self).wf(),
        ensures
            final(self).advanced_from(*old(self)),
            r is Ok ==> final(self).pos == old(self).pos + 1,
    {
        if self.pos < self.tokens.len() {
            match &self.tokens[self.pos] {
                Token::Identifier(name) => {
                    let s = name.clone();
                    self.pos = self.pos + 1;
                    Ok(s)
                },
                _ => Err(self.unexpected(expected)),
            }
        } else {
            Err(self.unexpected(expected))
        }
    }

    /// Whether the parser has consumed the whole input.
    pub fn is_at_end(&self) -> bool
        requires
            self.wf(),
    {
        self.current_kind() == TokenKind::EndOfFile
    }

    /// Parses a whole program: functions until the end of the input.
    #[verifier::loop_isolation(false)]
    pub fn parse_program(&mut self) -> (r: ParseResult<Program>)
        requires
            old(self).wf(),
        ensures
            final(self).advanced_from(*old(self)),
        decreases old(self).tokens@.len() - old(self).pos, 13int,
    {
        let mut functions: Vec<Function> = Vec::new();
        while !self.is_at_end()
            invariant
                self.advanced_from(*old(self)),
            decreases self.tokens@.len() - self.pos,
        {
            match self.parse_function() {
                Ok(f) => {
                    functions.push(f);
                },
                Err(e) => {
                    return Err(e);
                },
            }
        }
        Ok(Program { functions })
    }

    /// Parses one function: an optional return type, a name, a parameter
    /// list and a body.
    #[verifier::loop_isolation(false)]
    fn parse_function(&mut self) -> (r: ParseResult<Function>)
        requires
            old(self).wf(),
        ensures
            final(self).advanced_from(*old(self)),
            r is Ok ==> final(self).pos > old(self).pos,
        decreases old(self).tokens@.len() - old(self).pos, 12int,
    {
        let return_type = if self.current_is_type() {
            match self.take_identifier("type") {
                Ok(name) => Some(type_from_name(name.as_str())),
                Err(e) => {
                    return Err(e);
                },
            }
        } else {
            None
        };
        let name = match self.take_identifier("function name") {
            Ok(n) => n,
            Err(e) => {
                return Err(e);
            },
        };
        match self.expect_kind(TokenKind::OpenParen, "an opening parenthesis") {
            Ok(()) => (),
            Err(e) => {
                return Err(e);
            },
        }
        let mut parameters: Vec<Parameter> = Vec::new();
        if self.current_kind() != TokenKind::CloseParen {
            loop
                invariant
                    self.wf(),
                    self.tokens == old(self).tokens,
                    self.pos > old(self).pos,
                decreases self.tokens@.len() - self.pos,
            {
                match self.parse_parameter() {
                    Ok(p) => {
                        parameters.push(p);
                    },
                    Err(e) => {
                        return Err(e);
                    },
                }
                if self.current_kind() == TokenKind::Comma {
                    self.pos = self.pos + 1;
                } else {
                    break ;
                }
            }
        }
        match self.expect_kind(TokenKind::CloseParen, "a closing parenthesis") {
            Ok(()) => (),
            Err(e) => {
                return Err(e);
            },
        }
        let body = match self.parse_statement() {
            Ok(b) => b,
            Err(e) => {
                return Err(e);
            },
        };
        Ok(Function { name, parameters, return_type, body })
    }

    /// Parses one parameter: a type and a name.
    fn parse_parameter(&mut self) -> (r: ParseResult<Parameter>)
        requires
            old(self).wf(),
        ensures
            final(self).advanced_from(*old(self)),
            r is Ok ==> final(self).pos > old(self).pos,
        decreases old(self).tokens@.len() - old(self).pos, 12int,
    {
        if !self.current_is_type() {
            return Err(self.unexpected("type"));
        }
        let ty = match self.take_identifier("type") {
            Ok(name) => type_from_name(name.as_str()),
            Err(e) => {
                return Err(e);
            },
        };
        let name = match self.take_identifier("parameter name") {
            Ok(n) => n,
            Err(e) => {
                return Err(e);
            },
        };
        Ok(Parameter { name, ty })
    }

    /// Parses one statement, dispatching on the token at the cursor.
    pub fn parse_statement(&mut self) -> (r: ParseResult<Stmt>)
        requires
            old(self).wf(),
        ensures
            final(self).advanced_from(*old(self)),
            r is Ok ==> final(self).pos > old(self).pos,
        decreases old(self).tokens@.len() - old(self).pos, 11int,
    {
        if self.current_kind() == TokenKind::OpenBrace {
            self.parse_block_statement()
        } else if self.current_is_keyword(Keyword::Return) {
            self.parse_return_statement()
        } else if self.current_is_keyword(Keyword::If) {
            self.parse_if_statement()
        } else if self.current_is_keyword(Keyword::While) {
            self.parse_while_statement()
        } else if self.current_is_keyword(Keyword::For) {
            self.parse_for_statement()
        } else if self.current_is_keyword(Keyword::Break) {
            self.pos = self.pos + 1;
            match self.expect_kind(TokenKind::Semicolon, "a semicolon") {
                Ok(()) => Ok(Stmt::Break),
                Err(e) => Err(e),
            }
        } else if self.current_is_keyword(Keyword::Continue) {
            self.pos = self.pos + 1;
            match self.expect_kind(TokenKind::Semicolon, "a semicolon") {
                Ok(()) => Ok(Stmt::Continue),
                Err(e) => Err(e),
            }
        } else if self.current_is_type() && self.peek_kind() == TokenKind::Identifier {
            self.parse_var_declaration()
        } else if self.current_kind() == TokenKind::Identifier && self.peek_kind()
            == TokenKind::Equals {
            self.parse_assignment()
        } else {
            let expr = match self.parse_expression() {
                Ok(e) => e,
                Err(e) => {
                    return Err(e);
                },
            };
            match self.expect_kind(TokenKind::Semicolon, "a semicolon") {
                Ok(()) => Ok(Stmt::Expression(expr)),
                Err(e) => Err(e),
            }
        }
    }

    /// Parses a brace-delimited block of statements.
    #[verifier::loop_isolation(false)]
    fn parse_block_statement(&mut self) -> (r: ParseResult<Stmt>)
        requires
            old(self).wf(),
        ensures
            final(self).advanced_from(*old(self)),
            r is Ok ==> final(self).pos > old(self).pos,
        decreases old(self).tokens@.len() - old(self).pos, 10int,
    {
        match self.expect_kind(TokenKind::OpenBrace, "an opening brace") {
            Ok(()) => (),
            Err(e) => {
                return Err(e);
            },
        }
        let mut statements: Vec<Stmt> = Vec::new();
        while self.current_kind() != TokenKind::CloseBrace && !self.is_at_end()
            invariant
                self.wf(),
                self.tokens == old(self).tokens,
                self.pos > old(self).pos,
            decreases self.tokens@.len() - self.pos,
        {
            match self.parse_statement() {
                Ok(s) => {
                    statements.push(s);
                },
                Err(e) => {
                    return Err(e);
                },
            }
        }
        match self.expect_kind(TokenKind::CloseBrace, "a closing brace") {
            Ok(()) => Ok(Stmt::Block(statements)),
            Err(e) => Err(e),
        }
    }

    /// Parses `return [expression];`.
    fn parse_return_statement(&mut self) -> (r: ParseResult<Stmt>)
        requires
            old(self).wf(),
            old(self).pos < old(self).tokens@.len(),
        ensures
            final(self).advanced_from(*old(self)),
            r is Ok ==> final(self).pos > old(self).pos,
        decreases old(self).tokens@.len() - old(self).pos, 10int,
    {
        let n = self.tokens.len();
        self.pos = self.pos + 1;
        let expr = if self.current_kind() == TokenKind::Semicolon {
            None
        } else {
            match self.parse_expression() {
                Ok(e) => Some(e),
                Err(e) => {
                    return Err(e);
                },
            }
        };
        match self.expect_kind(TokenKind::Semicolon, "a semicolon") {
            Ok(()) => Ok(Stmt::Return(expr)),
            Err(e) => Err(e),
        }
    }

    /// Parses `if (condition) statement [else statement]`.
    fn parse_if_statement(&mut self) -> (r: ParseResult<Stmt>)
        requires
            old(self).wf(),
            old(self).pos < old(self).tokens@.len(),
        ensures
            final(self).advanced_from(*old(self)),
            r is Ok ==> final(self).pos > old(self).pos,
        decreases old(self).tokens@.len() - old(self).pos, 10int,
    {
        let n = self.tokens.len();
        self.pos = self.pos + 1;
        match self.expect_kind(TokenKind::OpenParen, "an opening parenthesis") {
            Ok(()) => (),
            Err(e) => {
                return Err(e);
            },
        }
        let condition = match self.parse_expression() {
            Ok(e) => e,
            Err(e) => {
                return Err(e);
            },
        };
        match self.expect_kind(TokenKind::CloseParen, "a closing parenthesis") {
            Ok(()) => (),
            Err(e) => {
                return Err(e);
            },
        }
        let then_branch = match self.parse_statement() {
            Ok(s) => Box::new(s),
            Err(e) => {
                return Err(e);
            },
        };
        let else_branch = if self.current_is_keyword(Keyword::Else) {
            self.pos = self.pos + 1;
            match self.parse_statement() {
                Ok(s) => Some(Box::new(s)),
                Err(e) => {
                    return Err(e);
                },
            }
        } else {
            None
        };
        Ok(Stmt::If { condition, then_branch, else_branch })
    }

    /// Parses `while (condition) statement`.
    fn parse_while_statement(&mut self) -> (r: ParseResult<Stmt>)
        requires
            old(self).wf(),
            old(self).pos < old(self).tokens@.len(),
        ensures
            final(self).advanced_from(*old(self)),
            r is Ok ==> final(self).pos > old(self).pos,
        decreases old(self).tokens@.len() - old(self).pos, 10int,
    {
        let n = self.tokens.len();
        self.pos = self.pos + 1;
        match self.expect_kind(TokenKind::OpenParen, "an opening parenthesis") {
            Ok(()) => (),
            Err(e) => {
                return Err(e);
            },
        }
        let condition = match self.parse_expression() {
            Ok(e) => e,
            Err(e) => {
                return Err(e);
            },
        };
        match self.expect_kind(TokenKind::CloseParen, "a closing parenthesis") {
            Ok(()) => (),
            Err(e) => {
                return Err(e);
            },
        }
        match self.parse_statement() {
            Ok(s) => Ok(Stmt::While { condition, body: Box::new(s) }),
            Err(e) => Err(e),
        }
    }

    /// Parses `for ([type] name in iterable) statement`.
    fn parse_for_statement(&mut self) -> (r: ParseResult<Stmt>)
        requires
            old(self).wf(),
            old(self).pos < old(self).tokens@.len(),
        ensures
            final(self).advanced_from(*old(self)),
            r is Ok ==> final(self).pos > old(self).pos,
        decreases old(self).tokens@.len() - old(self).pos, 10int,
    {
        let n = self.tokens.len();
        self.pos = self.pos + 1;
        match self.expect_kind(TokenKind::OpenParen, "an opening parenthesis") {
            Ok(()) => (),
            Err(e) => {
                return Err(e);
            },
        }
        let var_type = if self.current_is_type() {
            match self.take_identifier("type") {
                Ok(name) => Some(type_from_name(name.as_str()).to_text()),
                Err(e) => {
                    return Err(e);
                },
            }
        } else {
            None
        };
        let var_name = match self.take_identifier("variable name") {
            Ok(n) => n,
            Err(e) => {
                return Err(e);
            },
        };
        if !self.current_is_keyword(Keyword::In) {
            return Err(self.unexpected("the word `in`"));
        }
        self.pos = self.pos + 1;
        let iterable = match self.parse_expression() {
            Ok(e) => e,
            Err(e) => {
                return Err(e);
            },
        };
        match self.expect_kind(TokenKind::CloseParen, "a closing parenthesis") {
            Ok(()) => (),
            Err(e) => {
                return Err(e);
            },
        }
        match self.parse_statement() {
            Ok(s) => Ok(Stmt::For { var_name, var_type, iterable, body: Box::new(s) }),
            Err(e) => Err(e),
        }
    }

    /// Parses `type name [= expression];`.
    fn parse_var_declaration(&mut self) -> (r: ParseResult<Stmt>)
        requires
            old(self).wf(),
        ensures
            final(self).advanced_from(*old(self)),
            r is Ok ==> final(self).pos > old(self).pos,
        decreases old(self).tokens@.len() - old(self).pos, 10int,
    {
        let ty = match self.take_identifier("type") {
            Ok(name) => Some(type_from_name(name.as_str()).to_text()),
            Err(e) => {
                return Err(e);
            },
        };
        let name = match self.take_identifier("variable name") {
            Ok(n) => n,
            Err(e) => {
                return Err(e);
            },
        };
        let value = if self.current_kind() == TokenKind::Equals {
            self.pos = self.pos + 1;
            match self.parse_expression() {
                Ok(e) => Some(e),
                Err(e) => {
                    return Err(e);
                },
            }
        } else {
            None
        };
        match self.expect_kind(TokenKind::Semicolon, "a semicolon") {
            Ok(()) => Ok(Stmt::VarDecl { name, ty, value }),
            Err(e) => Err(e),
        }
    }

    /// Parses `name = expression;`.
    fn parse_assignment(&mut self) -> (r: ParseResult<Stmt>)
        requires
            old(self).wf(),
        ensures
            final(self).advanced_from(*old(self)),
            r is Ok ==> final(self).pos > old(self).pos,
        decreases old(self).tokens@.len() - old(self).pos, 10int,
    {
        let name = match self.take_identifier("variable name") {
            Ok(n) => n,
            Err(e) => {
                return Err(e);
            },
        };
        match self.expect_kind(TokenKind::Equals, "an equals sign") {
            Ok(()) => (),
            Err(e) => {
                return Err(e);
            },
        }
        let value = match self.parse_expression() {
            Ok(e) => e,
            Err(e) => {
                return Err(e);
            },
        };
        match self.expect_kind(TokenKind::Semicolon, "a semicolon") {
            Ok(()) => Ok(Stmt::Assignment { name, value }),
            Err(e) => Err(e),
        }
    }

    /// Parses one expression.
    pub fn parse_expression(&mut self) -> (r: ParseResult<Expr>)
        requires
            old(self).wf(),
        ensures
            final(self).advanced_from(*old(self)),
            r is Ok ==> final(self).pos > old(self).pos,
        decreases old(self).tokens@.len() - old(self).pos, 9int,
    {
        self.parse_logical_or()
    }

    /// Parses a chain of `||`.
    #[verifier::loop_isolation(false)]
    fn parse_logical_or(&mut self) -> (r: ParseResult<Expr>)
        requires
            old(self).wf(),
        ensures
            final(self).advanced_from(*old(self)),
            r is Ok ==> final(self).pos > old(self).pos,
        decreases old(self).tokens@.len() - old(self).pos, 8int,
    {
        let mut expr = match self.parse_logical_and() {
            Ok(e) => e,
            Err(e) => {
                return Err(e);
            },
        };
        loop
            invariant
                self.wf(),
                self.tokens == old(self).tokens,
                self.pos > old(self).pos,
            decreases self.tokens@.len() - self.pos,
        {
            if self.current_kind() != TokenKind::Or {
                break ;
            }
            self.pos = self.pos + 1;
            let right = match self.parse_logical_and() {
                Ok(e) => e,
                Err(e) => {
                    return Err(e);
                },
            };
            expr = Expr::Binary(BinaryExpr::Or(Box::new(expr), Box::new(right)));
        }
        Ok(expr)
    }

    /// Parses a chain of `&&`.
    #[verifier::loop_isolation(false)]
    fn parse_logical_and(&mut self) -> (r: ParseResult<Expr>)
        requires
            old(self).wf(),
        ensures
            final(self).advanced_from(*old(self)),
            r is Ok ==> final(self).pos > old(self).pos,
        decreases old(self).tokens@.len() - old(self).pos, 7int,
    {
        let mut expr = match self.parse_equality() {
            Ok(e) => e,
            Err(e) => {
                return Err(e);
            },
        };
        loop
            invariant
                self.wf(),
                self.tokens == old(self).tokens,
                self.pos > old(self).pos,
            decreases self.tokens@.len() - self.pos,
        {
            if self.current_kind() != TokenKind::And {
                break ;
            }
            self.pos = self.pos + 1;
            let right = match self.parse_equality() {
                Ok(e) => e,
                Err(e) => {
                    return Err(e);
                },
            };
            expr = Expr::Binary(BinaryExpr::And(Box::new(expr), Box::new(right)));
        }
        Ok(expr)
    }

    /// Parses a chain of `==` and `!=`.
    #[verifier::loop_isolation(false)]
    fn parse_equality(&mut self) -> (r: ParseResult<Expr>)
        requires
            old(self).wf(),
        ensures
            final(self).advanced_from(*old(self)),
            r is Ok ==> final(self).pos > old(self).pos,
        decreases old(self).tokens@.len() - old(self).pos, 6int,
    {
        let mut expr = match self.parse_comparison() {
            Ok(e) => e,
            Err(e) => {
                return Err(e);
            },
        };
        loop
            invariant
                self.wf(),
                self.tokens == old(self).tokens,
                self.pos > old(self).pos,
            decreases self.tokens@.len() - self.pos,
        {
            let k = self.current_kind();
            if !(k == TokenKind::EqualsEquals || k == TokenKind::NotEquals) {
                break ;
            }
            let is_eq = k == TokenKind::EqualsEquals;
            self.pos = self.pos + 1;
            let right = match self.parse_comparison() {
                Ok(e) => e,
                Err(e) => {
                    return Err(e);
                },
            };
            expr = if is_eq {
                Expr::Binary(BinaryExpr::Equals(Box::new(expr), Box::new(right)))
            } else {
                Expr::Binary(BinaryExpr::NotEquals(Box::new(expr), Box::new(right)))
            };
        }
        Ok(expr)
    }

    /// Parses a chain of `<`, `<=`, `>`, `>=`.
    #[verifier::loop_isolation(false)]
    fn parse_comparison(&mut self) -> (r: ParseResult<Expr>)
        requires
            old(self).wf(),
        ensures
            final(self).advanced_from(*old(self)),
            r is Ok ==> final(self).pos > old(self).pos,
        decreases old(self).tokens@.len() - old(self).pos, 5int,
    {
        let mut expr = match self.parse_term() {
            Ok(e) => e,
            Err(e) => {
                return Err(e);
            },
        };
        loop
            invariant
                self.wf(),
                self.tokens == old(self).tokens,
                self.pos > old(self).pos,
            decreases self.tokens@.len() - self.pos,
        {
            let op = self.current_kind();
            if !(op == TokenKind::Greater || op == TokenKind::GreaterEq || op
                == TokenKind::Lesser || op == TokenKind::LesserEq) {
                break ;
            }
            self.pos = self.pos + 1;
            let right = match self.parse_term() {
                Ok(e) => e,
                Err(e) => {
                    return Err(e);
                },
            };
            expr = if op == TokenKind::Greater {
                Expr::Binary(BinaryExpr::Greater(Box::new(expr), Box::new(right)))
            } else if op == TokenKind::GreaterEq {
                Expr::Binary(BinaryExpr::GreaterEqual(Box::new(expr), Box::new(right)))
            } else if op == TokenKind::Lesser {
                Expr::Binary(BinaryExpr::Less(Box::new(expr), Box::new(right)))
            } else {
                Expr::Binary(BinaryExpr::LessEqual(Box::new(expr), Box::new(right)))
            };
        }
        Ok(expr)
    }

    /// Parses a chain of `+` and `-`.
    #[verifier::loop_isolation(false)]
    fn parse_term(&mut self) -> (r: ParseResult<Expr>)
        requires
            old(self).wf(),
        ensures
            final(self).advanced_from(*old(self)),
            r is Ok ==> final(self).pos > old(self).pos,
        decreases old(self).tokens@.len() - old(self).pos, 4int,
    {
        let mut expr = match self.parse_factor() {
            Ok(e) => e,
            Err(e) => {
                return Err(e);
            },
        };
        loop
            invariant
                self.wf(),
                self.tokens == old(self).tokens,
                self.pos > old(self).pos,
            decreases self.tokens@.len() - self.pos,
        {
            let k = self.current_kind();
            if !(k == TokenKind::Plus || k == TokenKind::Minus) {
                break ;
            }
            let is_plus = k == TokenKind::Plus;
            self.pos = self.pos + 1;
            let right = match self.parse_factor() {
                Ok(e) => e,
                Err(e) => {
                    return Err(e);
                },
            };
            expr = if is_plus {
                Expr::Binary(BinaryExpr::Add(Box::new(expr), Box::new(right)))
            } else {
                Expr::Binary(BinaryExpr::Subtract(Box::new(expr), Box::new(right)))
            };
        }
        Ok(expr)
    }

    /// Parses a chain of `*`, `/` and `%`.
    #[verifier::loop_isolation(false)]
    fn parse_factor(&mut self) -> (r: ParseResult<Expr>)
        requires
            old(self).wf(),
        ensures
            final(self).advanced_from(*old(self)),
            r is Ok ==> final(self).pos > old(self).pos,
        decreases old(self).tokens@.len() - old(self).pos, 3int,
    {
        let mut expr = match self.parse_unary() {
            Ok(e) => e,
            Err(e) => {
                return Err(e);
            },
        };
        loop
            invariant
                self.wf(),
                self.tokens == old(self).tokens,
                self.pos > old(self).pos,
            decreases self.tokens@.len() - self.pos,
        {
            let op = self.current_kind();
            if !(op == TokenKind::Asterisk || op == TokenKind::Slash || op == TokenKind::Percent) {
                break ;
            }
            self.pos = self.pos + 1;
            let right = match self.parse_unary() {
                Ok(e) => e,
                Err(e) => {
                    return Err(e);
                },
            };
            expr = if op == TokenKind::Asterisk {
                Expr::Binary(BinaryExpr::Multiply(Box::new(expr), Box::new(right)))
            } else if op == TokenKind::Slash {
                Expr::Binary(BinaryExpr::Divide(Box::new(expr), Box::new(right)))
            } else {
                Expr::Binary(BinaryExpr::Modulo(Box::new(expr), Box::new(right)))
            };
        }
        Ok(expr)
    }

    /// Parses prefix `!`, `-` and `+`.
    fn parse_unary(&mut self) -> (r: ParseResult<Expr>)
        requires
            old(self).wf(),
        ensures
            final(self).advanced_from(*old(self)),
            r is Ok ==> final(self).pos > old(self).pos,
        decreases old(self).tokens@.len() - old(self).pos, 2int,
    {
        let k = self.current_kind();
        if k == TokenKind::Not {
            self.pos = self.pos + 1;
            match self.parse_unary() {
                Ok(e) => Ok(Expr::Unary(UnaryExpr::Not(Box::new(e)))),
                Err(e) => Err(e),
            }
        } else if k == TokenKind::Minus {
            self.pos = self.pos + 1;
            match self.parse_unary() {
                Ok(e) => Ok(Expr::Unary(UnaryExpr::Minus(Box::new(e)))),
                Err(e) => Err(e),
            }
        } else if k == TokenKind::Plus {
            self.pos = self.pos + 1;
            match self.parse_unary() {
                Ok(e) => Ok(Expr::Unary(UnaryExpr::Plus(Box::new(e)))),
                Err(e) => Err(e),
            }
        } else {
            self.parse_call()
        }
    }

    /// Parses a primary expression with any number of call suffixes.
    #[verifier::loop_isolation(false)]
    fn parse_call(&mut self) -> (r: ParseResult<Expr>)
        requires
            old(self).wf(),
        ensures
            final(self).advanced_from(*old(self)),
            r is Ok ==> final(self).pos > old(self).pos,
        decreases old(self).tokens@.len() - old(self).pos, 1int,
    {
        let mut expr = match self.parse_primary() {
            Ok(e) => e,
            Err(e) => {
                return Err(e);
            },
        };
        loop
            invariant
                self.wf(),
                self.tokens == old(self).tokens,
                self.pos > old(self).pos,
            decreases self.tokens@.len() - self.pos,
        {
            if self.current_kind() != TokenKind::OpenParen {
                break ;
            }
            let ghost suffix_start = self.pos;
            self.pos = self.pos + 1;
            let mut args: Vec<Expr> = Vec::new();
            if self.current_kind() != TokenKind::CloseParen {
                loop
                    invariant
                        self.wf(),
                        self.tokens == old(self).tokens,
                        self.pos > suffix_start,
                    decreases self.tokens@.len() - self.pos,
                {
                    match self.parse_expression() {
                        Ok(e) => {
                            args.push(e);
                        },
                        Err(e) => {
                            return Err(e);
                        },
                    }
                    if self.current_kind() == TokenKind::Comma {
                        self.pos = self.pos + 1;
                    } else {
                        break ;
                    }
                }
            }
            match self.expect_kind(TokenKind::CloseParen, "a closing parenthesis") {
                Ok(()) => (),
                Err(e) => {
                    return Err(e);
                },
            }
            expr = match expr {
                Expr::Identifier(name) => Expr::Call { name, args },
                _ => {
                    return Err(
                        ParseError::InvalidExpression("Can only call functions".to_owned()),
                    );
                },
            };
        }
        Ok(expr)
    }

    /// Parses a literal, an identifier or a parenthesized grouping.
    fn parse_primary(&mut self) -> (r: ParseResult<Expr>)
        requires
            old(self).wf(),
        ensures
            final(self).advanced_from(*old(self)),
            r is Ok ==> final(self).pos > old(self).pos,
        decreases old(self).tokens@.len() - old(self).pos, 0int,
    {
        if self.pos >= self.tokens.len() {
            return Err(ParseError::UnexpectedEof);
        }
        match &self.tokens[self.pos] {
            Token::IntLiteral(value) => {
                let v = *value;
                self.pos = self.pos + 1;
                Ok(Expr::Literal(Literal::Int(v)))
            },
            Token::FloatLiteral(text) => {
                let t = text.clone();
                self.pos = self.pos + 1;
                Ok(Expr::Literal(Literal::Float(t)))
            },
            Token::StringLiteral(value) => {
                let v = value.clone();
                self.pos = self.pos + 1;
                Ok(Expr::Literal(Literal::String(v)))
            },
            Token::CharLiteral(value) => {
                let v = *value;
                self.pos = self.pos + 1;
                Ok(Expr::Literal(Literal::Char(v)))
            },
            Token::Identifier(name) => {
                let n = name.clone();
                self.pos = self.pos + 1;
                Ok(Expr::Identifier(n))
            },
            Token::OpenParen => {
                self.pos = self.pos + 1;
                let expr = match self.parse_expression() {
                    Ok(e) => e,
                    Err(e) => {
                        return Err(e);
                    },
                };
                match self.expect_kind(TokenKind::CloseParen, "a closing parenthesis") {
                    Ok(()) => Ok(Expr::Grouping(Box::new(expr))),
                    Err(e) => Err(e),
                }
            },
            _ => Err(self.unexpected("expression")),
        }
    }
}

} // verus!
