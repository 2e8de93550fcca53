//! The lexer of the small source language: a cursor over the source
//! characters producing one token at a time.

use vstd::prelude::*;

use crate::text::{chars_to_string, push_char, str_to_chars};
use crate::token::{lookup, Keyword, Token};

verus! {

/// What a Unicode character counts as for identifiers: a letter or a
/// number in the sense of the Unicode general categories.
pub uninterp spec fn unicode_alphanumeric(c: char) -> bool;

/// Relies on `char::is_alphanumeric`: whether the character is a Unicode
/// letter or number, a property of the character alone.  Among the ASCII
/// characters, exactly the letters and digits are alphanumeric.
#[verifier::external_body]
fn char_is_alphanumeric(c: char) -> (r: bool)
    ensures
        r == unicode_alphanumeric(c),
        ('a' <= c && c <= 'z') || ('A' <= c && c <= 'Z') || ('0' <= c && c <= '9') ==> r,
        (c as u32) < 128 && !(('a' <= c && c <= 'z') || ('A' <= c && c <= 'Z') || ('0' <= c
            && c <= '9')) ==> !r,
{
    c.is_alphanumeric()
}

/// A Unicode scalar value: what a `char` may hold.
pub open spec fn is_scalar_value(v: u32) -> bool {
    v < 0xD800 || (0xE000 <= v && v <= 0x10FFFF)
}

/// Relies on `char::from_u32`: `Some` exactly for Unicode scalar values,
/// carrying that code point.
#[verifier::external_body]
fn char_from_u32(v: u32) -> (r: Option<char>)
    ensures
        match r {
            Some(c) => c as u32 == v,
            None => !is_scalar_value(v),
        },
        is_scalar_value(v) ==> r is Some,
{
    char::from_u32(v)
}

/// The value of one hexadecimal digit.
fn hex_digit_val(c: char) -> (r: Option<u8>)
    ensures
        r matches Some(v) ==> v < 16,
{
    if '0' <= c && c <= '9' {
        Some((c as u32 - 48) as u8)
    } else if 'a' <= c && c <= 'f' {
        Some((c as u32 - 87) as u8)
    } else if 'A' <= c && c <= 'F' {
        Some((c as u32 - 55) as u8)
    } else {
        None
    }
}

/// Reads at most six hexadecimal digits as a code point; an empty or
/// non-hexadecimal span gives `None`.
#[verifier::loop_isolation(false)]
fn parse_hex(buf: &Vec<char>, from: usize, to: usize) -> (r: Option<u32>)
    requires
        from <= to <= buf@.len(),
        to - from <= 6,
    ensures
        r matches Some(v) ==> v < 0x100_0000,
{
    if from == to {
        return None;
    }
    let mut acc: u32 = 0;
    let mut i = from;
    while i < to
        invariant
            from <= i <= to <= buf@.len(),
            acc < 0x100_0000,
        decreases to - i,
    {
        match hex_digit_val(buf[i]) {
            Some(d) => {
                if acc >= 0x10_0000 {
                    // Unreachable with at most six digits; it keeps the
                    // accumulator visibly inside 24 bits.
                    return None;
                }
                acc = acc * 16 + (d as u32);
            },
            None => {
                return None;
            },
        }
        i = i + 1;
    }
    Some(acc)
}

/// The cursor over the source text.
#[derive(Debug)]
pub struct Lexer {
    pub chars: Vec<char>,
    pub pos: usize,
}

impl Lexer {
    /// The cursor never leaves the text.
    pub open spec fn wf(self) -> bool {
        self.pos <= self.chars@.len()
    }

    /// Creates a lexer at the start of the source.
    pub fn new(source: &str) -> (r: Self)
        ensures
            r.wf(),
            r.chars@ == source@,
            r.pos == 0,
    {
        Lexer { chars: str_to_chars(source), pos: 0 }
    }

    /// Reads a string literal after its opening quote; an unterminated
    /// literal is invalid.
    #[verifier::loop_isolation(false)]
    fn lex_string_literal(&mut self) -> (t: Token)
        requires
            old(self).wf(),
        ensures
            final(self).wf(),
            final(self).chars == old(self).chars,
            final(self).pos >= old(self).pos,
            !(t is EOF),
    {
        let n = self.chars.len();
        let mut buffer = String::new();
        while self.pos < n
            invariant
                self.wf(),
                self.chars == old(self).chars,
                self.pos >= old(self).pos,
                n == self.chars@.len(),
            decreases n - self.pos,
        {
            let c2 = self.chars[self.pos];
            self.pos = self.pos + 1;
            if c2 == '"' {
                return Token::StringLiteral(buffer);
            }
            push_char(&mut buffer, c2);
        }
        Token::Invalid("Invalid expression".to_owned())
    }

    /// Reads a character literal after its opening quote.  A `\u{...}`
    /// escape of at most six hexadecimal digits names a code point; any
    /// other escape, an unterminated literal or more than one character
    /// is invalid.
    #[verifier::loop_isolation(false)]
    fn lex_char_literal(&mut self) -> (t: Token)
        requires
            old(self).wf(),
        ensures
            final(self).wf(),
            final(self).chars == old(self).chars,
            final(self).pos >= old(self).pos,
            !(t is EOF),
    {
        let n = self.chars.len();
        let mut buffer: Vec<char> = Vec::new();
        let mut closed = false;
        while self.pos < n && !closed
            invariant
                self.wf(),
                self.chars == old(self).chars,
                self.pos >= old(self).pos,
                n == self.chars@.len(),
            decreases n - self.pos,
        {
            let c2 = self.chars[self.pos];
            self.pos = self.pos + 1;
            if c2 == '\'' {
                closed = true;
            } else {
                buffer.push(c2);
            }
        }
        if !closed {
            return Token::Invalid("Invalid expression".to_owned());
        }
        let blen = buffer.len();
        if blen > 1 && buffer[0] == '\\' {
            if blen >= 4 && buffer[1] == 'u' && buffer[2] == '{' && buffer[blen - 1] == '}' {
                let hex_len = blen - 4;
                if hex_len > 6 {
                    return invalid_around("Unicode escape sequence '", &buffer, "' is too long");
                }
                match parse_hex(&buffer, 3, blen - 1) {
                    Some(code_point) => match char_from_u32(code_point) {
                        Some(parsed) => Token::CharLiteral(parsed),
                        None => invalid_around("Invalid unicode code point: '", &buffer, "'"),
                    },
                    None => invalid_around("Invalid unicode escape sequence: '", &buffer, "'"),
                }
            } else {
                invalid_around("Invalid escape sequence: '", &buffer, "'")
            }
        } else if blen == 1 {
            Token::CharLiteral(buffer[0])
        } else {
            invalid_around("Character literal '", &buffer, "' must be one character long")
        }
    }

    /// Reads a number literal given its first digit.  No decimal point
    /// gives a 32-bit integer; one gives a floating-point literal, kept as
    /// its spelling; anything else is invalid.
    #[verifier::loop_isolation(false)]
    fn lex_number_literal(&mut self, first_char: char) -> (t: Token)
        requires
            old(self).wf(),
            '0' <= first_char && first_char <= '9',
        ensures
            final(self).wf(),
            final(self).chars == old(self).chars,
            final(self).pos >= old(self).pos,
            !(t is EOF),
    {
        let n = self.chars.len();
        let mut buffer: Vec<char> = Vec::new();
        buffer.push(first_char);
        let mut decimal_points: usize = 0;
        loop
            invariant
                self.wf(),
                self.chars == old(self).chars,
                self.pos >= old(self).pos,
                decimal_points <= self.pos - old(self).pos,
                buffer@.len() >= 1,
            decreases n - self.pos,
        {
            if self.pos >= n {
                break ;
            }
            let c2 = self.chars[self.pos];
            if !(('0' <= c2 && c2 <= '9') || c2 == '.') {
                break ;
            }
            self.pos = self.pos + 1;
            if c2 == '.' {
                decimal_points = decimal_points + 1;
            }
            buffer.push(c2);
        }
        if decimal_points == 0 {
            // Parse the digits as a 32-bit integer; overflow is invalid.
            let blen = buffer.len();
            let mut acc: u64 = 0;
            let mut i: usize = 0;
            while i < blen
                invariant
                    i <= blen == buffer@.len(),
                    acc <= 0xFFFF_FFFFu64,
                decreases blen - i,
            {
                let c = buffer[i];
                if !('0' <= c && c <= '9') {
                    return Token::Invalid(chars_to_string(&buffer));
                }
                acc = acc * 10 + ((c as u32 - 48) as u64);
                i = i + 1;
                if acc > 0xFFFF_FFFFu64 {
                    return Token::Invalid(chars_to_string(&buffer));
                }
            }
            Token::IntLiteral(acc as u32)
        } else if decimal_points == 1 {
            Token::FloatLiteral(chars_to_string(&buffer))
        } else {
            Token::Invalid(chars_to_string(&buffer))
        }
    }

    /// Reads an identifier given its first character; a reserved word
    /// becomes its keyword token.
    #[verifier::loop_isolation(false)]
    fn lex_identifier(&mut self, first_char: char) -> (t: Token)
        requires
            old(self).wf(),
        ensures
            final(self).wf(),
            final(self).chars == old(self).chars,
            final(self).pos >= old(self).pos,
            !(t is EOF),
    {
        let n = self.chars.len();
        let mut buffer = String::new();
        push_char(&mut buffer, first_char);
        loop
            invariant
                self.wf(),
                self.chars == old(self).chars,
                self.pos >= old(self).pos,
            decreases n - self.pos,
        {
            if self.pos >= n {
                break ;
            }
            let c2 = self.chars[self.pos];
            if !(char_is_alphanumeric(c2) || c2 == '_') {
                break ;
            }
            self.pos = self.pos + 1;
            push_char(&mut buffer, c2);
        }
        match lookup(buffer.as_str()) {
            Some(keyword) => Token::Keyword(keyword),
            None => Token::Identifier(buffer),
        }
    }

    /// Chooses between a one-character and a two-character token.
    fn multi_char(&mut self, next_char: char, single: Token, multi: Token) -> (t: Token)
        requires
            old(self).wf(),
        ensures
            final(self).wf(),
            final(self).chars == old(self).chars,
            final(self).pos >= old(self).pos,
            t == single || t == multi,
    {
        if self.pos < self.chars.len() && self.chars[self.pos] == next_char {
            self.pos = self.pos + 1;
            multi
        } else {
            single
        }
    }

    /// Reads the next token.  Whitespace and `//` comments are skipped;
    /// an unknown character gives an invalid token; the end of the text
    /// gives `EOF`, and only the end does.
    #[verifier::loop_isolation(false)]
    pub fn next_token(&mut self) -> (t: Token)
        requires
            old(self).wf(),
        ensures
            final(self).wf(),
            final(self).chars == old(self).chars,
            final(self).pos >= old(self).pos,
            !(t is EOF) ==> final(self).pos > old(self).pos,
    {
        let n = self.chars.len();
        while self.pos < n
            invariant
                self.wf(),
                self.chars == old(self).chars,
                self.pos >= old(self).pos,
                n == self.chars@.len(),
            decreases n - self.pos,
        {
            let c = self.chars[self.pos];
            self.pos = self.pos + 1;
            if c == '\n' || c == '\t' || c == '\r' || c == ' ' {
                // Whitespace between tokens.
            } else if c == '(' {
                return Token::OpenParen;
            } else if c == ')' {
                return Token::CloseParen;
            } else if c == '{' {
                return Token::OpenBrace;
            } else if c == '}' {
                return Token::CloseBrace;
            } else if c == '[' {
                return Token::OpenBracket;
            } else if c == ']' {
                return Token::CloseBracket;
            } else if c == ';' {
                return Token::Semicolon;
            } else if c == ',' {
                return Token::Comma;
            } else if c == '.' {
                return Token::Period;
            } else if c == '&' {
                return self.multi_char('&', Token::Invalid("&".to_owned()), Token::And);
            } else if c == '|' {
                return self.multi_char('|', Token::Invalid("|".to_owned()), Token::Or);
            } else if c == '!' {
                return self.multi_char('=', Token::Not, Token::NotEquals);
            } else if c == '=' {
                return self.multi_char('=', Token::Equals, Token::EqualsEquals);
            } else if c == '>' {
                return self.multi_char('=', Token::Greater, Token::GreaterEq);
            } else if c == '<' {
                return self.multi_char('=', Token::Lesser, Token::LesserEq);
            } else if c == '+' {
                return self.multi_char('+', Token::Plus, Token::PlusPlus);
            } else if c == '-' {
                return self.multi_char('-', Token::Minus, Token::MinusMinus);
            } else if c == '/' {
                if self.pos < n && self.chars[self.pos] == '/' {
                    self.pos = self.pos + 1;
                    let ghost comment_start = self.pos;
                    // A line comment: skip to the end of the line.
                    while self.pos < n
                        invariant
                            self.wf(),
                            self.chars == old(self).chars,
                            self.pos >= comment_start,
                        decreases n - self.pos,
                    {
                        let c2 = self.chars[self.pos];
                        self.pos = self.pos + 1;
                        if c2 == '\n' {
                            break ;
                        }
                    }
                } else {
                    return Token::Slash;
                }
            } else if c == '*' {
                return Token::Asterisk;
            } else if c == '%' {
                return Token::Percent;
            } else if c == '"' {
                return self.lex_string_literal();
            } else if c == '\'' {
                return self.lex_char_literal();
            } else if '0' <= c && c <= '9' {
                return self.lex_number_literal(c);
            } else if ('A' <= c && c <= 'Z') || ('a' <= c && c <= 'z') || c == '_' {
                return self.lex_identifier(c);
            } else {
                let mut s = String::new();
                push_char(&mut s, c);
                return Token::Invalid(s);
            }
        }
        Token::EOF
    }
}

/// Builds an invalid token whose message quotes the offending characters.
fn invalid_around(prefix: &str, middle: &Vec<char>, suffix: &str) -> (t: Token)
    ensures
        t is Invalid,
{
    let mut s = String::new();
    s.append(prefix);
    let mid = chars_to_string(middle);
    s.append(mid.as_str());
    s.append(suffix);
    Token::Invalid(s)
}

/// Lexes a whole source text: every token in order, ending with a single
/// `EOF` token.
#[verifier::loop_isolation(false)]
pub fn lex(source: &str) -> (r: Vec<Token>)
    ensures
        r@.len() >= 1,
        r@.last() is EOF,
        forall|i: int| 0 <= i < r@.len() - 1 ==> !((#[trigger] r@[i]) is EOF),
{
    let mut lexer = Lexer::new(source);
    let mut tokens: Vec<Token> = Vec::new();
    let ghost total = lexer.chars@.len();
    loop
        invariant
            lexer.wf(),
            lexer.chars@.len() == total,
            forall|i: int| 0 <= i < tokens@.len() ==> !((#[trigger] tokens@[i]) is EOF),
        decreases total - lexer.pos,
    {
        let token = lexer.next_token();
        match token {
            Token::EOF => {
                break ;
            },
            _ => {
                tokens.push(token);
            },
        }
    }
    tokens.push(Token::EOF);
    tokens
}

} // verus!
