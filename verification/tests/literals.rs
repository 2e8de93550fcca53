use superr::ast::{Expr, Literal};

fn lit_int(v: u32) -> Literal {
    Literal::Int(v)
}

fn lit_float(t: &str) -> Literal {
    Literal::Float(t.to_string())
}

fn lit_string(s: &str) -> Literal {
    Literal::String(s.to_string())
}

fn lit_char(c: char) -> Literal {
    Literal::Char(c)
}

fn litexpr_int(v: u32) -> Expr {
    Expr::Literal(lit_int(v))
}






#[test]
fn string_literals() {
    assert_eq!(lit_string("").to_text(), "\"\"");
    assert_eq!(lit_string("hello").to_text(), "\"hello\"");
    assert_eq!(lit_string("hello world").to_text(), "\"hello world\"");
    assert_eq!(lit_string("Hello\nWorld").to_text(), "\"Hello\nWorld\"");
    assert_eq!(lit_string("Quote: \"").to_text(), "\"Quote: \"\"");
    assert_eq!(lit_string("Backslash: \\").to_text(), "\"Backslash: \\\"");
    assert_eq!(lit_string("\u{1F980}").to_text(), "\"\u{1F980}\"");
}

#[test]
fn char_literals() {
    assert_eq!(lit_char('c').to_text(), "'c'");
    assert_eq!(lit_char('\n').to_text(), "'\n'");
    assert_eq!(lit_char('\t').to_text(), "'\t'");
    assert_eq!(lit_char('\'').to_text(), "'\''");
    assert_eq!(lit_char('"').to_text(), "'\"'");
    assert_eq!(lit_char('\\').to_text(), "'\\'");
    assert_eq!(lit_char('\u{1F980}').to_text(), "'\u{1F980}'");
}

#[test]
fn numeric_literals() {
    assert_eq!(lit_float("3.14").to_text(), "3.14");
    assert_eq!(lit_int(0).to_text(), "0");
    assert_eq!(lit_int(42).to_text(), "42");
}
