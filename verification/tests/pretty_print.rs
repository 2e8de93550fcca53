use superr::ast::{BinaryExpr, Expr, Literal, UnaryExpr};

fn lit_int(v: u32) -> Literal {
    Literal::Int(v)
}

fn lit_float(t: &str) -> Literal {
    Literal::Float(t.to_string())
}

fn lit_string(s: &str) -> Literal {
    Literal::String(s.to_string())
}

fn lit_char(c: char) -> Literal {
    Literal::Char(c)
}

fn litexpr_int(v: u32) -> Expr {
    Expr::Literal(lit_int(v))
}

fn litexpr_float(t: &str) -> Expr {
    Expr::Literal(lit_float(t))
}



fn binary(make: fn(Box<Expr>, Box<Expr>) -> BinaryExpr, l: Expr, r: Expr) -> Expr {
    Expr::Binary(make(Box::new(l), Box::new(r)))
}

fn unary(make: fn(Box<Expr>) -> UnaryExpr, v: Expr) -> Expr {
    Expr::Unary(make(Box::new(v)))
}

#[test]
#[allow(clippy::approx_constant)]
fn test_literal_pretty_print() {
    assert_eq!(lit_string("hello").display_text(), "hello");
    assert_eq!(lit_char('c').display_text(), "c");
    assert_eq!(lit_float("3.14").display_text(), "3.14");
    assert_eq!(lit_int(42).display_text(), "42");
}

#[test]
fn test_binary_expr_pretty_print() {
    assert_eq!(
        binary(BinaryExpr::And, litexpr_int(1), litexpr_int(2)).to_text(),
        "(1 && 2)"
    );
    assert_eq!(
        binary(BinaryExpr::Or, litexpr_int(1), litexpr_int(2)).to_text(),
        "(1 || 2)"
    );
    assert_eq!(
        binary(BinaryExpr::Equals, litexpr_int(1), litexpr_int(2)).to_text(),
        "(1 == 2)"
    );
    assert_eq!(
        binary(BinaryExpr::NotEquals, litexpr_int(1), litexpr_int(2)).to_text(),
        "(1 != 2)"
    );
    assert_eq!(
        binary(BinaryExpr::Greater, litexpr_int(1), litexpr_int(2)).to_text(),
        "(1 > 2)"
    );
    assert_eq!(
        binary(BinaryExpr::GreaterEqual, litexpr_int(1), litexpr_int(2)).to_text(),
        "(1 >= 2)"
    );
    assert_eq!(
        binary(BinaryExpr::Less, litexpr_int(1), litexpr_int(2)).to_text(),
        "(1 < 2)"
    );
    assert_eq!(
        binary(BinaryExpr::LessEqual, litexpr_int(1), litexpr_int(2)).to_text(),
        "(1 <= 2)"
    );
    assert_eq!(
        binary(BinaryExpr::Add, litexpr_int(1), litexpr_int(2)).to_text(),
        "(1 + 2)"
    );
    assert_eq!(
        binary(BinaryExpr::Subtract, litexpr_int(1), litexpr_int(2)).to_text(),
        "(1 - 2)"
    );
    assert_eq!(
        binary(BinaryExpr::Multiply, litexpr_int(1), litexpr_int(2)).to_text(),
        "(1 * 2)"
    );
    assert_eq!(
        binary(BinaryExpr::Divide, litexpr_int(1), litexpr_int(2)).to_text(),
        "(1 / 2)"
    );
}

#[test]
fn test_nested_binary_expr_pretty_print() {
    assert_eq!(
        binary(
            BinaryExpr::Add,
            binary(BinaryExpr::Add, litexpr_int(3), litexpr_float("0.1415")),
            binary(BinaryExpr::Divide, litexpr_int(1), litexpr_int(2))
        )
        .to_text(),
        "((3 + 0.1415) + (1 / 2))"
    );
}

#[test]
fn test_unary_expr_pretty_print() {
    assert_eq!(unary(UnaryExpr::Not, litexpr_int(1)).to_text(), "(!1)");
    assert_eq!(unary(UnaryExpr::Minus, litexpr_int(1)).to_text(), "(-1)");
}
