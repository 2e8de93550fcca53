use superr::ast::{Expr, Literal, UnaryExpr};

fn lit_int(v: u32) -> Literal {
    Literal::Int(v)
}




fn litexpr_int(v: u32) -> Expr {
    Expr::Literal(lit_int(v))
}





fn unary(make: fn(Box<Expr>) -> UnaryExpr, v: Expr) -> Expr {
    Expr::Unary(make(Box::new(v)))
}

#[test]
fn unary_operators() {
    let operand = litexpr_int(42);

    assert_eq!(unary(UnaryExpr::Not, operand.clone()).to_text(), "(!42)");
    assert_eq!(unary(UnaryExpr::Minus, operand.clone()).to_text(), "(-42)");
}

#[test]
fn unary_expr_with_literal() {
    assert_eq!(unary(UnaryExpr::Minus, litexpr_int(1)).to_text(), "(-1)");
}
