use superr::ast::{BinaryExpr, Expr, Literal, Stmt};

fn lit_int(v: u32) -> Literal {
    Literal::Int(v)
}




fn litexpr_int(v: u32) -> Expr {
    Expr::Literal(lit_int(v))
}




fn binary(make: fn(Box<Expr>, Box<Expr>) -> BinaryExpr, l: Expr, r: Expr) -> Expr {
    Expr::Binary(make(Box::new(l), Box::new(r)))
}


#[test]
fn return_with_value() {
    let return_stmt = Stmt::Return(Some(litexpr_int(42)));
    assert_eq!(return_stmt.to_text(), "return 42;");
}

#[test]
fn return_without_value() {
    let return_void = Stmt::Return(None);
    assert_eq!(return_void.to_text(), "return;");
}

#[test]
fn return_with_complex_expression() {
    let return_expr = Stmt::Return(Some(binary(
        BinaryExpr::Add,
        Expr::Identifier("x".to_string()),
        litexpr_int(1),
    )));
    assert_eq!(return_expr.to_text(), "return (x + 1);");
}
