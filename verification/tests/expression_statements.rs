use superr::ast::{Expr, Literal, Stmt};

fn lit_int(v: u32) -> Literal {
    Literal::Int(v)
}


fn lit_string(s: &str) -> Literal {
    Literal::String(s.to_string())
}


fn litexpr_int(v: u32) -> Expr {
    Expr::Literal(lit_int(v))
}


fn litexpr_string(s: &str) -> Expr {
    Expr::Literal(lit_string(s))
}




#[test]
fn simple_expression_statement() {
    let stmt = Stmt::Expression(litexpr_int(42));
    assert_eq!(stmt.to_text(), "42;");
}

#[test]
fn call_expression_statement() {
    let call_stmt = Stmt::Expression(Expr::Call {
        name: "print".to_string(),
        args: vec![litexpr_string("Hello")],
    });
    assert_eq!(call_stmt.to_text(), "print(\"Hello\");");
}
