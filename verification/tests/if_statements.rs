use superr::ast::{BinaryExpr, Expr, Literal, Stmt};

fn lit_int(v: u32) -> Literal {
    Literal::Int(v)
}




fn litexpr_int(v: u32) -> Expr {
    Expr::Literal(lit_int(v))
}




fn binary(make: fn(Box<Expr>, Box<Expr>) -> BinaryExpr, l: Expr, r: Expr) -> Expr {
    Expr::Binary(make(Box::new(l), Box::new(r)))
}


#[test]
fn simple_if() {
    let if_stmt = Stmt::If {
        condition: binary(
            BinaryExpr::Greater,
            Expr::Identifier("x".to_string()),
            litexpr_int(0),
        ),
        then_branch: Box::new(Stmt::Return(Some(litexpr_int(1)))),
        else_branch: None,
    };
    assert_eq!(if_stmt.to_text(), "if ((x > 0)) return 1;");
}

#[test]
fn if_else() {
    let if_else_stmt = Stmt::If {
        condition: binary(
            BinaryExpr::Equals,
            Expr::Identifier("x".to_string()),
            litexpr_int(0),
        ),
        then_branch: Box::new(Stmt::Return(Some(litexpr_int(0)))),
        else_branch: Some(Box::new(Stmt::Return(Some(litexpr_int(1))))),
    };
    assert_eq!(
        if_else_stmt.to_text(),
        "if ((x == 0)) return 0; else return 1;"
    );
}
