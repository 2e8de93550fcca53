use superr::ast::{BinaryExpr, Expr, Literal, Stmt};

fn lit_int(v: u32) -> Literal {
    Literal::Int(v)
}




fn litexpr_int(v: u32) -> Expr {
    Expr::Literal(lit_int(v))
}




fn binary(make: fn(Box<Expr>, Box<Expr>) -> BinaryExpr, l: Expr, r: Expr) -> Expr {
    Expr::Binary(make(Box::new(l), Box::new(r)))
}


#[test]
fn simple_while() {
    let while_stmt = Stmt::While {
        condition: binary(
            BinaryExpr::Greater,
            Expr::Identifier("i".to_string()),
            litexpr_int(0),
        ),
        body: Box::new(Stmt::Assignment {
            name: "i".to_string(),
            value: binary(
                BinaryExpr::Subtract,
                Expr::Identifier("i".to_string()),
                litexpr_int(1),
            ),
        }),
    };
    assert_eq!(while_stmt.to_text(), "while ((i > 0)) i = (i - 1);");
}
