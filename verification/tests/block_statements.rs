use superr::ast::{BinaryExpr, Expr, Literal, Stmt};

fn lit_int(v: u32) -> Literal {
    Literal::Int(v)
}




fn litexpr_int(v: u32) -> Expr {
    Expr::Literal(lit_int(v))
}




fn binary(make: fn(Box<Expr>, Box<Expr>) -> BinaryExpr, l: Expr, r: Expr) -> Expr {
    Expr::Binary(make(Box::new(l), Box::new(r)))
}


#[test]
fn block_statement() {
    let block = Stmt::Block(vec![
        Stmt::VarDecl {
            name: "x".to_string(),
            ty: Some("int".to_string()),
            value: Some(litexpr_int(1)),
        },
        Stmt::Assignment {
            name: "x".to_string(),
            value: binary(
                BinaryExpr::Add,
                Expr::Identifier("x".to_string()),
                litexpr_int(1),
            ),
        },
        Stmt::Return(Some(Expr::Identifier("x".to_string()))),
    ]);

    let expected = "{\n    int x = 1;\n    x = (x + 1);\n    return x;\n}";
    assert_eq!(block.to_text(), expected);
}

#[test]
fn empty_block() {
    let empty_block = Stmt::Block(vec![]);
    assert_eq!(empty_block.to_text(), "{\n}");
}
