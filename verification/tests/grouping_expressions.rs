use superr::ast::{BinaryExpr, Expr, Literal};

fn lit_int(v: u32) -> Literal {
    Literal::Int(v)
}




fn litexpr_int(v: u32) -> Expr {
    Expr::Literal(lit_int(v))
}




fn binary(make: fn(Box<Expr>, Box<Expr>) -> BinaryExpr, l: Expr, r: Expr) -> Expr {
    Expr::Binary(make(Box::new(l), Box::new(r)))
}


#[test]
fn simple_groupings() {
    let grouped = Expr::Grouping(Box::new(litexpr_int(42)));
    assert_eq!(grouped.to_text(), "(42)");

    let nested_grouped = Expr::Grouping(Box::new(Expr::Grouping(Box::new(litexpr_int(5)))));
    assert_eq!(nested_grouped.to_text(), "((5))");
}

#[test]
fn complex_groupings() {
    let complex_grouped = Expr::Grouping(Box::new(binary(
        BinaryExpr::Add,
        litexpr_int(1),
        litexpr_int(2),
    )));
    assert_eq!(complex_grouped.to_text(), "((1 + 2))");
}
