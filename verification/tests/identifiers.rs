use superr::ast::Expr;

#[test]
fn basic_identifiers() {
    assert_eq!(
        Expr::Identifier("factorial".to_string()).to_text(),
        "factorial"
    );
    assert_eq!(Expr::Identifier("x".to_string()).to_text(), "x");
    assert_eq!(
        Expr::Identifier("_variable".to_string()).to_text(),
        "_variable"
    );
}
