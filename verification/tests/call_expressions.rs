use superr::ast::{BinaryExpr, Expr, Literal};

fn lit_int(v: u32) -> Literal {
    Literal::Int(v)
}


fn lit_string(s: &str) -> Literal {
    Literal::String(s.to_string())
}


fn litexpr_int(v: u32) -> Expr {
    Expr::Literal(lit_int(v))
}


fn litexpr_string(s: &str) -> Expr {
    Expr::Literal(lit_string(s))
}


fn binary(make: fn(Box<Expr>, Box<Expr>) -> BinaryExpr, l: Expr, r: Expr) -> Expr {
    Expr::Binary(make(Box::new(l), Box::new(r)))
}


#[test]
fn basic_calls() {
    let call_no_args = Expr::Call {
        name: "func".to_string(),
        args: vec![],
    };
    assert_eq!(call_no_args.to_text(), "func()");

    let call_one_arg = Expr::Call {
        name: "factorial".to_string(),
        args: vec![litexpr_int(5)],
    };
    assert_eq!(call_one_arg.to_text(), "factorial(5)");
}

#[test]
fn multiple_arguments() {
    let call_multiple_args = Expr::Call {
        name: "range".to_string(),
        args: vec![litexpr_int(2), litexpr_int(10)],
    };
    assert_eq!(call_multiple_args.to_text(), "range(2, 10)");

    let call_complex_args = Expr::Call {
        name: "print".to_string(),
        args: vec![
            litexpr_string("Hello"),
            binary(BinaryExpr::Add, litexpr_int(1), litexpr_int(2)),
        ],
    };
    assert_eq!(call_complex_args.to_text(), "print(\"Hello\", (1 + 2))");
}
