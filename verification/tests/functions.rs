use superr::ast::{BinaryExpr, Expr, Function, Literal, Parameter, Stmt, Type};

fn lit_int(v: u32) -> Literal {
    Literal::Int(v)
}


fn lit_string(s: &str) -> Literal {
    Literal::String(s.to_string())
}


fn litexpr_int(v: u32) -> Expr {
    Expr::Literal(lit_int(v))
}


fn litexpr_string(s: &str) -> Expr {
    Expr::Literal(lit_string(s))
}


fn binary(make: fn(Box<Expr>, Box<Expr>) -> BinaryExpr, l: Expr, r: Expr) -> Expr {
    Expr::Binary(make(Box::new(l), Box::new(r)))
}


#[test]
fn function_with_return_type_and_parameters() {
    let function = Function {
        name: "factorial".to_string(),
        parameters: vec![Parameter {
            name: "x".to_string(),
            ty: Type::Int,
        }],
        return_type: Some(Type::Int),
        body: Stmt::Block(vec![
            Stmt::VarDecl {
                name: "result".to_string(),
                ty: Some("int".to_string()),
                value: Some(litexpr_int(1)),
            },
            Stmt::Return(Some(Expr::Identifier("result".to_string()))),
        ]),
    };

    let expected = "int factorial(int x) {\n    int result = 1;\n    return result;\n}";
    assert_eq!(function.to_text(), expected);
}

#[test]
fn function_without_return_type() {
    let void_function = Function {
        name: "print_hello".to_string(),
        parameters: vec![],
        return_type: None,
        body: Stmt::Expression(Expr::Call {
            name: "print".to_string(),
            args: vec![litexpr_string("Hello")],
        }),
    };
    assert_eq!(void_function.to_text(), "print_hello() print(\"Hello\");");
}

#[test]
fn function_with_multiple_parameters() {
    let multi_param_function = Function {
        name: "add".to_string(),
        parameters: vec![
            Parameter {
                name: "a".to_string(),
                ty: Type::Int,
            },
            Parameter {
                name: "b".to_string(),
                ty: Type::Int,
            },
        ],
        return_type: Some(Type::Int),
        body: Stmt::Return(Some(binary(
            BinaryExpr::Add,
            Expr::Identifier("a".to_string()),
            Expr::Identifier("b".to_string()),
        ))),
    };
    assert_eq!(
        multi_param_function.to_text(),
        "int add(int a, int b) return (a + b);"
    );
}
