use superr::ast::{BinaryExpr, Expr, Function, Literal, Parameter, Program, Stmt, Type};

fn lit_int(v: u32) -> Literal {
    Literal::Int(v)
}




fn litexpr_int(v: u32) -> Expr {
    Expr::Literal(lit_int(v))
}




fn binary(make: fn(Box<Expr>, Box<Expr>) -> BinaryExpr, l: Expr, r: Expr) -> Expr {
    Expr::Binary(make(Box::new(l), Box::new(r)))
}


#[test]
fn program_with_multiple_functions() {
    let program = Program {
        functions: vec![
            Function {
                name: "add".to_string(),
                parameters: vec![
                    Parameter {
                        name: "a".to_string(),
                        ty: Type::Int,
                    },
                    Parameter {
                        name: "b".to_string(),
                        ty: Type::Int,
                    },
                ],
                return_type: Some(Type::Int),
                body: Stmt::Return(Some(binary(
                    BinaryExpr::Add,
                    Expr::Identifier("a".to_string()),
                    Expr::Identifier("b".to_string()),
                ))),
            },
            Function {
                name: "main".to_string(),
                parameters: vec![],
                return_type: Some(Type::Int),
                body: Stmt::Block(vec![
                    Stmt::Expression(Expr::Call {
                        name: "print".to_string(),
                        args: vec![Expr::Call {
                            name: "add".to_string(),
                            args: vec![litexpr_int(2), litexpr_int(3)],
                        }],
                    }),
                    Stmt::Return(Some(litexpr_int(0))),
                ]),
            },
        ],
    };

    let result = program.to_text();

    assert!(result.contains("int add(int a, int b)"));
    assert!(result.contains("int main()"));
    assert!(result.contains("return (a + b);"));
    assert!(result.contains("print(add(2, 3));"));
    assert!(result.contains("return 0;"));
}

#[test]
fn empty_program() {
    let empty_program = Program { functions: vec![] };
    assert_eq!(empty_program.to_text(), "");
}
