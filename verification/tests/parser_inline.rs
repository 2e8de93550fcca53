use superr::ast::{BinaryExpr, Expr, Literal, Stmt, Type};
use superr::lexer::Lexer;
use superr::parser::Parser;

#[test]
fn test_parse_simple_expression() {
    let source = "2 + 3 * 4";
    let lexer = Lexer::new(source);
    let mut parser = Parser::new(lexer);

    let expr = parser.parse_expression().unwrap();

    // Should parse as: 2 + (3 * 4)
    match expr {
        Expr::Binary(BinaryExpr::Add(left, right)) => {
            assert!(matches!(left.as_ref(), Expr::Literal(Literal::Int(2))));
            assert!(matches!(
                right.as_ref(),
                Expr::Binary(BinaryExpr::Multiply(_, _))
            ));
        }
        _ => panic!("Expected binary addition"),
    }
}

#[test]
fn test_parse_function_call() {
    let source = "factorial(5)";
    let lexer = Lexer::new(source);
    let mut parser = Parser::new(lexer);

    let expr = parser.parse_expression().unwrap();

    match expr {
        Expr::Call { name, args } => {
            assert_eq!(name, "factorial");
            assert_eq!(args.len(), 1);
            assert!(matches!(args[0], Expr::Literal(Literal::Int(5))));
        }
        _ => panic!("Expected function call"),
    }
}

#[test]
fn test_parse_var_declaration() {
    let source = "int x = 42;";
    let lexer = Lexer::new(source);
    let mut parser = Parser::new(lexer);

    let stmt = parser.parse_statement().unwrap();

    match stmt {
        Stmt::VarDecl { name, ty, value } => {
            assert_eq!(name, "x");
            assert_eq!(ty, Some("int".to_string()));
            assert!(matches!(value, Some(Expr::Literal(Literal::Int(42)))));
        }
        _ => panic!("Expected variable declaration"),
    }
}

#[test]
fn test_parse_factorial_function() {
    let source = "\nint factorial(int x) {\n    int y = 1;\n\n    for(int i in range(2, x + 1)) {\n        y = y * i;\n    }\n\n    return y;\n}\n";
    let lexer = Lexer::new(source);
    let mut parser = Parser::new(lexer);

    let program = parser.parse_program().unwrap();

    assert_eq!(program.functions.len(), 1);

    let function = &program.functions[0];
    assert_eq!(function.name, "factorial");
    assert_eq!(function.parameters.len(), 1);
    assert_eq!(function.parameters[0].name, "x");
    assert!(matches!(function.return_type, Some(Type::Int)));

    // The body should be a block
    assert!(matches!(function.body, Stmt::Block(_)));
}
