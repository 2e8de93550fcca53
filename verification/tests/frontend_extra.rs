use superr::ast::{Expr, Literal, Stmt};
use superr::compiler::Compiler;
use superr::instruction::Instruction;
use superr::lexer::Lexer;
use superr::parser::Parser;
use superr::token::{lookup, Keyword};

#[test]
fn keyword_lookup_is_exact() {
    assert_eq!(lookup("if"), Some(Keyword::If));
    assert_eq!(lookup("else"), Some(Keyword::Else));
    assert_eq!(lookup("for"), Some(Keyword::For));
    assert_eq!(lookup("while"), Some(Keyword::While));
    assert_eq!(lookup("return"), Some(Keyword::Return));
    assert_eq!(lookup("break"), Some(Keyword::Break));
    assert_eq!(lookup("continue"), Some(Keyword::Continue));
    assert_eq!(lookup("in"), Some(Keyword::In));
    assert_eq!(lookup("int"), None);
    assert_eq!(lookup("If"), None);
    assert_eq!(lookup(""), None);
}

#[test]
fn compiler_emits_the_placeholder_preamble() {
    let lexer = Lexer::new("int main() { return 0; }");
    let mut parser = Parser::new(lexer);
    let program = parser.parse_program().unwrap();
    let mut compiler = Compiler::new(program);
    compiler.compile();
    assert_eq!(
        compiler.assembly,
        vec![
            Instruction::Inc(0),
            Instruction::Inc(0),
            Instruction::Inc(1),
            Instruction::Inc(1),
        ]
    );
}

#[test]
fn parsed_statement_prints_back() {
    let lexer = Lexer::new("x = 1 + 2;");
    let mut parser = Parser::new(lexer);
    let stmt = parser.parse_statement().unwrap();
    assert_eq!(stmt.to_text(), "x = (1 + 2);");
}

#[test]
fn parser_reports_errors_instead_of_panicking() {
    let lexer = Lexer::new("int main( {");
    let mut parser = Parser::new(lexer);
    assert!(parser.parse_program().is_err());

    let lexer = Lexer::new("");
    let mut parser = Parser::new(lexer);
    let program = parser.parse_program().unwrap();
    assert_eq!(program.functions.len(), 0);
}

#[test]
fn string_literal_statement_round_trip() {
    let lexer = Lexer::new("print(\"Hello\");");
    let mut parser = Parser::new(lexer);
    let stmt = parser.parse_statement().unwrap();
    match &stmt {
        Stmt::Expression(Expr::Call { name, args }) => {
            assert_eq!(name, "print");
            assert!(matches!(&args[0], Expr::Literal(Literal::String(s)) if s == "Hello"));
        }
        _ => panic!("Expected a call statement"),
    }
    assert_eq!(stmt.to_text(), "print(\"Hello\");");
}
