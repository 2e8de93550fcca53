use superr::ast::Stmt;

#[test]
fn break_continue() {
    assert_eq!(Stmt::Break.to_text(), "break;");
    assert_eq!(Stmt::Continue.to_text(), "continue;");
}
