use superr::ast::Type;

#[test]
fn basic_types() {
    assert_eq!(Type::Int.to_text(), "int");
    assert_eq!(Type::Float.to_text(), "float");
    assert_eq!(Type::String.to_text(), "string");
    assert_eq!(Type::Char.to_text(), "char");
}

#[test]
fn custom_type() {
    assert_eq!(Type::Custom("MyType".to_string()).to_text(), "MyType");
}
