use superr::ast::{Parameter, Type};

#[test]
fn basic_parameters() {
    let param_int = Parameter {
        name: "x".to_string(),
        ty: Type::Int,
    };
    assert_eq!(param_int.to_text(), "int x");

    let param_custom = Parameter {
        name: "obj".to_string(),
        ty: Type::Custom("MyClass".to_string()),
    };
    assert_eq!(param_custom.to_text(), "MyClass obj");
}
