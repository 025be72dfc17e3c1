use c2e::ast::{PrimitiveType, TypeQualifier, TypeQualifiers};

#[test]
fn test_primitive_type_as_ref() {
    let int_type = PrimitiveType::new("int");
    assert_eq!(int_type.as_ref(), "int");
}

#[test]
fn type_qualifiers_display() {
    let mut qualifiers = TypeQualifiers::default();
    assert_eq!(qualifiers.render(), "");

    qualifiers.insert(TypeQualifier::Const);
    assert_eq!(qualifiers.render(), "const");

    qualifiers.insert(TypeQualifier::Volatile);
    assert_eq!(qualifiers.render(), "const volatile");
}
