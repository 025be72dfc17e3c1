use c2e::ast::{Declaration, Declarator, PrimitiveType, QualifiedType, RecordKind, Type,
    TypeQualifier, TypeQualifiers};
use c2e::parser::{parse, State};

fn quals(list: &[TypeQualifier]) -> TypeQualifiers {
    let mut q = TypeQualifiers::new();
    for &item in list {
        q.insert(item);
    }
    q
}

/// Qualified version of [`primitive`].
fn qprimitive(qualifiers: &[TypeQualifier], ty: &str, declarator: Declarator) -> Declaration {
    Declaration {
        base_type: QualifiedType(quals(qualifiers), Type::Primitive(PrimitiveType::new(ty))),
        declarator,
    }
}

fn primitive(ty: &str, declarator: Declarator) -> Declaration {
    qprimitive(&[], ty, declarator)
}

fn qrecord(
    qualifiers: &[TypeQualifier],
    kind: RecordKind,
    name: &str,
    declarator: Declarator,
) -> Declaration {
    Declaration {
        base_type: QualifiedType(quals(qualifiers), Type::Record(kind, name.to_string())),
        declarator,
    }
}

fn anon() -> Declarator {
    Declarator::Anonymous
}

fn qptr(qualifiers: &[TypeQualifier], val: Declarator) -> Declarator {
    Declarator::Ptr(Box::new(val), quals(qualifiers))
}

fn ptr(val: Declarator) -> Declarator {
    qptr(&[], val)
}

fn ident(val: &str) -> Declarator {
    Declarator::Ident(val.to_string())
}

fn array(d: Declarator, size: Option<usize>) -> Declarator {
    Declarator::Array(Box::new(d), size)
}

fn func(f: Declarator, args: Vec<Declaration>) -> Declarator {
    Declarator::Function { func: Box::new(f), params: args }
}

fn run(src: &str) -> Vec<Declaration> {
    let mut state = State::new();
    parse(src, &mut state).unwrap()
}

#[test]
fn test_basic_int_var() {
    let expected = primitive("int", ident("myvar123"));
    assert_eq!(vec![expected], run("int myvar123"));
}

#[test]
fn test_basic_int_ptr_vars() {
    let expected = vec![primitive("int", ptr(ident("p")))];
    let cases = ["int *p", "int*p", "int* p", "int *\np"];
    for case in cases {
        assert_eq!(expected, run(case));
    }
}

#[test]
fn test_nested_ptrs() {
    let expected = primitive("char", ptr(ptr(ptr(ident("p")))));
    assert_eq!(vec![expected], run("char ***p"));
}

#[test]
fn test_record_vars() {
    let cases = [
        ("struct foo bar", RecordKind::Struct),
        ("enum foo bar", RecordKind::Enum),
        ("union foo bar", RecordKind::Union),
    ];
    for (input, record_kind) in cases {
        let expected = qrecord(&[], record_kind, "foo", ident("bar"));
        assert_eq!(vec![expected], run(input));
    }
}

#[test]
fn test_all_primitive_types() {
    let cases = [
        "unsigned long long int",
        "unsigned long long",
        "unsigned long int",
        "unsigned short int",
        "unsigned short",
        "unsigned long",
        "unsigned int",
        "unsigned char",
        "unsigned",
        "signed long long int",
        "signed long long",
        "signed long int",
        "signed long",
        "signed short int",
        "signed short",
        "signed char",
        "signed int",
        "signed",
        "long long int",
        "long double _Complex",
        "long double",
        "long long",
        "long int",
        "long",
        "short int",
        "short",
        "float _Complex",
        "float",
        "double _Complex",
        "double",
        "void",
        "char",
        "int",
        "_Bool",
    ];
    for ty in cases {
        let expected = primitive(ty, ident("foo"));
        let src = format!("{ty} foo");
        assert_eq!(vec![expected], run(&src));
    }
}

#[test]
fn test_array_declarator_no_size() {
    let expected = primitive("int", array(ptr(ident("foo")), None));
    assert_eq!(vec![expected], run("int (*foo)[]"));
}

#[test]
fn test_array_declarator_with_size() {
    let expected = primitive("int", array(ptr(ident("foo")), Some(10)));
    assert_eq!(vec![expected], run("int (*foo)[10]"));
}

#[test]
fn test_multi_dimen_array_and_ptr() {
    let expected = primitive("char", ptr(array(array(ident("foo"), Some(3)), Some(2))));
    assert_eq!(vec![expected], run("char *foo[3][2]"));
}

#[test]
fn test_function_no_args() {
    let expected = primitive("int", func(ident("foo"), vec![]));
    assert_eq!(vec![expected], run("int foo()"));
}

#[test]
fn test_function_single_unnamed_arg() {
    let expected = primitive("int", func(ident("foo"), vec![primitive("int", anon())]));
    assert_eq!(vec![expected], run("int foo(int)"));
}

#[test]
fn test_function_single_named_arg() {
    let expected = primitive("int", func(ident("foo"), vec![primitive("int", ident("bar"))]));
    assert_eq!(vec![expected], run("int foo(int bar)"));
}

#[test]
fn test_function_multiple_named_args() {
    let expected = primitive(
        "int",
        ptr(func(
            ident("foo"),
            vec![
                primitive("int", ident("bar")),
                primitive("char", ident("baz")),
            ],
        )),
    );
    assert_eq!(vec![expected], run("int *foo(int bar, char baz)"));
}

#[test]
fn parse_qualified_primitive() {
    assert_eq!(
        vec![qprimitive(&[TypeQualifier::Const], "int", ident("x"))],
        run("const int x")
    );
}

#[test]
fn parse_const_char_ptr() {
    assert_eq!(
        vec![qprimitive(&[TypeQualifier::Const], "char", ptr(ident("str")))],
        run("const char *str")
    );
}

#[test]
fn parse_qualified_ptr() {
    assert_eq!(
        vec![qprimitive(
            &[TypeQualifier::Const],
            "int",
            qptr(&[TypeQualifier::Volatile], ident("x"))
        )],
        run("const int *volatile x")
    );
}

#[test]
fn parse_struct_var() {
    assert_eq!(
        vec![qrecord(
            &[TypeQualifier::Const],
            RecordKind::Struct,
            "foo",
            ident("bar")
        )],
        run("const struct foo bar")
    );
}

#[test]
fn parse_complex_1() {
    assert_eq!(
        vec![primitive(
            "void",
            func(
                ptr(ident("cb")),
                vec![qrecord(&[], RecordKind::Struct, "foo", ptr(anon()))]
            )
        )],
        run("void (*cb)(struct foo *)")
    );
}

#[test]
fn parse_complex_2() {
    let expected = qprimitive(
        &[TypeQualifier::Const],
        "char",
        ptr(func(
            ptr(ident("func")),
            vec![
                qprimitive(
                    &[],
                    "void",
                    func(
                        ptr(ident("cb")),
                        vec![qrecord(&[], RecordKind::Struct, "foo", ptr(anon()))],
                    ),
                ),
                primitive("int", anon()),
                qprimitive(
                    &[TypeQualifier::Const],
                    "char",
                    qptr(&[TypeQualifier::Restrict], ident("my_str")),
                ),
            ],
        )),
    );
    assert_eq!(
        vec![expected],
        run("const char *(*func)(void (*cb)(struct foo *), int, const char *restrict my_str)")
    );
}

#[test]
fn parse_invalid_array_length() {
    let mut state = State::new();
    let errors = parse("int arr[x]", &mut state).unwrap_err();
    assert_eq!(errors.len(), 1, "expected one error");
    assert_eq!((errors[0].start(), errors[0].end()), (8, 9), "error position mismatch");
}

#[test]
fn parse_out_of_bounds_array_length() {
    let src = format!("int arr[{}0]", usize::MAX);
    let mut state = State::new();
    let errors = parse(&src, &mut state).unwrap_err();
    assert_eq!(errors.len(), 1, "expected one error");
    assert_eq!((errors[0].start(), errors[0].end()), (8, 29), "error position mismatch");
    assert_eq!(
        errors[0].to_message(),
        "at 8..29: number too large to fit in target type"
    );
}

#[test]
fn parse_multiple_declarations() {
    let expected = vec![
        primitive("int", ident("a")),
        qprimitive(&[TypeQualifier::Const], "char", ident("b")),
        qrecord(&[], RecordKind::Struct, "foo", ident("c")),
    ];

    let src = "int a; const char b; struct foo c;";
    assert_eq!(expected, run(src));

    // Same test with extra semicolons
    let src = "int a; const char b;;; struct foo c;";
    assert_eq!(expected, run(src));
}

#[test]
fn parse_empty() {
    assert_eq!(run(""), vec![]);
}

#[test]
fn parse_typedef_declaration() {
    let expected = qprimitive(&[TypeQualifier::Typedef], "int", ident("foo"));
    assert_eq!(vec![expected], run("typedef int foo"));
}

#[test]
fn parse_typedef_reference() {
    let expected = Declaration {
        base_type: QualifiedType(
            quals(&[TypeQualifier::Const]),
            Type::Custom("foo".to_string()),
        ),
        declarator: ptr(ident("bar")),
    };
    let mut state = State::new();
    state.register("foo".to_string());
    assert_eq!(vec![expected], parse("const foo *bar", &mut state).unwrap());
}
