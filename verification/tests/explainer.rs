use c2e::color::{Highlight, HighlightedText, HighlightedTextSegment};
use c2e::explainer::{article_for, explain_declaration, plural_suffix_for};
use c2e::parser::{parse, State};

fn seg(text: &str, highlight: Highlight) -> HighlightedTextSegment {
    HighlightedTextSegment::new(text, highlight)
}

fn plain(text: &str) -> HighlightedTextSegment {
    seg(text, Highlight::Plain)
}

/// Parse the first argument and assert that its explanation matches the
/// second argument.
fn run(expression: &str, expected: Vec<HighlightedTextSegment>) {
    let mut state = State::new();
    let decls = parse(expression, &mut state).unwrap();
    assert_eq!(
        decls.len(),
        1,
        "Expected exactly one declaration for input {expression}"
    );
    let result = explain_declaration(&decls[0]);
    assert_eq!(
        result.coalesced().0,
        expected,
        "Wrong output for input {expression}"
    );
}

#[test]
fn explain_primitive_var() {
    run(
        "int x",
        vec![
            plain("an "),
            seg("int", Highlight::PrimitiveType),
            plain(" named "),
            seg("x", Highlight::Ident),
        ],
    );
}

/// Ensures "a" and "an" are used appropriately.
#[test]
fn test_articles() {
    run(
        "int x",
        vec![
            plain("an "),
            seg("int", Highlight::PrimitiveType),
            plain(" named "),
            seg("x", Highlight::Ident),
        ],
    );
    run(
        "signed int x",
        vec![
            plain("a "),
            seg("signed int", Highlight::PrimitiveType),
            plain(" named "),
            seg("x", Highlight::Ident),
        ],
    );
}

#[test]
fn test_article_for() {
    assert_eq!(article_for(&plain("int")), "an ");
    assert_eq!(article_for(&plain("cow")), "a ");
    assert_eq!(article_for(&plain("")), "");
}

#[test]
fn test_make_plural() {
    assert_eq!(plural_suffix_for(&plain("cat")), "s");
    assert_eq!(plural_suffix_for(&plain("box")), "es");
    assert_eq!(plural_suffix_for(&plain("int")), "s");
    assert_eq!(plural_suffix_for(&plain("")), "");
}

#[test]
fn explain_ptr_to_primitive() {
    run(
        "int *p",
        vec![
            plain("a "),
            seg("pointer", Highlight::QuasiKeyword),
            plain(" named "),
            seg("p", Highlight::Ident),
            plain(" to an "),
            seg("int", Highlight::PrimitiveType),
        ],
    );
}

#[test]
fn explain_array_of_primitive() {
    run(
        "int arr[]",
        vec![
            plain("an "),
            seg("array", Highlight::QuasiKeyword),
            plain(" named "),
            seg("arr", Highlight::Ident),
            plain(" of "),
            seg("int", Highlight::PrimitiveType),
            plain("s"),
        ],
    );
}

#[test]
fn explain_array_of_primitive_with_size() {
    run(
        "int arr[10]",
        vec![
            plain("an "),
            seg("array", Highlight::QuasiKeyword),
            plain(" named "),
            seg("arr", Highlight::Ident),
            plain(" of "),
            seg("10", Highlight::Number),
            plain(" "),
            seg("int", Highlight::PrimitiveType),
            plain("s"),
        ],
    );
}

#[test]
fn explain_2d_array_of_primitive() {
    run(
        "int arr[10][20]",
        vec![
            plain("an "),
            seg("array", Highlight::QuasiKeyword),
            plain(" named "),
            seg("arr", Highlight::Ident),
            plain(" of "),
            seg("10", Highlight::Number),
            plain(" "),
            seg("arrays", Highlight::QuasiKeyword),
            plain(" of "),
            seg("20", Highlight::Number),
            plain(" "),
            seg("int", Highlight::PrimitiveType),
            plain("s"),
        ],
    );
}

#[test]
fn explain_nested_ptrs() {
    run(
        "char ***p",
        vec![
            plain("a "),
            seg("pointer", Highlight::QuasiKeyword),
            plain(" named "),
            seg("p", Highlight::Ident),
            plain(" to a "),
            seg("pointer", Highlight::QuasiKeyword),
            plain(" to a "),
            seg("pointer", Highlight::QuasiKeyword),
            plain(" to a "),
            seg("char", Highlight::PrimitiveType),
        ],
    );
}

#[test]
fn explain_array_of_ptrs() {
    run(
        "int *arr[10]",
        vec![
            plain("an "),
            seg("array", Highlight::QuasiKeyword),
            plain(" named "),
            seg("arr", Highlight::Ident),
            plain(" of "),
            seg("10", Highlight::Number),
            plain(" "),
            seg("pointers", Highlight::QuasiKeyword),
            plain(" to "),
            seg("int", Highlight::PrimitiveType),
            plain("s"),
        ],
    );
}

#[test]
fn explain_ptr_to_array() {
    run(
        "int (*p)[10]",
        vec![
            plain("a "),
            seg("pointer", Highlight::QuasiKeyword),
            plain(" named "),
            seg("p", Highlight::Ident),
            plain(" to an "),
            seg("array", Highlight::QuasiKeyword),
            plain(" of "),
            seg("10", Highlight::Number),
            plain(" "),
            seg("int", Highlight::PrimitiveType),
            plain("s"),
        ],
    );
}

#[test]
fn explain_function_with_no_params() {
    run(
        "void func()",
        vec![
            plain("a "),
            seg("function", Highlight::QuasiKeyword),
            plain(" named "),
            seg("func", Highlight::Ident),
            plain(" that takes no parameters and returns a "),
            seg("void", Highlight::PrimitiveType),
        ],
    );
}

#[test]
fn explain_array_of_functions() {
    run(
        "char *(*(*bar)[5])(int)",
        vec![
            plain("a "),
            seg("pointer", Highlight::QuasiKeyword),
            plain(" named "),
            seg("bar", Highlight::Ident),
            plain(" to an "),
            seg("array", Highlight::QuasiKeyword),
            plain(" of "),
            seg("5", Highlight::Number),
            plain(" "),
            seg("pointers", Highlight::QuasiKeyword),
            plain(" to "),
            seg("functions", Highlight::QuasiKeyword),
            plain(" that take (an "),
            seg("int", Highlight::PrimitiveType),
            plain(") and return a "),
            seg("pointer", Highlight::QuasiKeyword),
            plain(" to a "),
            seg("char", Highlight::PrimitiveType),
        ],
    );
}

#[test]
fn explain_qualifiers() {
    run(
        "const int x",
        vec![
            plain("a "),
            seg("const", Highlight::Qualifier),
            plain(" "),
            seg("int", Highlight::PrimitiveType),
            plain(" named "),
            seg("x", Highlight::Ident),
        ],
    );
    run(
        "volatile int x",
        vec![
            plain("a "),
            seg("volatile", Highlight::Qualifier),
            plain(" "),
            seg("int", Highlight::PrimitiveType),
            plain(" named "),
            seg("x", Highlight::Ident),
        ],
    );
    run(
        "int *const restrict x",
        vec![
            plain("a "),
            seg("const restrict", Highlight::Qualifier),
            plain(" "),
            seg("pointer", Highlight::QuasiKeyword),
            plain(" named "),
            seg("x", Highlight::Ident),
            plain(" to an "),
            seg("int", Highlight::PrimitiveType),
        ],
    );
    run(
        "const char *const str",
        vec![
            plain("a "),
            seg("const", Highlight::Qualifier),
            plain(" "),
            seg("pointer", Highlight::QuasiKeyword),
            plain(" named "),
            seg("str", Highlight::Ident),
            plain(" to a "),
            seg("const", Highlight::Qualifier),
            plain(" "),
            seg("char", Highlight::PrimitiveType),
        ],
    );
}

#[test]
fn explain_struct_var() {
    run(
        "struct point p",
        vec![
            plain("a "),
            seg("struct point", Highlight::UserDefinedType),
            plain(" named "),
            seg("p", Highlight::Ident),
        ],
    );
}

#[test]
fn explain_function_one_unnamed_param() {
    run(
        "int foo(const char *)",
        vec![
            plain("a "),
            seg("function", Highlight::QuasiKeyword),
            plain(" named "),
            seg("foo", Highlight::Ident),
            plain(" that takes (a "),
            seg("pointer", Highlight::QuasiKeyword),
            plain(" to a "),
            seg("const", Highlight::Qualifier),
            plain(" "),
            seg("char", Highlight::PrimitiveType),
            plain(") and returns an "),
            seg("int", Highlight::PrimitiveType),
        ],
    );
}

#[test]
fn explain_function_one_named_param() {
    run(
        "int foo(const char *bar)",
        vec![
            plain("a "),
            seg("function", Highlight::QuasiKeyword),
            plain(" named "),
            seg("foo", Highlight::Ident),
            plain(" that takes (a "),
            seg("pointer", Highlight::QuasiKeyword),
            plain(" named "),
            seg("bar", Highlight::Ident),
            plain(" to a "),
            seg("const", Highlight::Qualifier),
            plain(" "),
            seg("char", Highlight::PrimitiveType),
            plain(") and returns an "),
            seg("int", Highlight::PrimitiveType),
        ],
    );
}

#[test]
fn explain_anonymous_function() {
    run(
        "int (*)(const char *)",
        vec![
            plain("a "),
            seg("pointer", Highlight::QuasiKeyword),
            plain(" to a "),
            seg("function", Highlight::QuasiKeyword),
            plain(" that takes (a "),
            seg("pointer", Highlight::QuasiKeyword),
            plain(" to a "),
            seg("const", Highlight::Qualifier),
            plain(" "),
            seg("char", Highlight::PrimitiveType),
            plain(") and returns an "),
            seg("int", Highlight::PrimitiveType),
        ],
    );
}

#[test]
fn explain_function_two_params() {
    run(
        "int add(int a, int b)",
        vec![
            plain("a "),
            seg("function", Highlight::QuasiKeyword),
            plain(" named "),
            seg("add", Highlight::Ident),
            plain(" that takes (an "),
            seg("int", Highlight::PrimitiveType),
            plain(" named "),
            seg("a", Highlight::Ident),
            plain(" and an "),
            seg("int", Highlight::PrimitiveType),
            plain(" named "),
            seg("b", Highlight::Ident),
            plain(") and returns an "),
            seg("int", Highlight::PrimitiveType),
        ],
    );
}

#[test]
fn explain_function_three_params() {
    run(
        "void print(int a, char *b, float c)",
        vec![
            plain("a "),
            seg("function", Highlight::QuasiKeyword),
            plain(" named "),
            seg("print", Highlight::Ident),
            plain(" that takes (an "),
            seg("int", Highlight::PrimitiveType),
            plain(" named "),
            seg("a", Highlight::Ident),
            plain(", a "),
            seg("pointer", Highlight::QuasiKeyword),
            plain(" named "),
            seg("b", Highlight::Ident),
            plain(" to a "),
            seg("char", Highlight::PrimitiveType),
            plain(", and a "),
            seg("float", Highlight::PrimitiveType),
            plain(" named "),
            seg("c", Highlight::Ident),
            plain(") and returns a "),
            seg("void", Highlight::PrimitiveType),
        ],
    );
}

#[test]
fn explain_array_of_struct() {
    run(
        "struct point p[]",
        vec![
            plain("an "),
            seg("array", Highlight::QuasiKeyword),
            plain(" named "),
            seg("p", Highlight::Ident),
            plain(" of "),
            seg("struct point", Highlight::UserDefinedType),
            plain("s"),
        ],
    );
}

#[test]
fn explain_plural_qualifiers() {
    run(
        "char *const p[]",
        vec![
            plain("an "),
            seg("array", Highlight::QuasiKeyword),
            plain(" named "),
            seg("p", Highlight::Ident),
            plain(" of "),
            seg("const", Highlight::Qualifier),
            plain(" "),
            seg("pointers", Highlight::QuasiKeyword),
            plain(" to "),
            seg("char", Highlight::PrimitiveType),
            plain("s"),
        ],
    );
}

/// Anonymous typedefs are technically not valid C, but we handle them
/// gracefully.
#[test]
fn explain_anon_typedef() {
    run(
        "typedef char *",
        vec![
            plain("a type defined as a "),
            seg("pointer", Highlight::QuasiKeyword),
            plain(" to a "),
            seg("char", Highlight::PrimitiveType),
        ],
    );
}

#[test]
fn explain_typedef() {
    run(
        "typedef struct point point_t",
        vec![
            plain("a type named "),
            seg("point_t", Highlight::UserDefinedType),
            plain(" defined as a "),
            seg("struct point", Highlight::UserDefinedType),
        ],
    );
}

#[test]
fn explain_pointer_typedef() {
    run(
        "typedef const char *string",
        vec![
            plain("a type named "),
            seg("string", Highlight::UserDefinedType),
            plain(" defined as a "),
            seg("pointer", Highlight::QuasiKeyword),
            plain(" to a "),
            seg("const", Highlight::Qualifier),
            plain(" "),
            seg("char", Highlight::PrimitiveType),
        ],
    );
}

#[test]
fn explain_typedef_plural_end() {
    run(
        "typedef int nums[]",
        vec![
            plain("a type named "),
            seg("nums", Highlight::UserDefinedType),
            plain(" defined as an "),
            seg("array", Highlight::QuasiKeyword),
            plain(" of "),
            seg("int", Highlight::PrimitiveType),
            plain("s"),
        ],
    );
}

#[test]
fn explain_function_typedef() {
    run(
        "typedef int (*compare_t)(const void *, const void *)",
        vec![
            plain("a type named "),
            seg("compare_t", Highlight::UserDefinedType),
            plain(" defined as a "),
            seg("pointer", Highlight::QuasiKeyword),
            plain(" to a "),
            seg("function", Highlight::QuasiKeyword),
            plain(" that takes (a "),
            seg("pointer", Highlight::QuasiKeyword),
            plain(" to a "),
            seg("const", Highlight::Qualifier),
            plain(" "),
            seg("void", Highlight::PrimitiveType),
            plain(" and a "),
            seg("pointer", Highlight::QuasiKeyword),
            plain(" to a "),
            seg("const", Highlight::Qualifier),
            plain(" "),
            seg("void", Highlight::PrimitiveType),
            plain(") and returns an "),
            seg("int", Highlight::PrimitiveType),
        ],
    );
}
