//! End-to-end behavior: parse then explain, compared as plain text.

use c2e::color::PlainFormatter;
use c2e::explainer::explain_declaration;
use c2e::parser::{parse, State};

/// Parses one declaration and renders its explanation as plain text.
fn explain_plain(src: &str, state: &mut State) -> String {
    let decls = parse(src, state).unwrap();
    assert_eq!(decls.len(), 1, "expected one declaration for {src}");
    explain_declaration(&decls[0]).format_to_string(&PlainFormatter::new())
}

fn explain_fresh(src: &str) -> String {
    explain_plain(src, &mut State::new())
}

#[test]
fn end_to_end_examples() {
    assert_eq!(explain_fresh("int x"), "an int named x");
    assert_eq!(explain_fresh("int *p"), "a pointer named p to an int");
    assert_eq!(explain_fresh("int arr[10]"), "an array named arr of 10 ints");
    assert_eq!(
        explain_fresh("char *(*(*bar)[5])(int)"),
        "a pointer named bar to an array of 5 pointers to functions that take (an int) and return a pointer to a char"
    );
    assert_eq!(
        explain_fresh("typedef const char *string"),
        "a type named string defined as a pointer to a const char"
    );
}

/// Parenthesization changes the meaning: the two spellings must differ.
#[test]
fn parenthesization_changes_meaning() {
    let with_parens = explain_fresh("int (*p)[10]");
    let without = explain_fresh("int *p[10]");
    assert_eq!(with_parens, "a pointer named p to an array of 10 ints");
    assert_eq!(without, "an array named p of 10 pointers to ints");
    assert_ne!(with_parens, without);
}

/// Every builtin type spelling parses back to itself and explains as
/// "<article> <spelling> named foo".
#[test]
fn primitive_round_trip() {
    let cases = [
        ("unsigned long long int", "an"),
        ("unsigned long long", "an"),
        ("unsigned long int", "an"),
        ("unsigned short int", "an"),
        ("unsigned short", "an"),
        ("unsigned long", "an"),
        ("unsigned int", "an"),
        ("unsigned char", "an"),
        ("unsigned", "an"),
        ("signed long long int", "a"),
        ("signed long long", "a"),
        ("signed long int", "a"),
        ("signed long", "a"),
        ("signed short int", "a"),
        ("signed short", "a"),
        ("signed char", "a"),
        ("signed int", "a"),
        ("signed", "a"),
        ("long long int", "a"),
        ("long double _Complex", "a"),
        ("long double", "a"),
        ("long long", "a"),
        ("long int", "a"),
        ("long", "a"),
        ("short int", "a"),
        ("short", "a"),
        ("float _Complex", "a"),
        ("float", "a"),
        ("double _Complex", "a"),
        ("double", "a"),
        ("void", "a"),
        ("char", "a"),
        ("int", "an"),
        ("_Bool", "a"),
    ];
    for (spelling, article) in cases {
        let mut state = State::new();
        let src = format!("{spelling} foo");
        let decls = parse(&src, &mut state).unwrap();
        assert_eq!(decls.len(), 1);
        match &decls[0].base_type.1 {
            c2e::ast::Type::Primitive(p) => assert_eq!(p.as_ref(), spelling),
            other => panic!("expected a primitive type for {spelling}, got {other:?}"),
        }
        assert_eq!(
            explain_declaration(&decls[0]).format_to_string(&PlainFormatter::new()),
            format!("{article} {spelling} named foo")
        );
    }
}

/// Typedef gating: a name is accepted as a type only after a typedef naming
/// it was parsed with the same state.
#[test]
fn typedef_gating_across_calls() {
    let mut state = State::new();
    let errs = parse("foo x", &mut state).unwrap_err();
    assert_eq!(errs.len(), 1);
    assert_eq!((errs[0].start(), errs[0].end()), (0, 3));
    assert_eq!(
        errs[0].to_message(),
        "at 0..3: \"foo\" is used as a type but has not been defined"
    );

    assert_eq!(
        explain_plain("typedef int foo;", &mut state),
        "a type named foo defined as an int"
    );
    assert_eq!(explain_plain("foo x", &mut state), "a foo named x");
}

/// A typedef registered earlier in the same input is usable later in it.
#[test]
fn typedef_gating_within_one_input() {
    let mut state = State::new();
    let decls = parse("typedef int foo; foo x", &mut state).unwrap();
    assert_eq!(decls.len(), 2);
    assert_eq!(
        explain_declaration(&decls[1]).format_to_string(&PlainFormatter::new()),
        "a foo named x"
    );
}

/// The naive pluralizer appends "es" after s/x/z.
#[test]
fn plural_suffix_es_after_x() {
    assert_eq!(
        explain_fresh("struct box p[]"),
        "an array named p of struct boxes"
    );
}

/// Leading and trailing semicolons around declarations are permitted.
#[test]
fn leading_and_trailing_semicolons() {
    let mut state = State::new();
    let decls = parse(";; int a ;;", &mut state).unwrap();
    assert_eq!(decls.len(), 1);
    let mut state = State::new();
    assert_eq!(parse(";", &mut state).unwrap(), vec![]);
}

/// The `(void)` parameter list means no parameters, as does `()`.
#[test]
fn void_parameter_list() {
    assert_eq!(
        explain_fresh("int f(void)"),
        "a function named f that takes no parameters and returns an int"
    );
    assert_eq!(
        explain_fresh("int f()"),
        "a function named f that takes no parameters and returns an int"
    );
}

/// A trailing comma in a parameter list is permitted.
#[test]
fn trailing_comma_in_params() {
    assert_eq!(
        explain_fresh("int f(int a,)"),
        "a function named f that takes (an int named a) and returns an int"
    );
}

/// Qualifiers render in the canonical order however they were written.
#[test]
fn qualifier_canonical_order() {
    assert_eq!(
        explain_fresh("volatile const int x"),
        "a const volatile int named x"
    );
}

/// The declared name survives to the end when the declarator is a bare
/// identifier, and is absent for an anonymous declarator.
#[test]
fn name_placement_at_top_level() {
    assert_eq!(explain_fresh("int"), "an int");
    assert_eq!(explain_fresh("unsigned x"), "an unsigned named x");
}

#[test]
fn explain_empty() {
    let output = c2e::explainer::explain(&PlainFormatter::new(), "").unwrap();
    assert_eq!(output, "");
}

#[test]
fn explain_success_single() {
    let output = c2e::explainer::explain(&PlainFormatter::new(), "int main()").unwrap();
    assert_eq!(
        output,
        "a function named main that takes no parameters and returns an int"
    );
}

#[test]
fn explain_success_multiple() {
    let output = c2e::explainer::explain(&PlainFormatter::new(), "int main(); int foo(int a);").unwrap();
    assert_eq!(
        output,
        "a function named main that takes no parameters and returns an int;\n\na function named foo that takes (an int named a) and returns an int;"
    );
}

#[test]
fn explain_error() {
    let errors = c2e::explainer::explain(&PlainFormatter::new(), "int main(").unwrap_err();
    assert_eq!(errors.len(), 1);
    assert!(errors[0].contains("expected"));
}

/// Whitespace may stand between a declarator and its suffixes.
#[test]
fn suffix_after_whitespace() {
    assert_eq!(
        explain_fresh("int arr [2] [3]"),
        "an array named arr of 2 arrays of 3 ints"
    );
}

/// A parenthesized declarator may itself carry suffixes.
#[test]
fn parenthesized_declarator_with_suffixes() {
    assert_eq!(
        explain_fresh("int (*(*p)[4])[5]"),
        "a pointer named p to an array of 4 pointers to arrays of 5 ints"
    );
}
