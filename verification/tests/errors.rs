use c2e::parser::{parse, State};

fn errors_of(src: &str) -> Vec<c2e::parser::error::ParseError> {
    let mut state = State::new();
    parse(src, &mut state).unwrap_err()
}

#[test]
fn expected_label() {
    let errs = errors_of(" ");
    assert_eq!(errs.len(), 1);
    assert_eq!(
        errs[0].to_message(),
        "at 1..1: expected anything, type qualifier, or type, but found end of input"
    );
}

#[test]
fn expected_one_option() {
    let errs = errors_of("int foo[0");
    assert_eq!(errs.len(), 1);
    assert_eq!(
        errs[0].to_message(),
        "at 9..9: expected ']', but found end of input"
    );
}

#[test]
fn expected_anything() {
    let errs = errors_of("int f(");
    assert_eq!(errs.len(), 1);
    assert_eq!(
        errs[0].to_message(),
        "at 6..6: expected anything, function parameter, or ')', but found end of input"
    );
}

#[test]
fn unexpected_token_after_declaration() {
    let errs = errors_of("int x = 5;");
    assert_eq!(errs.len(), 1);
    assert_eq!(
        errs[0].to_message(),
        "at 6..7: expected '[', '(', or end of input, but found '='"
    );
}

#[test]
fn undefined_type_error() {
    let errs = errors_of("foo x");
    assert_eq!(errs.len(), 1);
    assert_eq!((errs[0].start(), errs[0].end()), (0, 3));
    assert_eq!(
        errs[0].to_message(),
        "at 0..3: \"foo\" is used as a type but has not been defined"
    );
}

#[test]
fn missing_record_tag() {
    let errs = errors_of("struct ;");
    assert_eq!(errs.len(), 1);
    assert_eq!(
        errs[0].to_message(),
        "at 7..8: expected identifier, but found ';'"
    );
}
