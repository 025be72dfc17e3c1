use c2e::color::{Highlight, HighlightedText, HighlightedTextSegment, PlainFormatter};

#[test]
fn segment_new() {
    let segment = HighlightedTextSegment::new("Hello, world!", Highlight::Ident);
    assert_eq!(segment.text, "Hello, world!");
    assert_eq!(segment.highlight, Highlight::Ident);
}

#[test]
fn segment_from_string() {
    let segment: HighlightedTextSegment = String::from("hello").into();
    assert_eq!(segment.text, "hello");
    assert_eq!(segment.highlight, Highlight::Plain);
}

#[test]
fn text_new() {
    let text = HighlightedText::new();
    assert_eq!(text.0, Vec::new());
}

#[test]
fn text_getters() {
    let text = HighlightedText::from(vec![
        HighlightedTextSegment::new("Hello, ", Highlight::Ident),
        HighlightedTextSegment::new("world!", Highlight::PrimitiveType),
    ]);
    assert_eq!(text.len(), 2);
    assert_eq!(text.segment(0).text, "Hello, ");
    assert_eq!(text.segment(1).text, "world!");
}

#[test]
fn format_to_string() {
    let text = HighlightedText::from(vec![
        HighlightedTextSegment::new("Hello, ", Highlight::Ident),
        HighlightedTextSegment::new("world!", Highlight::PrimitiveType),
    ]);
    let formatter = PlainFormatter::new();
    let s = text.format_to_string(&formatter);
    assert_eq!(s, "Hello, world!");
}

#[test]
fn text_from_string() {
    let mut text: HighlightedText = String::from("this is an ").into();
    // Create a string so we have a non-static lifetime.
    let ty = String::from("int");
    text.push(HighlightedTextSegment::new(&ty, Highlight::PrimitiveType));
    text.push(HighlightedTextSegment::new(" named ", Highlight::Plain));
    text.push(HighlightedTextSegment::new("foo", Highlight::Ident));
    assert_eq!(
        text.format_to_string(&PlainFormatter::new()),
        "this is an int named foo"
    );
}

#[test]
fn text_push_str_melts_into_plain_tail() {
    let mut text = HighlightedText::new();
    text.push_str("a ");
    text.push_str("pointer");
    assert_eq!(text.len(), 1);
    assert_eq!(text.segment(0).text, "a pointer");

    text.push(HighlightedTextSegment::new("int", Highlight::PrimitiveType));
    text.push_str("s");
    assert_eq!(text.len(), 3);
    assert_eq!(text.segment(2).text, "s");
    assert_eq!(text.segment(2).highlight, Highlight::Plain);
}

#[test]
fn text_coalesced_merges_equal_tags() {
    let text = HighlightedText::from(vec![
        HighlightedTextSegment::new("a ", Highlight::Plain),
        HighlightedTextSegment::new("b ", Highlight::Plain),
        HighlightedTextSegment::new("c", Highlight::Ident),
        HighlightedTextSegment::new("d", Highlight::Ident),
        HighlightedTextSegment::new("e", Highlight::Plain),
    ]);
    let merged = text.coalesced();
    assert_eq!(
        merged,
        HighlightedText::from(vec![
            HighlightedTextSegment::new("a b ", Highlight::Plain),
            HighlightedTextSegment::new("cd", Highlight::Ident),
            HighlightedTextSegment::new("e", Highlight::Plain),
        ])
    );
}
