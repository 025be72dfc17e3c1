//! Parser for C declarations: a recursive-descent reading of the grammar in
//! [`grammar`], verified to compute exactly those specification functions.

use vstd::prelude::*;

pub mod error;
pub mod grammar;

use crate::ast::{view_decls, Declaration, Declarator, PrimitiveType, QualifiedType, RecordKind,
    Type, TypeQualifier, TypeQualifiers};
use crate::lexical::{digits_end, ident_at, parse_number, skip_ws, span_eq};
use crate::parser::error::{patterns_view, ErrorReason, Label, ParseError, Pattern};
use crate::parser::grammar::{sp_atom, sp_declaration, sp_declarator, sp_err_expected,
    sp_err_overflow, sp_err_undefined_type, sp_expected_after_decl, sp_expected_param,
    sp_expected_type, sp_function_params, sp_item, sp_mark_typedef, sp_match_word,
    sp_match_words, sp_next_pos, sp_param_err, sp_param_list, sp_parse, sp_primitive,
    sp_primitive_from, sp_program_from, sp_program_tail, sp_qualifiers, sp_state_contains,
    sp_suffixes, sp_type, spelling_text, spelling_words};

verus! {

broadcast use vstd::seq::axiom_seq_index_decreases, vstd::std_specs::vec::axiom_vec_decreases_to_view;

/// Parse-time state: the identifiers introduced by `typedef` so far.  It is
/// seeded empty and grows as typedef declarations are consumed; reusing one
/// state across calls carries typedef names from one input to the next.
#[derive(Debug, Clone, PartialEq, Eq)]
pub struct State {
    pub custom_types: Vec<String>,
}

impl View for State {
    type V = Seq<Seq<char>>;

    open spec fn view(&self) -> Seq<Seq<char>> {
        Seq::new(self.custom_types@.len(), |i: int|
            if 0 <= i < self.custom_types@.len() {
                self.custom_types@[i]@
            } else {
                vstd::pervasive::arbitrary()
            })
    }
}

impl State {
    /// An empty registry.
    pub fn new() -> (r: State)
        ensures
            r@ == Seq::<Seq<char>>::empty(),
    {
        let r = State { custom_types: Vec::new() };
        proof {
            assert(r@ =~= Seq::<Seq<char>>::empty());
        }
        r
    }

    /// Registers a custom type name.
    pub fn register(&mut self, name: String)
        ensures
            final(self)@ == old(self)@.push(name@),
    {
        self.custom_types.push(name);
        proof {
            assert(final(self)@ =~= old(self)@.push(name@));
        }
    }

    /// Whether the span `s[start..end]` spells a registered name.
    fn contains_span(&self, s: &str, start: usize, end: usize) -> (r: bool)
        requires
            start <= end <= s@.len(),
        ensures
            r == sp_state_contains(self@, s@.subrange(start as int, end as int)),
    {
        let n = self.custom_types.len();
        let mut i: usize = 0;
        while i < n
            invariant
                0 <= i <= n,
                n == self@.len(),
                start <= end <= s@.len(),
                forall|k: int| 0 <= k < i ==> #[trigger] self@[k] != s@.subrange(
                    start as int,
                    end as int,
                ),
            decreases n - i,
        {
            if span_eq(s, start, end, self.custom_types[i].as_str()) {
                proof {
                    assert(self@[i as int] == s@.subrange(start as int, end as int));
                }
                return true;
            }
            i = i + 1;
        }
        false
    }
}

impl Default for State {
    /// An empty registry.
    fn default() -> (r: State)
        ensures
            r@ == Seq::<Seq<char>>::empty(),
    {
        State::new()
    }
}

/// Builds the error for an unexpected token (or end of input) at `p`.
fn err_expected(s: &str, p: usize, expected: Vec<Pattern>) -> (r: ParseError)
    requires
        p <= s@.len(),
    ensures
        r@ == sp_err_expected(s@, p as int, patterns_view(expected@)),
{
    let r = if p < s.unicode_len() {
        let t = s.substring_char(p, p + 1).to_owned();
        ParseError { start: p, end: p + 1, reason: ErrorReason::Expected { expected, found: Some(t) } }
    } else {
        ParseError { start: p, end: p, reason: ErrorReason::Expected { expected, found: None } }
    };
    proof {
        assert(r@ =~~= sp_err_expected(s@, p as int, patterns_view(expected@)));
    }
    r
}

/// The alternatives reported where a type should begin.
fn expected_type_patterns() -> (r: Vec<Pattern>)
    ensures
        patterns_view(r@) == sp_expected_type(),
{
    let r = vec![
        Pattern::Anything,
        Pattern::Label(Label::TypeQualifier),
        Pattern::Label(Label::Type),
    ];
    proof {
        assert(patterns_view(r@) =~= sp_expected_type());
    }
    r
}

/// One keyword: the identifier at the position must spell exactly `w`.
fn match_word(s: &str, pos: usize, w: &str) -> (r: Option<usize>)
    requires
        pos <= s@.len(),
    ensures
        match r {
            Some(e) => sp_match_word(s@, pos as int, w@) == Some(e as int) && pos < e <= s@.len(),
            None => sp_match_word(s@, pos as int, w@) is None,
        },
{
    let p = skip_ws(s, pos);
    match ident_at(s, p) {
        Some(e) => if span_eq(s, p, e, w) {
            Some(e)
        } else {
            None
        },
        None => None,
    }
}

/// The keyword sequence of the `i`-th builtin type spelling.
fn spelling_parts(i: usize) -> (r: Vec<&'static str>)
    requires
        i < 34,
    ensures
        r.deep_view() == spelling_words(i as int),
        r@.len() > 0,
{
    let r: Vec<&'static str> = if i == 0 { vec!["unsigned", "long", "long", "int"] }
    else if i == 1 { vec!["unsigned", "long", "long"] }
    else if i == 2 { vec!["unsigned", "long", "int"] }
    else if i == 3 { vec!["unsigned", "short", "int"] }
    else if i == 4 { vec!["unsigned", "short"] }
    else if i == 5 { vec!["unsigned", "long"] }
    else if i == 6 { vec!["unsigned", "int"] }
    else if i == 7 { vec!["unsigned", "char"] }
    else if i == 8 { vec!["unsigned"] }
    else if i == 9 { vec!["signed", "long", "long", "int"] }
    else if i == 10 { vec!["signed", "long", "long"] }
    else if i == 11 { vec!["signed", "long", "int"] }
    else if i == 12 { vec!["signed", "long"] }
    else if i == 13 { vec!["signed", "short", "int"] }
    else if i == 14 { vec!["signed", "short"] }
    else if i == 15 { vec!["signed", "char"] }
    else if i == 16 { vec!["signed", "int"] }
    else if i == 17 { vec!["signed"] }
    else if i == 18 { vec!["long", "long", "int"] }
    else if i == 19 { vec!["long", "double", "_Complex"] }
    else if i == 20 { vec!["long", "double"] }
    else if i == 21 { vec!["long", "long"] }
    else if i == 22 { vec!["long", "int"] }
    else if i == 23 { vec!["long"] }
    else if i == 24 { vec!["short", "int"] }
    else if i == 25 { vec!["short"] }
    else if i == 26 { vec!["float", "_Complex"] }
    else if i == 27 { vec!["float"] }
    else if i == 28 { vec!["double", "_Complex"] }
    else if i == 29 { vec!["double"] }
    else if i == 30 { vec!["void"] }
    else if i == 31 { vec!["char"] }
    else if i == 32 { vec!["int"] }
    else { vec!["_Bool"] };
    proof {
        assert(r.deep_view() =~~= spelling_words(i as int));
    }
    r
}

/// The rendered spelling of the `i`-th builtin type.
fn spelling_name(i: usize) -> (r: &'static str)
    requires
        i < 34,
    ensures
        r@ == spelling_text(i as int),
{
    if i == 0 { "unsigned long long int" }
    else if i == 1 { "unsigned long long" }
    else if i == 2 { "unsigned long int" }
    else if i == 3 { "unsigned short int" }
    else if i == 4 { "unsigned short" }
    else if i == 5 { "unsigned long" }
    else if i == 6 { "unsigned int" }
    else if i == 7 { "unsigned char" }
    else if i == 8 { "unsigned" }
    else if i == 9 { "signed long long int" }
    else if i == 10 { "signed long long" }
    else if i == 11 { "signed long int" }
    else if i == 12 { "signed long" }
    else if i == 13 { "signed short int" }
    else if i == 14 { "signed short" }
    else if i == 15 { "signed char" }
    else if i == 16 { "signed int" }
    else if i == 17 { "signed" }
    else if i == 18 { "long long int" }
    else if i == 19 { "long double _Complex" }
    else if i == 20 { "long double" }
    else if i == 21 { "long long" }
    else if i == 22 { "long int" }
    else if i == 23 { "long" }
    else if i == 24 { "short int" }
    else if i == 25 { "short" }
    else if i == 26 { "float _Complex" }
    else if i == 27 { "float" }
    else if i == 28 { "double _Complex" }
    else if i == 29 { "double" }
    else if i == 30 { "void" }
    else if i == 31 { "char" }
    else if i == 32 { "int" }
    else { "_Bool" }
}

/// A sequence of keywords in order.
fn match_keywords(s: &str, pos: usize, words: &Vec<&'static str>) -> (r: Option<usize>)
    requires
        pos <= s@.len(),
    ensures
        match r {
            Some(e) => sp_match_words(s@, pos as int, words.deep_view()) == Some(e as int) && pos
                <= e <= s@.len() && (words@.len() > 0 ==> pos < e),
            None => sp_match_words(s@, pos as int, words.deep_view()) is None,
        },
{
    let ghost wv = words.deep_view();
    proof {
        assert(wv.skip(0) =~= wv);
        assert forall|k: int| 0 <= k < words@.len() implies #[trigger] wv[k] == words@[k]@ by {
            assert(wv[k] == words@[k].deep_view());
        }
    }
    let n = words.len();
    let mut cur = pos;
    let mut j: usize = 0;
    while j < n
        invariant
            0 <= j <= n,
            n == wv.len(),
            n == words@.len(),
            pos <= cur <= s@.len(),
            j > 0 ==> pos < cur,
            wv == words.deep_view(),
            sp_match_words(s@, pos as int, wv) == sp_match_words(s@, cur as int, wv.skip(j as int)),
            forall|k: int| 0 <= k < n ==> #[trigger] wv[k] == words@[k]@,
        decreases n - j,
    {
        proof {
            assert(wv.skip(j as int).len() == n - j);
            assert(wv.skip(j as int)[0] == wv[j as int]);
            assert(wv.skip(j as int).drop_first() =~= wv.skip(j + 1));
        }
        let w = words[j];
        proof {
            assert(w@ == wv[j as int]);
        }
        match match_word(s, cur, w) {
            Some(e) => {
                proof {
                    assert(sp_match_words(s@, cur as int, wv.skip(j as int))
                        == sp_match_words(s@, e as int, wv.skip(j + 1)));
                }
                cur = e;
            },
            None => {
                proof {
                    assert(sp_match_words(s@, cur as int, wv.skip(j as int)) is None);
                }
                return None;
            },
        }
        j = j + 1;
    }
    proof {
        assert(wv.skip(n as int).len() == 0);
    }
    Some(cur)
}

/// Recognizes the longest builtin type spelling at the position, in the
/// fixed priority order.
pub fn primitive_type_parser(s: &str, pos: usize) -> (r: Option<(PrimitiveType, usize)>)
    requires
        pos <= s@.len(),
    ensures
        match r {
            Some((p, e)) => sp_primitive(s@, pos as int) == Some((p@, e as int)) && pos < e
                <= s@.len(),
            None => sp_primitive(s@, pos as int) is None,
        },
{
    let mut i: usize = 0;
    while i < 34
        invariant
            0 <= i <= 34,
            pos <= s@.len(),
            sp_primitive_from(s@, pos as int, 0) == sp_primitive_from(s@, pos as int, i as int),
        decreases 34 - i,
    {
        let words = spelling_parts(i);
        match match_keywords(s, pos, &words) {
            Some(e) => {
                let name = spelling_name(i);
                return Some((PrimitiveType::new(name), e));
            },
            None => {},
        }
        i = i + 1;
    }
    None
}

/// Parses zero or more type qualifiers.
fn parse_qualifiers(s: &str, pos: usize) -> (r: (TypeQualifiers, usize))
    requires
        pos <= s@.len(),
    ensures
        sp_qualifiers(s@, pos as int) == (r.0, r.1 as int),
        pos <= r.1 <= s@.len(),
    decreases s@.len() - pos,
{
    let p = skip_ws(s, pos);
    match ident_at(s, p) {
        Some(e) => {
            if span_eq(s, p, e, "const") {
                let (mut q, e2) = parse_qualifiers(s, e);
                q.insert(TypeQualifier::Const);
                (q, e2)
            } else if span_eq(s, p, e, "volatile") {
                let (mut q, e2) = parse_qualifiers(s, e);
                q.insert(TypeQualifier::Volatile);
                (q, e2)
            } else if span_eq(s, p, e, "restrict") {
                let (mut q, e2) = parse_qualifiers(s, e);
                q.insert(TypeQualifier::Restrict);
                (q, e2)
            } else {
                (TypeQualifiers::new(), pos)
            }
        },
        None => (TypeQualifiers::new(), pos),
    }
}

/// Parses a type: a builtin spelling, a record keyword and tag, or a
/// registered custom name.
fn parse_type(s: &str, pos: usize, st: &State) -> (r: Result<(Type, usize), ParseError>)
    requires
        pos <= s@.len(),
    ensures
        match r {
            Ok((ty, e)) => sp_type(s@, pos as int, st@) == Ok::<_, crate::parser::error::ErrV>(
                (ty@, e as int),
            ) && pos < e <= s@.len(),
            Err(er) => sp_type(s@, pos as int, st@) == Err::<(crate::ast::TypeV, int), _>(er@),
        },
{
    let p = skip_ws(s, pos);
    match primitive_type_parser(s, p) {
        Some((prim, e)) => Ok((Type::Primitive(prim), e)),
        None => {
            match ident_at(s, p) {
                Some(e) => {
                    let is_struct = span_eq(s, p, e, "struct");
                    let is_union = span_eq(s, p, e, "union");
                    let is_enum = span_eq(s, p, e, "enum");
                    if is_struct || is_union || is_enum {
                        let kind = if is_struct {
                            RecordKind::Struct
                        } else if is_union {
                            RecordKind::Union
                        } else {
                            RecordKind::Enum
                        };
                        let p2 = skip_ws(s, e);
                        match ident_at(s, p2) {
                            Some(e2) => {
                                let tag = s.substring_char(p2, e2).to_owned();
                                Ok((Type::Record(kind, tag), e2))
                            },
                            None => {
                                let expected = vec![Pattern::Label(Label::Identifier)];
                                proof {
                                    assert(patterns_view(expected@) =~= seq![
                                        crate::parser::error::PatternV::Label(Label::Identifier),
                                    ]);
                                }
                                Err(err_expected(s, p2, expected))
                            },
                        }
                    } else if st.contains_span(s, p, e) {
                        let name = s.substring_char(p, e).to_owned();
                        Ok((Type::Custom(name), e))
                    } else {
                        let mut msg = String::from_str("\"");
                        msg.append(s.substring_char(p, e));
                        msg.append("\" is used as a type but has not been defined");
                        let er = ParseError { start: p, end: e, reason: ErrorReason::Custom(msg) };
                        proof {
                            assert(er@ =~~= sp_err_undefined_type(
                                s@.subrange(p as int, e as int),
                                p as int,
                                e as int,
                            ));
                        }
                        Err(er)
                    }
                },
                None => Err(err_expected(s, p, expected_type_patterns())),
            }
        },
    }
}

/// Parses a declaration: qualifiers, a type, and a declarator.
fn parse_declaration(s: &str, pos: usize, st: &State) -> (r: Result<
    (Declaration, usize),
    ParseError,
>)
    requires
        pos <= s@.len(),
    ensures
        match r {
            Ok((d, e)) => sp_declaration(s@, pos as int, st@) == Ok::<
                _,
                crate::parser::error::ErrV,
            >((d@, e as int)) && pos < e <= s@.len(),
            Err(er) => sp_declaration(s@, pos as int, st@) == Err::<
                (crate::ast::DeclarationV, int),
                _,
            >(er@),
        },
    decreases s@.len() - pos, 4int,
{
    let (quals, p) = parse_qualifiers(s, pos);
    match parse_type(s, p, st) {
        Ok((ty, p2)) => {
            match parse_declarator(s, p2, st) {
                Ok((d, e)) => Ok((Declaration { base_type: QualifiedType(quals, ty), declarator: d }, e)),
                Err(er) => Err(er),
            }
        },
        Err(er) => Err(er),
    }
}

/// Parses a declarator: pointer prefixes around a suffixed atom.
fn parse_declarator(s: &str, pos: usize, st: &State) -> (r: Result<
    (Declarator, usize),
    ParseError,
>)
    requires
        pos <= s@.len(),
    ensures
        match r {
            Ok((d, e)) => sp_declarator(s@, pos as int, st@) == Ok::<
                _,
                crate::parser::error::ErrV,
            >((d@, e as int)) && pos <= e <= s@.len(),
            Err(er) => sp_declarator(s@, pos as int, st@) == Err::<
                (crate::ast::DeclaratorV, int),
                _,
            >(er@),
        },
    decreases s@.len() - pos, 3int,
{
    let p = skip_ws(s, pos);
    if p < s.unicode_len() && s.get_char(p) == '*' {
        let (quals, p2) = parse_qualifiers(s, p + 1);
        match parse_declarator(s, p2, st) {
            Ok((inner, e)) => Ok((Declarator::Ptr(Box::new(inner), quals), e)),
            Err(er) => Err(er),
        }
    } else {
        let (atom, e) = parse_atom(s, pos, st);
        proof {
            assert(sp_next_pos(pos as int, s@.len() as int, e as int) == e as int);
        }
        parse_suffixes(s, e, atom, st)
    }
}

/// Parses a declarator atom: an identifier, a parenthesized declarator, or
/// nothing.
fn parse_atom(s: &str, pos: usize, st: &State) -> (r: (Declarator, usize))
    requires
        pos <= s@.len(),
    ensures
        ({
            let (d, e) = sp_atom(s@, pos as int, st@);
            d == r.0@ && e == r.1 as int && pos <= r.1 <= s@.len()
        }),
    decreases s@.len() - pos, 1int,
{
    let p = skip_ws(s, pos);
    match ident_at(s, p) {
        Some(e) => {
            let name = s.substring_char(p, e).to_owned();
            (Declarator::Ident(name), e)
        },
        None => {
            if p < s.unicode_len() && s.get_char(p) == '(' {
                match parse_declarator(s, p + 1, st) {
                    Ok((d, e)) => {
                        let q = skip_ws(s, e);
                        if q < s.unicode_len() && s.get_char(q) == ')' {
                            (d, q + 1)
                        } else {
                            (Declarator::Anonymous, pos)
                        }
                    },
                    Err(_) => (Declarator::Anonymous, pos),
                }
            } else {
                (Declarator::Anonymous, pos)
            }
        },
    }
}

/// Parses zero or more array and function suffixes around the atom.
fn parse_suffixes(s: &str, pos: usize, acc: Declarator, st: &State) -> (r: Result<
    (Declarator, usize),
    ParseError,
>)
    requires
        pos <= s@.len(),
    ensures
        match r {
            Ok((d, e)) => sp_suffixes(s@, pos as int, acc@, st@) == Ok::<
                _,
                crate::parser::error::ErrV,
            >((d@, e as int)) && pos <= e <= s@.len(),
            Err(er) => sp_suffixes(s@, pos as int, acc@, st@) == Err::<
                (crate::ast::DeclaratorV, int),
                _,
            >(er@),
        },
    decreases s@.len() - pos, 2int,
{
    let p = skip_ws(s, pos);
    if p < s.unicode_len() && s.get_char(p) == '[' {
        let q = skip_ws(s, p + 1);
        if q < s.unicode_len() && s.get_char(q) == ']' {
            parse_suffixes(s, q + 1, Declarator::Array(Box::new(acc), None), st)
        } else if q < s.unicode_len() && '0' <= s.get_char(q) && s.get_char(q) <= '9' {
            let dend = if s.get_char(q) == '0' {
                q + 1
            } else {
                digits_end(s, q)
            };
            match parse_number(s, q, dend) {
                None => {
                    let er = ParseError {
                        start: q,
                        end: dend,
                        reason: ErrorReason::Custom(
                            String::from_str("number too large to fit in target type"),
                        ),
                    };
                    proof {
                        assert(er@ =~~= sp_err_overflow(q as int, dend as int));
                    }
                    Err(er)
                },
                Some(n) => {
                    let r2 = skip_ws(s, dend);
                    if r2 < s.unicode_len() && s.get_char(r2) == ']' {
                        parse_suffixes(s, r2 + 1, Declarator::Array(Box::new(acc), Some(n)), st)
                    } else {
                        let expected = vec![Pattern::Token("]")];
                        proof {
                            assert(patterns_view(expected@) =~= seq![
                                crate::parser::error::PatternV::Token("]"@),
                            ]);
                        }
                        Err(err_expected(s, r2, expected))
                    }
                },
            }
        } else {
            let expected = vec![Pattern::Token("]")];
            proof {
                assert(patterns_view(expected@) =~= seq![
                    crate::parser::error::PatternV::Token("]"@),
                ]);
            }
            Err(err_expected(s, q, expected))
        }
    } else if p < s.unicode_len() && s.get_char(p) == '(' {
        let q = skip_ws(s, p + 1);
        match match_word(s, q, "void") {
            Some(e) => {
                let r2 = skip_ws(s, e);
                if r2 < s.unicode_len() && s.get_char(r2) == ')' {
                    let bf = Box::new(acc);
                    let pv: Vec<Declaration> = Vec::new();
                    proof {
                        assert(sp_next_pos(p + 1, s@.len() as int, r2 + 1) == r2 + 1);
                        crate::ast::lemma_function_view(bf, pv);
                        assert(view_decls(pv@) =~= Seq::<crate::ast::DeclarationV>::empty());
                    }
                    parse_suffixes(s, r2 + 1, Declarator::Function { func: bf, params: pv }, st)
                } else {
                    parse_function_params(s, p, q, acc, st)
                }
            },
            None => parse_function_params(s, p, q, acc, st),
        }
    } else {
        Ok((acc, p))
    }
}

/// Parses the parameter list of a function suffix, after the opening
/// parenthesis.
fn parse_function_params(s: &str, p: usize, q: usize, acc: Declarator, st: &State) -> (r: Result<
    (Declarator, usize),
    ParseError,
>)
    requires
        p < q <= s@.len(),
    ensures
        match r {
            Ok((d, e)) => sp_function_params(s@, p as int, q as int, acc@, st@) == Ok::<
                _,
                crate::parser::error::ErrV,
            >((d@, e as int)) && p < e <= s@.len(),
            Err(er) => sp_function_params(s@, p as int, q as int, acc@, st@) == Err::<
                (crate::ast::DeclaratorV, int),
                _,
            >(er@),
        },
    decreases s@.len() - p, 1int,
{
    if q < s.unicode_len() && s.get_char(q) == ')' {
        let bf = Box::new(acc);
        let pv: Vec<Declaration> = Vec::new();
        proof {
            assert(sp_next_pos(p + 1, s@.len() as int, q + 1) == q + 1);
            crate::ast::lemma_function_view(bf, pv);
            assert(view_decls(pv@) =~= Seq::<crate::ast::DeclarationV>::empty());
        }
        parse_suffixes(s, q + 1, Declarator::Function { func: bf, params: pv }, st)
    } else {
        let mut params: Vec<Declaration> = Vec::new();
        proof {
            assert(view_decls(params@) =~= Seq::<crate::ast::DeclarationV>::empty());
        }
        match parse_param_list(s, q, st, &mut params) {
            Ok(after) => {
                let bf = Box::new(acc);
                proof {
                    assert(sp_next_pos(p + 1, s@.len() as int, after as int) == after as int);
                    crate::ast::lemma_function_view(bf, params);
                }
                parse_suffixes(s, after, Declarator::Function { func: bf, params }, st)
            },
            Err(er) => Err(er),
        }
    }
}

/// Parses one or more comma-separated parameter declarations up to the
/// closing parenthesis, appending them to `params`.
#[verifier::rlimit(80)]
#[verifier::spinoff_prover]
fn parse_param_list(s: &str, pos: usize, st: &State, params: &mut Vec<Declaration>) -> (r: Result<
    usize,
    ParseError,
>)
    requires
        pos <= s@.len(),
    ensures
        match r {
            Ok(after) => sp_param_list(s@, pos as int, st@, view_decls(old(params)@)) == Ok::<
                _,
                crate::parser::error::ErrV,
            >((view_decls(final(params)@), after as int)) && pos < after <= s@.len(),
            Err(er) => sp_param_list(s@, pos as int, st@, view_decls(old(params)@)) == Err::<
                (Seq<crate::ast::DeclarationV>, int),
                _,
            >(er@),
        },
    decreases s@.len() - pos, 5int,
{
    match parse_declaration(s, pos, st) {
        Err(er) => {
            let is_at_start = matches!(&er.reason, ErrorReason::Expected { .. }) && er.start
                == skip_ws(s, pos);
            if is_at_start {
                match er.reason {
                    ErrorReason::Expected { expected: _, found } => {
                        let expected = vec![
                            Pattern::Anything,
                            Pattern::Label(Label::FunctionParameter),
                            Pattern::Token(")"),
                        ];
                        proof {
                            assert(patterns_view(expected@) =~= sp_expected_param());
                        }
                        let er2 = ParseError {
                            start: er.start,
                            end: er.end,
                            reason: ErrorReason::Expected { expected, found },
                        };
                        proof {
                            assert(er2@ =~~= sp_param_err(s@, pos as int, er@));
                        }
                        Err(er2)
                    },
                    ErrorReason::Custom(_) => {
                        // Unreachable: the reason was just seen to be `Expected`.
                        vstd::pervasive::unreached()
                    },
                }
            } else {
                Err(er)
            }
        },
        Ok((d, e)) => {
            params.push(d);
            proof {
                assert(view_decls(params@) =~= view_decls(old(params)@).push(d@));
            }
            let p2 = skip_ws(s, e);
            if p2 < s.unicode_len() && s.get_char(p2) == ',' {
                let q2 = skip_ws(s, p2 + 1);
                if q2 < s.unicode_len() && s.get_char(q2) == ')' {
                    Ok(q2 + 1)
                } else {
                    parse_param_list(s, p2 + 1, st, params)
                }
            } else if p2 < s.unicode_len() && s.get_char(p2) == ')' {
                Ok(p2 + 1)
            } else {
                let expected = vec![
                    Pattern::Token("["),
                    Pattern::Token("("),
                    Pattern::Token(","),
                    Pattern::Token(")"),
                ];
                proof {
                    assert(patterns_view(expected@) =~= seq![
                        crate::parser::error::PatternV::Token("["@),
                        crate::parser::error::PatternV::Token("("@),
                        crate::parser::error::PatternV::Token(","@),
                        crate::parser::error::PatternV::Token(")"@),
                    ]);
                }
                Err(err_expected(s, p2, expected))
            }
        },
    }
}

/// Parses one top-level item: a typedef declaration (marked, its name
/// registered) or a plain declaration.
fn parse_item(s: &str, p: usize, state: &mut State) -> (r: Result<(Declaration, usize), ParseError>)
    requires
        p <= s@.len(),
    ensures
        ({
            let sp = sp_item(s@, p as int, old(state)@);
            match r {
                Ok((d, e2)) => sp == Ok::<_, crate::parser::error::ErrV>(
                    (d@, e2 as int, final(state)@),
                ) && p < e2 <= s@.len(),
                Err(er) => sp == Err::<(crate::ast::DeclarationV, int, Seq<Seq<char>>), _>(er@)
                    && final(state)@ == old(state)@,
            }
        }),
    decreases s@.len() - p, 5int,
{
    match match_word(s, p, "typedef") {
        Some(e) => {
            match parse_declaration(s, e, &*state) {
                Ok((mut d, e2)) => {
                    proof {
                        assert(sp_next_pos(p as int, s@.len() as int, e as int) == e as int);
                    }
                    match d.declarator.name() {
                        Some(n) => {
                            let owned = String::from_str(n.as_str());
                            state.register(owned);
                        },
                        None => {},
                    }
                    let ghost dv = d@;
                    d.base_type.0.insert(TypeQualifier::Typedef);
                    proof {
                        assert(d@ == sp_mark_typedef(dv));
                    }
                    Ok((d, e2))
                },
                Err(er) => Err(er),
            }
        },
        None => parse_declaration(s, p, &*state),
    }
}

/// Parses declarations from `pos` on, appending them to `decls` and
/// registering typedef names in `state`.
fn parse_program_from(
    s: &str,
    pos: usize,
    state: &mut State,
    decls: &mut Vec<Declaration>,
    seen_any: bool,
) -> (r: Option<ParseError>)
    requires
        pos <= s@.len(),
    ensures
        ({
            let sp = sp_program_from(s@, pos as int, old(state)@, view_decls(old(decls)@), seen_any);
            final(state)@ == sp.state && match r {
                None => sp.result == Ok::<_, crate::parser::error::ErrV>(
                    view_decls(final(decls)@),
                ),
                Some(er) => sp.result == Err::<Seq<crate::ast::DeclarationV>, _>(er@),
            }
        }),
    decreases s@.len() - pos, 6int,
{
    let p = skip_ws(s, pos);
    if p < s.unicode_len() && s.get_char(p) == ';' {
        return parse_program_from(s, p + 1, state, decls, true);
    }
    if p >= s.unicode_len() {
        if decls.len() == 0 && !seen_any && s.unicode_len() > 0 {
            return Some(err_expected(s, p, expected_type_patterns()));
        }
        return None;
    }
    match parse_item(s, p, state) {
        Err(er) => Some(er),
        Ok((d, e2)) => parse_program_tail(s, p, d, e2, state, decls),
    }
}

/// Parses what follows one top-level declaration: the end of the input, a
/// semicolon before further declarations, or a syntax error.
fn parse_program_tail(
    s: &str,
    p: usize,
    d: Declaration,
    e2: usize,
    state: &mut State,
    decls: &mut Vec<Declaration>,
) -> (r: Option<ParseError>)
    requires
        p < e2 <= s@.len(),
    ensures
        ({
            let sp = sp_program_tail(
                s@,
                p as int,
                d@,
                e2 as int,
                old(state)@,
                view_decls(old(decls)@),
            );
            final(state)@ == sp.state && match r {
                None => sp.result == Ok::<_, crate::parser::error::ErrV>(
                    view_decls(final(decls)@),
                ),
                Some(er) => sp.result == Err::<Seq<crate::ast::DeclarationV>, _>(er@),
            }
        }),
    decreases s@.len() - p, 5int,
{
    let p2 = skip_ws(s, e2);
    if p2 >= s.unicode_len() {
        decls.push(d);
        proof {
            assert(view_decls(decls@) =~= view_decls(old(decls)@).push(d@));
        }
        None
    } else if s.get_char(p2) == ';' {
        decls.push(d);
        proof {
            assert(view_decls(decls@) =~= view_decls(old(decls)@).push(d@));
            assert(sp_next_pos(p + 1, s@.len() as int, p2 as int) == p2 as int);
        }
        parse_program_from(s, p2, state, decls, true)
    } else {
        let expected = vec![
            Pattern::Token("["),
            Pattern::Token("("),
            Pattern::EndOfInput,
        ];
        proof {
            assert(patterns_view(expected@) =~= sp_expected_after_decl());
        }
        Some(err_expected(s, p2, expected))
    }
}

/// Parses a source text into its declarations.
///
/// The registry in `state` supplies the custom type names that are already
/// known, and receives the names of the typedef declarations that were
/// consumed before parsing ended.
pub fn parse(src: &str, state: &mut State) -> (r: Result<Vec<Declaration>, Vec<ParseError>>)
    ensures
        ({
            let sp = sp_parse(src@, old(state)@);
            final(state)@ == sp.state && match r {
                Ok(decls) => sp.result == Ok::<_, crate::parser::error::ErrV>(
                    view_decls(decls@),
                ),
                Err(errs) => errs@.len() == 1 && sp.result == Err::<
                    Seq<crate::ast::DeclarationV>,
                    _,
                >(errs@[0]@),
            }
        }),
{
    let mut decls: Vec<Declaration> = Vec::new();
    proof {
        assert(view_decls(decls@) =~= Seq::<crate::ast::DeclarationV>::empty());
    }
    match parse_program_from(src, 0, state, &mut decls, false) {
        None => Ok(decls),
        Some(er) => {
            let mut errs: Vec<ParseError> = Vec::new();
            errs.push(er);
            Err(errs)
        },
    }
}

} // verus!
