//! The declaration grammar, as specification functions over the character
//! sequence.  The executable parser's contracts state that it computes
//! exactly these functions.

use vstd::prelude::*;

use crate::ast::{sp_declarator_name, typedef_free_declaration, typedef_only_outermost,
    DeclarationV, DeclaratorV, QualifiedTypeV, RecordKind, TypeQualifier, TypeQualifiers, TypeV};
use crate::lexical::{is_digit_char, lemma_digits_end_bounds, lemma_ident_end_bounds,
    lemma_skip_ws_bounds, sp_digits_end, sp_digits_val, sp_ident_at, sp_skip_ws};
use crate::parser::error::{ErrV, Label, PatternV, ReasonV};

verus! {

/// Whether a registered custom type name equals the given identifier.
pub open spec fn sp_state_contains(st: Seq<Seq<char>>, w: Seq<char>) -> bool {
    exists|i: int| 0 <= i < st.len() && st[i] == w
}

/// The token found at a position: the single character there, or nothing at
/// the end of the input.
pub open spec fn sp_found(s: Seq<char>, p: int) -> Option<Seq<char>> {
    if 0 <= p < s.len() {
        Some(s.subrange(p, p + 1))
    } else {
        None
    }
}

/// The end of the found token's span: one past the character, or the
/// position itself at the end of the input.
pub open spec fn sp_found_end(s: Seq<char>, p: int) -> int {
    if 0 <= p < s.len() {
        p + 1
    } else {
        p
    }
}

/// A syntax error at `p`: the expected alternatives and the token found.
pub open spec fn sp_err_expected(s: Seq<char>, p: int, expected: Seq<PatternV>) -> ErrV {
    ErrV {
        start: p,
        end: sp_found_end(s, p),
        reason: ReasonV::Expected(expected, sp_found(s, p)),
    }
}

/// The error for an identifier used as a type without a prior typedef.
pub open spec fn sp_err_undefined_type(w: Seq<char>, start: int, end: int) -> ErrV {
    ErrV {
        start,
        end,
        reason: ReasonV::Custom(
            "\""@ + w + "\" is used as a type but has not been defined"@,
        ),
    }
}

/// The error for an array length that does not fit in `usize`.
pub open spec fn sp_err_overflow(start: int, end: int) -> ErrV {
    ErrV { start, end, reason: ReasonV::Custom("number too large to fit in target type"@) }
}

/// The continuation position of a recursive step.  Parsing only ever moves
/// forward through the remaining input; the clamp records that bound where
/// the termination checker cannot see it.
pub open spec fn sp_next_pos(lo: int, hi: int, e: int) -> int {
    if lo <= e <= hi {
        e
    } else {
        lo
    }
}

/// Zero or more type qualifier keywords, each adding its flag to the set.
pub open spec fn sp_qualifiers(s: Seq<char>, pos: int) -> (TypeQualifiers, int)
    decreases s.len() - pos,
{
    let p = sp_skip_ws(s, pos);
    match sp_ident_at(s, p) {
        Some((w, e)) => {
            proof {
                lemma_skip_ws_bounds(s, pos);
                lemma_ident_end_bounds(s, p + 1);
            }
            if w == "const"@ {
                let (q, e2) = sp_qualifiers(s, e);
                (q.spec_insert(TypeQualifier::Const), e2)
            } else if w == "volatile"@ {
                let (q, e2) = sp_qualifiers(s, e);
                (q.spec_insert(TypeQualifier::Volatile), e2)
            } else if w == "restrict"@ {
                let (q, e2) = sp_qualifiers(s, e);
                (q.spec_insert(TypeQualifier::Restrict), e2)
            } else {
                (TypeQualifiers::empty(), pos)
            }
        },
        None => (TypeQualifiers::empty(), pos),
    }
}

/// Consuming qualifiers never moves the position backward or past the end.
pub proof fn lemma_qualifiers_bounds(s: Seq<char>, pos: int)
    ensures
        pos <= sp_qualifiers(s, pos).1,
        pos <= s.len() ==> sp_qualifiers(s, pos).1 <= s.len(),
    decreases s.len() - pos,
{
    let p = sp_skip_ws(s, pos);
    lemma_skip_ws_bounds(s, pos);
    match sp_ident_at(s, p) {
        Some((w, e)) => {
            lemma_ident_end_bounds(s, p + 1);
            if w == "const"@ || w == "volatile"@ || w == "restrict"@ {
                lemma_qualifiers_bounds(s, e);
            }
        },
        None => {},
    }
}

/// One keyword: the identifier at the position (after whitespace) must spell
/// exactly the given word.
pub open spec fn sp_match_word(s: Seq<char>, pos: int, w: Seq<char>) -> Option<int> {
    let p = sp_skip_ws(s, pos);
    match sp_ident_at(s, p) {
        Some((t, e)) => if t == w {
            Some(e)
        } else {
            None
        },
        None => None,
    }
}

pub proof fn lemma_match_word_bounds(s: Seq<char>, pos: int, w: Seq<char>)
    ensures
        match sp_match_word(s, pos, w) {
            Some(e) => pos < e <= s.len(),
            None => true,
        },
{
    let p = sp_skip_ws(s, pos);
    lemma_skip_ws_bounds(s, pos);
    lemma_ident_end_bounds(s, p + 1);
}

/// A sequence of keywords in order.
pub open spec fn sp_match_words(s: Seq<char>, pos: int, words: Seq<Seq<char>>) -> Option<int>
    decreases words.len(),
{
    if words.len() == 0 {
        Some(pos)
    } else {
        match sp_match_word(s, pos, words[0]) {
            Some(e) => sp_match_words(s, e, words.drop_first()),
            None => None,
        }
    }
}

pub proof fn lemma_match_words_bounds(s: Seq<char>, pos: int, words: Seq<Seq<char>>)
    ensures
        match sp_match_words(s, pos, words) {
            Some(e) => pos <= e && (words.len() > 0 ==> pos < e) && (words.len() > 0 ==> e
                <= s.len()),
            None => true,
        },
    decreases words.len(),
{
    if words.len() > 0 {
        lemma_match_word_bounds(s, pos, words[0]);
        match sp_match_word(s, pos, words[0]) {
            Some(e) => {
                lemma_match_words_bounds(s, e, words.drop_first());
            },
            None => {},
        }
    }
}

/// How many builtin type spellings there are.
pub open spec fn spelling_count() -> int {
    34
}

/// The keyword sequence of the `i`-th builtin type spelling, in the fixed
/// priority order that resolves prefix ambiguity to the longest match.
pub open spec fn spelling_words(i: int) -> Seq<Seq<char>> {
    if i == 0 { seq!["unsigned"@, "long"@, "long"@, "int"@] }
    else if i == 1 { seq!["unsigned"@, "long"@, "long"@] }
    else if i == 2 { seq!["unsigned"@, "long"@, "int"@] }
    else if i == 3 { seq!["unsigned"@, "short"@, "int"@] }
    else if i == 4 { seq!["unsigned"@, "short"@] }
    else if i == 5 { seq!["unsigned"@, "long"@] }
    else if i == 6 { seq!["unsigned"@, "int"@] }
    else if i == 7 { seq!["unsigned"@, "char"@] }
    else if i == 8 { seq!["unsigned"@] }
    else if i == 9 { seq!["signed"@, "long"@, "long"@, "int"@] }
    else if i == 10 { seq!["signed"@, "long"@, "long"@] }
    else if i == 11 { seq!["signed"@, "long"@, "int"@] }
    else if i == 12 { seq!["signed"@, "long"@] }
    else if i == 13 { seq!["signed"@, "short"@, "int"@] }
    else if i == 14 { seq!["signed"@, "short"@] }
    else if i == 15 { seq!["signed"@, "char"@] }
    else if i == 16 { seq!["signed"@, "int"@] }
    else if i == 17 { seq!["signed"@] }
    else if i == 18 { seq!["long"@, "long"@, "int"@] }
    else if i == 19 { seq!["long"@, "double"@, "_Complex"@] }
    else if i == 20 { seq!["long"@, "double"@] }
    else if i == 21 { seq!["long"@, "long"@] }
    else if i == 22 { seq!["long"@, "int"@] }
    else if i == 23 { seq!["long"@] }
    else if i == 24 { seq!["short"@, "int"@] }
    else if i == 25 { seq!["short"@] }
    else if i == 26 { seq!["float"@, "_Complex"@] }
    else if i == 27 { seq!["float"@] }
    else if i == 28 { seq!["double"@, "_Complex"@] }
    else if i == 29 { seq!["double"@] }
    else if i == 30 { seq!["void"@] }
    else if i == 31 { seq!["char"@] }
    else if i == 32 { seq!["int"@] }
    else { seq!["_Bool"@] }
}

/// The rendered spelling of the `i`-th builtin type.
pub open spec fn spelling_text(i: int) -> Seq<char> {
    if i == 0 { "unsigned long long int"@ }
    else if i == 1 { "unsigned long long"@ }
    else if i == 2 { "unsigned long int"@ }
    else if i == 3 { "unsigned short int"@ }
    else if i == 4 { "unsigned short"@ }
    else if i == 5 { "unsigned long"@ }
    else if i == 6 { "unsigned int"@ }
    else if i == 7 { "unsigned char"@ }
    else if i == 8 { "unsigned"@ }
    else if i == 9 { "signed long long int"@ }
    else if i == 10 { "signed long long"@ }
    else if i == 11 { "signed long int"@ }
    else if i == 12 { "signed long"@ }
    else if i == 13 { "signed short int"@ }
    else if i == 14 { "signed short"@ }
    else if i == 15 { "signed char"@ }
    else if i == 16 { "signed int"@ }
    else if i == 17 { "signed"@ }
    else if i == 18 { "long long int"@ }
    else if i == 19 { "long double _Complex"@ }
    else if i == 20 { "long double"@ }
    else if i == 21 { "long long"@ }
    else if i == 22 { "long int"@ }
    else if i == 23 { "long"@ }
    else if i == 24 { "short int"@ }
    else if i == 25 { "short"@ }
    else if i == 26 { "float _Complex"@ }
    else if i == 27 { "float"@ }
    else if i == 28 { "double _Complex"@ }
    else if i == 29 { "double"@ }
    else if i == 30 { "void"@ }
    else if i == 31 { "char"@ }
    else if i == 32 { "int"@ }
    else { "_Bool"@ }
}

/// The first spelling from `i` on that matches at the position.
pub open spec fn sp_primitive_from(s: Seq<char>, pos: int, i: int) -> Option<(Seq<char>, int)>
    decreases spelling_count() - i,
{
    if i < 0 || i >= spelling_count() {
        None
    } else {
        match sp_match_words(s, pos, spelling_words(i)) {
            Some(e) => Some((spelling_text(i), e)),
            None => sp_primitive_from(s, pos, i + 1),
        }
    }
}

/// The longest builtin type spelling at the position, by priority order.
pub open spec fn sp_primitive(s: Seq<char>, pos: int) -> Option<(Seq<char>, int)> {
    sp_primitive_from(s, pos, 0)
}

pub proof fn lemma_primitive_from_bounds(s: Seq<char>, pos: int, i: int)
    ensures
        match sp_primitive_from(s, pos, i) {
            Some((t, e)) => pos < e <= s.len(),
            None => true,
        },
    decreases spelling_count() - i,
{
    if 0 <= i < spelling_count() {
        assert(spelling_words(i).len() > 0);
        lemma_match_words_bounds(s, pos, spelling_words(i));
        lemma_primitive_from_bounds(s, pos, i + 1);
    }
}

/// The expected set reported where a type should begin.
pub open spec fn sp_expected_type() -> Seq<PatternV> {
    seq![PatternV::Anything, PatternV::Label(Label::TypeQualifier), PatternV::Label(Label::Type)]
}

/// A type: a builtin spelling, a record keyword with its tag, or a
/// registered custom name.  A bare identifier that is neither is a semantic
/// error; a missing token reports the type alternatives.
pub open spec fn sp_type(s: Seq<char>, pos: int, st: Seq<Seq<char>>) -> Result<
    (TypeV, int),
    ErrV,
> {
    let p = sp_skip_ws(s, pos);
    match sp_primitive(s, p) {
        Some((text, e)) => Ok((TypeV::Primitive(text), e)),
        None => match sp_ident_at(s, p) {
            Some((w, e)) => if w == "struct"@ || w == "union"@ || w == "enum"@ {
                let kind = if w == "struct"@ {
                    RecordKind::Struct
                } else if w == "union"@ {
                    RecordKind::Union
                } else {
                    RecordKind::Enum
                };
                let p2 = sp_skip_ws(s, e);
                match sp_ident_at(s, p2) {
                    Some((tag, e2)) => Ok((TypeV::Record(kind, tag), e2)),
                    None => Err(
                        sp_err_expected(s, p2, seq![PatternV::Label(Label::Identifier)]),
                    ),
                }
            } else if sp_state_contains(st, w) {
                Ok((TypeV::Custom(w), e))
            } else {
                Err(sp_err_undefined_type(w, p, e))
            },
            None => Err(sp_err_expected(s, p, sp_expected_type())),
        },
    }
}

pub proof fn lemma_type_bounds(s: Seq<char>, pos: int, st: Seq<Seq<char>>)
    ensures
        match sp_type(s, pos, st) {
            Ok((ty, e)) => pos < e <= s.len(),
            Err(_) => true,
        },
{
    let p = sp_skip_ws(s, pos);
    lemma_skip_ws_bounds(s, pos);
    lemma_primitive_from_bounds(s, p, 0);
    lemma_ident_end_bounds(s, p + 1);
    match sp_ident_at(s, p) {
        Some((w, e)) => {
            let p2 = sp_skip_ws(s, e);
            lemma_skip_ws_bounds(s, e);
            lemma_ident_end_bounds(s, p2 + 1);
        },
        None => {},
    }
}

/// A declaration: qualifiers, a type, and a declarator.
pub open spec fn sp_declaration(s: Seq<char>, pos: int, st: Seq<Seq<char>>) -> Result<
    (DeclarationV, int),
    ErrV,
>
    decreases s.len() - pos, 4int,
{
    let (quals, p) = sp_qualifiers(s, pos);
    proof {
        lemma_qualifiers_bounds(s, pos);
        lemma_type_bounds(s, p, st);
    }
    match sp_type(s, p, st) {
        Ok((ty, p2)) => if pos < p2 <= s.len() {
            match sp_declarator(s, p2, st) {
                Ok((d, e)) => Ok(
                    (
                        DeclarationV {
                            base_type: QualifiedTypeV { quals, ty },
                            declarator: d,
                        },
                        e,
                    ),
                ),
                Err(er) => Err(er),
            }
        } else {
            // Unreachable: a type always advances within the input.
            Err(vstd::pervasive::arbitrary())
        },
        Err(er) => Err(er),
    }
}

/// A declarator: pointer prefixes (each with its own qualifiers) around a
/// suffixed atom.
pub open spec fn sp_declarator(s: Seq<char>, pos: int, st: Seq<Seq<char>>) -> Result<
    (DeclaratorV, int),
    ErrV,
>
    decreases s.len() - pos, 3int,
{
    let p = sp_skip_ws(s, pos);
    proof {
        lemma_skip_ws_bounds(s, pos);
    }
    if 0 <= p < s.len() && s[p] == '*' {
        let (quals, p2) = sp_qualifiers(s, p + 1);
        proof {
            lemma_qualifiers_bounds(s, p + 1);
        }
        if p + 1 <= p2 <= s.len() {
            match sp_declarator(s, p2, st) {
                Ok((inner, e)) => Ok((DeclaratorV::Ptr(Box::new(inner), quals), e)),
                Err(er) => Err(er),
            }
        } else {
            // Unreachable: qualifiers stay within the input.
            Err(vstd::pervasive::arbitrary())
        }
    } else {
        let (atom, e) = sp_atom(s, pos, st);
        sp_suffixes(s, sp_next_pos(pos, s.len() as int, e), atom, st)
    }
}

/// A declarator atom: an identifier, a parenthesized declarator, or nothing
/// (an anonymous declarator).  A malformed parenthesized declarator falls
/// back to the anonymous atom, leaving the parenthesis to be read as a
/// function suffix.
pub open spec fn sp_atom(s: Seq<char>, pos: int, st: Seq<Seq<char>>) -> (DeclaratorV, int)
    decreases s.len() - pos, 1int,
{
    let p = sp_skip_ws(s, pos);
    proof {
        lemma_skip_ws_bounds(s, pos);
    }
    match sp_ident_at(s, p) {
        Some((w, e)) => (DeclaratorV::Ident(w), e),
        None => if 0 <= p < s.len() && s[p] == '(' {
            match sp_declarator(s, p + 1, st) {
                Ok((d, e)) => {
                    let q = sp_skip_ws(s, e);
                    if 0 <= q < s.len() && s[q] == ')' {
                        (d, q + 1)
                    } else {
                        (DeclaratorV::Anonymous, pos)
                    }
                },
                Err(_) => (DeclaratorV::Anonymous, pos),
            }
        } else {
            (DeclaratorV::Anonymous, pos)
        },
    }
}

/// Zero or more array and function suffixes, folded around the atom from the
/// inside out.
pub open spec fn sp_suffixes(s: Seq<char>, pos: int, acc: DeclaratorV, st: Seq<Seq<char>>) -> Result<
    (DeclaratorV, int),
    ErrV,
>
    decreases s.len() - pos, 2int,
{
    let p = sp_skip_ws(s, pos);
    proof {
        lemma_skip_ws_bounds(s, pos);
    }
    if 0 <= p < s.len() && s[p] == '[' {
        let q = sp_skip_ws(s, p + 1);
        proof {
            lemma_skip_ws_bounds(s, p + 1);
        }
        if 0 <= q < s.len() && s[q] == ']' {
            sp_suffixes(s, q + 1, DeclaratorV::Array(Box::new(acc), None), st)
        } else if 0 <= q < s.len() && is_digit_char(s[q]) {
            let dend = if s[q] == '0' {
                q + 1
            } else {
                sp_digits_end(s, q)
            };
            proof {
                lemma_digits_end_bounds(s, q);
            }
            let digits = s.subrange(q, dend);
            if sp_digits_val(digits) > usize::MAX {
                Err(sp_err_overflow(q, dend))
            } else {
                let r = sp_skip_ws(s, dend);
                proof {
                    lemma_skip_ws_bounds(s, dend);
                }
                if 0 <= r < s.len() && s[r] == ']' {
                    sp_suffixes(
                        s,
                        r + 1,
                        DeclaratorV::Array(
                            Box::new(acc),
                            Some(sp_digits_val(digits) as usize),
                        ),
                        st,
                    )
                } else {
                    Err(sp_err_expected(s, r, seq![PatternV::Token("]"@)]))
                }
            }
        } else {
            Err(sp_err_expected(s, q, seq![PatternV::Token("]"@)]))
        }
    } else if 0 <= p < s.len() && s[p] == '(' {
        let q = sp_skip_ws(s, p + 1);
        proof {
            lemma_skip_ws_bounds(s, p + 1);
        }
        match sp_match_word(s, q, "void"@) {
            Some(e) => {
                let r = sp_skip_ws(s, e);
                proof {
                    lemma_match_word_bounds(s, q, "void"@);
                    lemma_skip_ws_bounds(s, e);
                }
                if 0 <= r < s.len() && s[r] == ')' {
                    sp_suffixes(
                        s,
                        sp_next_pos(p + 1, s.len() as int, r + 1),
                        DeclaratorV::Function(Box::new(acc), Seq::empty()),
                        st,
                    )
                } else {
                    sp_function_params(s, p, q, acc, st)
                }
            },
            None => sp_function_params(s, p, q, acc, st),
        }
    } else {
        Ok((acc, p))
    }
}

/// The parameter list of a function suffix, after the opening parenthesis.
pub open spec fn sp_function_params(
    s: Seq<char>,
    p: int,
    q: int,
    acc: DeclaratorV,
    st: Seq<Seq<char>>,
) -> Result<(DeclaratorV, int), ErrV>
    decreases s.len() - p, 1int,
{
    if !(p < q <= s.len()) {
        // Unreachable: `q` follows the opening parenthesis at `p`.
        Err(vstd::pervasive::arbitrary())
    } else if 0 <= q < s.len() && s[q] == ')' {
        sp_suffixes(
            s,
            sp_next_pos(p + 1, s.len() as int, q + 1),
            DeclaratorV::Function(Box::new(acc), Seq::empty()),
            st,
        )
    } else {
        match sp_param_list(s, q, st, Seq::empty()) {
            Ok((params, after)) => sp_suffixes(
                s,
                sp_next_pos(p + 1, s.len() as int, after),
                DeclaratorV::Function(Box::new(acc), params),
                st,
            ),
            Err(er) => Err(er),
        }
    }
}

/// The expected set reported where a function parameter should begin.
pub open spec fn sp_expected_param() -> Seq<PatternV> {
    seq![
        PatternV::Anything,
        PatternV::Label(Label::FunctionParameter),
        PatternV::Token(")"@),
    ]
}

/// Replaces the expected set of an error that happened exactly where a
/// parameter was to begin; deeper errors pass through unchanged.
pub open spec fn sp_param_err(s: Seq<char>, pos: int, er: ErrV) -> ErrV {
    match er.reason {
        ReasonV::Expected(_, found) => if er.start == sp_skip_ws(s, pos) {
            ErrV { start: er.start, end: er.end, reason: ReasonV::Expected(sp_expected_param(), found) }
        } else {
            er
        },
        ReasonV::Custom(_) => er,
    }
}

/// One or more comma-separated parameter declarations, with an optional
/// trailing comma, up to the closing parenthesis.
pub open spec fn sp_param_list(
    s: Seq<char>,
    pos: int,
    st: Seq<Seq<char>>,
    acc: Seq<DeclarationV>,
) -> Result<(Seq<DeclarationV>, int), ErrV>
    decreases s.len() - pos, 5int,
{
    match sp_declaration(s, pos, st) {
        Err(er) => Err(sp_param_err(s, pos, er)),
        Ok((d, e)) => {
            let acc2 = acc.push(d);
            let p2 = sp_skip_ws(s, e);
            if 0 <= p2 < s.len() && s[p2] == ',' {
                let q2 = sp_skip_ws(s, p2 + 1);
                proof {
                    lemma_skip_ws_bounds(s, p2 + 1);
                }
                if 0 <= q2 < s.len() && s[q2] == ')' {
                    Ok((acc2, q2 + 1))
                } else if pos <= p2 {
                    sp_param_list(s, p2 + 1, st, acc2)
                } else {
                    // Unreachable: a declaration never moves backward.
                    Err(vstd::pervasive::arbitrary())
                }
            } else if 0 <= p2 < s.len() && s[p2] == ')' {
                Ok((acc2, p2 + 1))
            } else {
                Err(
                    sp_err_expected(
                        s,
                        p2,
                        seq![
                            PatternV::Token("["@),
                            PatternV::Token("("@),
                            PatternV::Token(","@),
                            PatternV::Token(")"@),
                        ],
                    ),
                )
            }
        },
    }
}

/// A declaration with the typedef marker added to its outermost qualifiers.
pub open spec fn sp_mark_typedef(d: DeclarationV) -> DeclarationV {
    DeclarationV {
        base_type: QualifiedTypeV {
            quals: d.base_type.quals.spec_insert(TypeQualifier::Typedef),
            ty: d.base_type.ty,
        },
        declarator: d.declarator,
    }
}

/// The registry after a typedef declaration: the declared name is appended,
/// if the declarator names one.
pub open spec fn sp_register(st: Seq<Seq<char>>, d: DeclarationV) -> Seq<Seq<char>> {
    match sp_declarator_name(d.declarator) {
        Some(name) => st.push(name),
        None => st,
    }
}

/// The outcome of parsing a whole input: the declarations or one error, and
/// the registry as it stood when parsing ended.
pub struct SpParse {
    pub result: Result<Seq<DeclarationV>, ErrV>,
    pub state: Seq<Seq<char>>,
}

/// The expected set reported after a complete declaration.
pub open spec fn sp_expected_after_decl() -> Seq<PatternV> {
    seq![PatternV::Token("["@), PatternV::Token("("@), PatternV::EndOfInput]
}

/// One top-level item: a typedef declaration, marked and with its name
/// registered, or a plain declaration.  Gives the declaration, the position
/// after it, and the registry afterwards.
pub open spec fn sp_item(s: Seq<char>, p: int, st: Seq<Seq<char>>) -> Result<
    (DeclarationV, int, Seq<Seq<char>>),
    ErrV,
>
    decreases s.len() - p, 5int,
{
    match sp_match_word(s, p, "typedef"@) {
        Some(e) => {
            match sp_declaration(s, sp_next_pos(p, s.len() as int, e), st) {
                Ok((d, e2)) => Ok((sp_mark_typedef(d), e2, sp_register(st, d))),
                Err(er) => Err(er),
            }
        },
        None => match sp_declaration(s, p, st) {
            Ok((d, e2)) => Ok((d, e2, st)),
            Err(er) => Err(er),
        },
    }
}

/// A program: declarations separated by semicolons, with leading and
/// trailing semicolons permitted.  An input of nothing but whitespace is an
/// error, as an empty declaration would be; an empty input is no
/// declarations at all.
pub open spec fn sp_program_from(
    s: Seq<char>,
    pos: int,
    st: Seq<Seq<char>>,
    acc: Seq<DeclarationV>,
    seen_any: bool,
) -> SpParse
    decreases s.len() - pos, 6int,
{
    let p = sp_skip_ws(s, pos);
    proof {
        lemma_skip_ws_bounds(s, pos);
    }
    if 0 <= p < s.len() && s[p] == ';' {
        sp_program_from(s, p + 1, st, acc, true)
    } else if p >= s.len() {
        if acc.len() == 0 && !seen_any && s.len() > 0 {
            SpParse { result: Err(sp_err_expected(s, p, sp_expected_type())), state: st }
        } else {
            SpParse { result: Ok(acc), state: st }
        }
    } else {
        match sp_item(s, p, st) {
            Err(er) => SpParse { result: Err(er), state: st },
            Ok((d, e2, st2)) => sp_program_tail(s, p, d, e2, st2, acc),
        }
    }
}

/// What follows one parsed top-level item: the end of the input, a semicolon
/// before further declarations, or a syntax error naming what could have
/// continued the declaration.
pub open spec fn sp_program_tail(
    s: Seq<char>,
    p: int,
    d: DeclarationV,
    e2: int,
    st2: Seq<Seq<char>>,
    acc: Seq<DeclarationV>,
) -> SpParse
    decreases s.len() - p, 5int,
{
    let p2 = sp_skip_ws(s, e2);
    if p2 >= s.len() {
        SpParse { result: Ok(acc.push(d)), state: st2 }
    } else if s[p2] == ';' {
        if 0 <= p < s.len() {
            sp_program_from(s, sp_next_pos(p + 1, s.len() as int, p2), st2, acc.push(d), true)
        } else {
            // Unreachable: the item began inside the input.
            SpParse { result: Err(vstd::pervasive::arbitrary()), state: st2 }
        }
    } else {
        SpParse {
            result: Err(sp_err_expected(s, p2, sp_expected_after_decl())),
            state: st2,
        }
    }
}

/// Parsing a whole source text with an initial registry.
pub open spec fn sp_parse(s: Seq<char>, st: Seq<Seq<char>>) -> SpParse {
    sp_program_from(s, 0, st, Seq::empty(), false)
}

/// Typedef gating: an identifier standing where a type is expected (and not
/// spelling a builtin type or a record keyword) is accepted as a custom type
/// exactly when it was registered earlier; otherwise the parse fails with a
/// semantic error citing that identifier's span.
pub proof fn lemma_typedef_gating(s: Seq<char>, pos: int, st: Seq<Seq<char>>)
    requires
        ({
            let p = sp_skip_ws(s, pos);
            sp_primitive(s, p) is None && match sp_ident_at(s, p) {
                Some((w, e)) => w != "struct"@ && w != "union"@ && w != "enum"@,
                None => false,
            }
        }),
    ensures
        ({
            let p = sp_skip_ws(s, pos);
            let (w, e) = sp_ident_at(s, p)->Some_0;
            if sp_state_contains(st, w) {
                sp_type(s, pos, st) == Ok::<_, ErrV>((TypeV::Custom(w), e))
            } else {
                sp_type(s, pos, st) == Err::<(TypeV, int), _>(sp_err_undefined_type(w, p, e))
            }
        }),
{
}

/// The registry grows monotonically during a parse: whatever was registered
/// when parsing began is still registered, in place, when it ends; typedef
/// declarations only append.
pub proof fn lemma_state_grows(
    s: Seq<char>,
    pos: int,
    st: Seq<Seq<char>>,
    acc: Seq<DeclarationV>,
    seen_any: bool,
)
    ensures
        st.is_prefix_of(sp_program_from(s, pos, st, acc, seen_any).state),
    decreases s.len() - pos, 7int,
{
    let p = sp_skip_ws(s, pos);
    lemma_skip_ws_bounds(s, pos);
    assert(st.subrange(0, st.len() as int) =~= st);
    if 0 <= p < s.len() && s[p] == ';' {
        lemma_state_grows(s, p + 1, st, acc, true);
    } else if p >= s.len() {
    } else {
        match sp_item(s, p, st) {
            Err(_) => {},
            Ok((d, e2, st2)) => {
                assert(st.is_prefix_of(st2)) by {
                    match sp_declarator_name(d.declarator) {
                        Some(name) => {
                            assert(st.push(name).subrange(0, st.len() as int) =~= st);
                        },
                        None => {},
                    }
                }
                lemma_state_grows_tail(s, p, d, e2, st2, acc);
                let fin = sp_program_tail(s, p, d, e2, st2, acc).state;
                assert(st.is_prefix_of(fin)) by {
                    assert(fin.subrange(0, st2.len() as int).subrange(0, st.len() as int)
                        =~= fin.subrange(0, st.len() as int));
                }
            },
        }
    }
}

/// The continuation after one item likewise only appends to the registry.
proof fn lemma_state_grows_tail(
    s: Seq<char>,
    p: int,
    d: DeclarationV,
    e2: int,
    st2: Seq<Seq<char>>,
    acc: Seq<DeclarationV>,
)
    ensures
        st2.is_prefix_of(sp_program_tail(s, p, d, e2, st2, acc).state),
    decreases s.len() - p, 6int,
{
    assert(st2.subrange(0, st2.len() as int) =~= st2);
    let p2 = sp_skip_ws(s, e2);
    if p2 >= s.len() {
    } else if s[p2] == ';' && 0 <= p < s.len() {
        lemma_state_grows(
            s,
            sp_next_pos(p + 1, s.len() as int, p2),
            st2,
            acc.push(d),
            true,
        );
    }
}

/// The qualifier keywords alone never introduce the typedef marker.
pub proof fn lemma_qualifiers_no_typedef(s: Seq<char>, pos: int)
    ensures
        !sp_qualifiers(s, pos).0.is_typedef,
    decreases s.len() - pos,
{
    let p = sp_skip_ws(s, pos);
    lemma_skip_ws_bounds(s, pos);
    match sp_ident_at(s, p) {
        Some((w, e)) => {
            lemma_ident_end_bounds(s, p + 1);
            if w == "const"@ || w == "volatile"@ || w == "restrict"@ {
                lemma_qualifiers_no_typedef(s, e);
            }
        },
        None => {},
    }
}

/// A parsed declaration carries no typedef marker anywhere.
pub proof fn lemma_declaration_typedef_free(s: Seq<char>, pos: int, st: Seq<Seq<char>>)
    ensures
        match sp_declaration(s, pos, st) {
            Ok((d, _)) => typedef_free_declaration(d),
            Err(_) => true,
        },
    decreases s.len() - pos, 10int,
{
    let (quals, p) = sp_qualifiers(s, pos);
    lemma_qualifiers_no_typedef(s, pos);
    match sp_type(s, p, st) {
        Ok((_, p2)) => if pos < p2 <= s.len() {
            lemma_declarator_typedef_free(s, p2, st);
        } else {
        },
        Err(_) => {},
    }
}

/// A parsed declarator carries no typedef marker anywhere.
pub proof fn lemma_declarator_typedef_free(s: Seq<char>, pos: int, st: Seq<Seq<char>>)
    ensures
        match sp_declarator(s, pos, st) {
            Ok((d, _)) => typedef_only_outermost(d),
            Err(_) => true,
        },
    decreases s.len() - pos, 9int,
{
    let p = sp_skip_ws(s, pos);
    lemma_skip_ws_bounds(s, pos);
    if 0 <= p < s.len() && s[p] == '*' {
        let (quals, p2) = sp_qualifiers(s, p + 1);
        lemma_qualifiers_no_typedef(s, p + 1);
        lemma_qualifiers_bounds(s, p + 1);
        if p + 1 <= p2 <= s.len() {
            lemma_declarator_typedef_free(s, p2, st);
        }
    } else {
        let (atom, e) = sp_atom(s, pos, st);
        lemma_atom_typedef_free(s, pos, st);
        lemma_suffixes_typedef_free(s, sp_next_pos(pos, s.len() as int, e), atom, st);
    }
}

/// A parsed declarator atom carries no typedef marker anywhere.
pub proof fn lemma_atom_typedef_free(s: Seq<char>, pos: int, st: Seq<Seq<char>>)
    ensures
        typedef_only_outermost(sp_atom(s, pos, st).0),
    decreases s.len() - pos, 7int,
{
    let p = sp_skip_ws(s, pos);
    lemma_skip_ws_bounds(s, pos);
    match sp_ident_at(s, p) {
        Some(_) => {},
        None => if 0 <= p < s.len() && s[p] == '(' {
            lemma_declarator_typedef_free(s, p + 1, st);
        } else {
        },
    }
}

/// The suffix fold preserves the absence of typedef markers.
pub proof fn lemma_suffixes_typedef_free(s: Seq<char>, pos: int, acc: DeclaratorV, st: Seq<Seq<char>>)
    requires
        typedef_only_outermost(acc),
    ensures
        match sp_suffixes(s, pos, acc, st) {
            Ok((d, _)) => typedef_only_outermost(d),
            Err(_) => true,
        },
    decreases s.len() - pos, 8int,
{
    let p = sp_skip_ws(s, pos);
    lemma_skip_ws_bounds(s, pos);
    if 0 <= p < s.len() && s[p] == '[' {
        let q = sp_skip_ws(s, p + 1);
        lemma_skip_ws_bounds(s, p + 1);
        if 0 <= q < s.len() && s[q] == ']' {
            lemma_suffixes_typedef_free(s, q + 1, DeclaratorV::Array(Box::new(acc), None), st);
        } else if 0 <= q < s.len() && is_digit_char(s[q]) {
            let dend = if s[q] == '0' {
                q + 1
            } else {
                sp_digits_end(s, q)
            };
            lemma_digits_end_bounds(s, q);
            let digits = s.subrange(q, dend);
            if sp_digits_val(digits) > usize::MAX {
            } else {
                let r = sp_skip_ws(s, dend);
                lemma_skip_ws_bounds(s, dend);
                if 0 <= r < s.len() && s[r] == ']' {
                    lemma_suffixes_typedef_free(
                        s,
                        r + 1,
                        DeclaratorV::Array(Box::new(acc), Some(sp_digits_val(digits) as usize)),
                        st,
                    );
                }
            }
        }
    } else if 0 <= p < s.len() && s[p] == '(' {
        let q = sp_skip_ws(s, p + 1);
        lemma_skip_ws_bounds(s, p + 1);
        match sp_match_word(s, q, "void"@) {
            Some(e) => {
                let r = sp_skip_ws(s, e);
                lemma_match_word_bounds(s, q, "void"@);
                lemma_skip_ws_bounds(s, e);
                if 0 <= r < s.len() && s[r] == ')' {
                    assert(typedef_only_outermost(
                        DeclaratorV::Function(Box::new(acc), Seq::empty()),
                    ));
                    lemma_suffixes_typedef_free(
                        s,
                        sp_next_pos(p + 1, s.len() as int, r + 1),
                        DeclaratorV::Function(Box::new(acc), Seq::empty()),
                        st,
                    );
                } else {
                    lemma_function_params_typedef_free(s, p, q, acc, st);
                }
            },
            None => {
                lemma_function_params_typedef_free(s, p, q, acc, st);
            },
        }
    } else {
    }
}

/// A parsed parameter list yields typedef-free declarations.
pub proof fn lemma_function_params_typedef_free(
    s: Seq<char>,
    p: int,
    q: int,
    acc: DeclaratorV,
    st: Seq<Seq<char>>,
)
    requires
        typedef_only_outermost(acc),
    ensures
        match sp_function_params(s, p, q, acc, st) {
            Ok((d, _)) => typedef_only_outermost(d),
            Err(_) => true,
        },
    decreases s.len() - p, 7int,
{
    if !(p < q <= s.len()) {
    } else if 0 <= q < s.len() && s[q] == ')' {
        assert(typedef_only_outermost(DeclaratorV::Function(Box::new(acc), Seq::empty())));
        lemma_suffixes_typedef_free(
            s,
            sp_next_pos(p + 1, s.len() as int, q + 1),
            DeclaratorV::Function(Box::new(acc), Seq::empty()),
            st,
        );
    } else {
        lemma_param_list_typedef_free(s, q, st, Seq::empty());
        match sp_param_list(s, q, st, Seq::empty()) {
            Ok((params, after)) => {
                assert(typedef_only_outermost(DeclaratorV::Function(Box::new(acc), params)));
                lemma_suffixes_typedef_free(
                    s,
                    sp_next_pos(p + 1, s.len() as int, after),
                    DeclaratorV::Function(Box::new(acc), params),
                    st,
                );
            },
            Err(_) => {},
        }
    }
}

/// Every declaration a parameter list adds is typedef-free.
pub proof fn lemma_param_list_typedef_free(
    s: Seq<char>,
    pos: int,
    st: Seq<Seq<char>>,
    acc: Seq<DeclarationV>,
)
    requires
        forall|i: int| 0 <= i < acc.len() ==> typedef_free_declaration(#[trigger] acc[i]),
    ensures
        match sp_param_list(s, pos, st, acc) {
            Ok((params, _)) => forall|i: int| 0 <= i < params.len() ==> typedef_free_declaration(
                #[trigger] params[i],
            ),
            Err(_) => true,
        },
    decreases s.len() - pos, 11int,
{
    match sp_declaration(s, pos, st) {
        Err(_) => {},
        Ok((d, e)) => {
            lemma_declaration_typedef_free(s, pos, st);
            let acc2 = acc.push(d);
            assert(forall|i: int| 0 <= i < acc2.len() ==> typedef_free_declaration(
                #[trigger] acc2[i],
            ));
            let p2 = sp_skip_ws(s, e);
            if 0 <= p2 < s.len() && s[p2] == ',' {
                let q2 = sp_skip_ws(s, p2 + 1);
                lemma_skip_ws_bounds(s, p2 + 1);
                if 0 <= q2 < s.len() && s[q2] == ')' {
                } else if pos <= p2 {
                    lemma_param_list_typedef_free(s, p2 + 1, st, acc2);
                }
            }
        },
    }
}

/// Every declaration a parse returns keeps the typedef marker, if any, on its
/// outermost qualifier set alone: never on a pointer level, never inside a
/// function parameter.
pub proof fn lemma_parse_typedef_placement(
    s: Seq<char>,
    pos: int,
    st: Seq<Seq<char>>,
    acc: Seq<DeclarationV>,
    seen_any: bool,
)
    requires
        forall|i: int| 0 <= i < acc.len() ==> typedef_only_outermost(
            #[trigger] acc[i].declarator,
        ),
    ensures
        match sp_program_from(s, pos, st, acc, seen_any).result {
            Ok(decls) => forall|i: int| 0 <= i < decls.len() ==> typedef_only_outermost(
                #[trigger] decls[i].declarator,
            ),
            Err(_) => true,
        },
    decreases s.len() - pos, 7int,
{
    let p = sp_skip_ws(s, pos);
    lemma_skip_ws_bounds(s, pos);
    if 0 <= p < s.len() && s[p] == ';' {
        lemma_parse_typedef_placement(s, p + 1, st, acc, true);
    } else if p >= s.len() {
    } else {
        match sp_item(s, p, st) {
            Err(_) => {},
            Ok((d, e2, st2)) => {
                assert(typedef_only_outermost(d.declarator)) by {
                    match sp_match_word(s, p, "typedef"@) {
                        Some(e) => {
                            lemma_declaration_typedef_free(
                                s,
                                sp_next_pos(p, s.len() as int, e),
                                st,
                            );
                        },
                        None => {
                            lemma_declaration_typedef_free(s, p, st);
                        },
                    }
                }
                lemma_typedef_placement_tail(s, p, d, e2, st2, acc);
            },
        }
    }
}

/// The continuation after one clean item yields only clean declarations.
proof fn lemma_typedef_placement_tail(
    s: Seq<char>,
    p: int,
    d: DeclarationV,
    e2: int,
    st2: Seq<Seq<char>>,
    acc: Seq<DeclarationV>,
)
    requires
        typedef_only_outermost(d.declarator),
        forall|i: int| 0 <= i < acc.len() ==> typedef_only_outermost(
            #[trigger] acc[i].declarator,
        ),
    ensures
        match sp_program_tail(s, p, d, e2, st2, acc).result {
            Ok(decls) => forall|i: int| 0 <= i < decls.len() ==> typedef_only_outermost(
                #[trigger] decls[i].declarator,
            ),
            Err(_) => true,
        },
    decreases s.len() - p, 6int,
{
    let acc2 = acc.push(d);
    assert(forall|i: int| 0 <= i < acc2.len() ==> typedef_only_outermost(
        #[trigger] acc2[i].declarator,
    ));
    let p2 = sp_skip_ws(s, e2);
    if p2 >= s.len() {
    } else if s[p2] == ';' && 0 <= p < s.len() {
        lemma_parse_typedef_placement(
            s,
            sp_next_pos(p + 1, s.len() as int, p2),
            st2,
            acc2,
            true,
        );
    }
}

} // verus!
