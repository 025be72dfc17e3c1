//! Turns a parsed declaration into a tagged-segment English explanation.
//!
//! The walk is bottom-up over the declarator, inside-out, carrying the phrase
//! built so far, the current grammatical plurality, and a pending identifier
//! name that has not been emitted yet.

use vstd::prelude::*;

use crate::ast::{Declaration, DeclarationV, Declarator, DeclaratorV, QualifiedType,
    QualifiedTypeV, Type, TypeQualifier, TypeQualifiers, TypeV};
use crate::color::{sp_plain_text, sp_push_str, Formatter, Highlight, HighlightedText,
    HighlightedTextSegment, SegV};
use crate::lexical::{sp_number_text, number_to_string};
use crate::parser::error::{sp_error_message, ParseError};
use crate::parser::grammar::sp_parse;
use crate::parser::{parse, State};

verus! {

broadcast use vstd::seq::axiom_seq_index_decreases, vstd::std_specs::vec::axiom_vec_decreases_to_view;

/// Whether the declarator being explained denotes one value or a homogeneous
/// collection of values.  Drives article choice and pluralization of the
/// trailing type name.
#[derive(Debug, Clone, Copy, PartialEq, Eq, Structural)]
pub enum Plurality {
    Singular,
    Plural,
}

/// Mathematical view of [`Explanation`].
#[verifier::ext_equal]
pub struct ExplV {
    pub name: Option<Seq<char>>,
    pub segs: Seq<SegV>,
    pub plurality: Plurality,
}

/// Partial explanation state threaded through the recursive declarator walk.
#[derive(Debug)]
pub struct Explanation {
    /// Name of the root identifier being explained, not yet emitted.
    pub identifier_name: Option<String>,
    /// The explanation built so far.
    pub msg: HighlightedText,
    pub plurality: Plurality,
}

impl View for Explanation {
    type V = ExplV;

    open spec fn view(&self) -> ExplV {
        ExplV {
            name: match self.identifier_name {
                Some(ref n) => Some(n@),
                None => None,
            },
            segs: self.msg@,
            plurality: self.plurality,
        }
    }
}

impl Explanation {
    /// An empty, singular explanation with no pending name.
    pub fn new() -> (r: Explanation)
        ensures
            r@ == (ExplV { name: None, segs: Seq::<SegV>::empty(), plurality: Plurality::Singular }),
    {
        Explanation {
            identifier_name: None,
            msg: HighlightedText::new(),
            plurality: Plurality::Singular,
        }
    }

    /// Sets the pending identifier name.
    pub fn with_identifier_name(self, name: String) -> (r: Explanation)
        ensures
            r@ == (ExplV { name: Some(name@), ..self@ }),
    {
        Explanation { identifier_name: Some(name), ..self }
    }

    /// Sets the plurality to singular.
    pub fn singular(self) -> (r: Explanation)
        ensures
            r@ == (ExplV { plurality: Plurality::Singular, ..self@ }),
    {
        Explanation { plurality: Plurality::Singular, ..self }
    }

    /// Sets the plurality to plural.
    pub fn plural(self) -> (r: Explanation)
        ensures
            r@ == (ExplV { plurality: Plurality::Plural, ..self@ }),
    {
        Explanation { plurality: Plurality::Plural, ..self }
    }
}

/// The indefinite article (with a trailing space) for a noun: "an" before a
/// vowel, "a" otherwise, nothing for an empty noun.
pub open spec fn sp_article(noun: Seq<char>) -> Seq<char> {
    if noun.len() == 0 {
        Seq::empty()
    } else if noun[0] == 'a' || noun[0] == 'e' || noun[0] == 'i' || noun[0] == 'o' || noun[0]
        == 'u' {
        "an "@
    } else {
        "a "@
    }
}

/// The naive plural suffix for a noun: "es" after s/x/z, "s" otherwise,
/// nothing for an empty noun.
pub open spec fn sp_plural_suffix(noun: Seq<char>) -> Seq<char> {
    if noun.len() == 0 {
        Seq::empty()
    } else if noun.last() == 's' || noun.last() == 'x' || noun.last() == 'z' {
        "es"@
    } else {
        "s"@
    }
}

/// Returns the appropriate article ("a " or "an ") for the given noun.
pub fn article_for(noun: &HighlightedTextSegment) -> (r: &'static str)
    ensures
        r@ == sp_article(noun@.text),
{
    if noun.text.as_str().unicode_len() == 0 {
        proof {
            reveal_strlit("");
        }
        ""
    } else {
        let c = noun.text.as_str().get_char(0);
        if c == 'a' || c == 'e' || c == 'i' || c == 'o' || c == 'u' {
            "an "
        } else {
            "a "
        }
    }
}

/// Naively returns the plural suffix for a noun.
pub fn plural_suffix_for(noun: &HighlightedTextSegment) -> (r: &'static str)
    ensures
        r@ == sp_plural_suffix(noun@.text),
{
    let n = noun.text.as_str().unicode_len();
    if n == 0 {
        proof {
            reveal_strlit("");
        }
        ""
    } else {
        let c = noun.text.as_str().get_char(n - 1);
        if c == 's' || c == 'x' || c == 'z' {
            "es"
        } else {
            "s"
        }
    }
}

/// The qualifier words present in a set, in the canonical order.
pub open spec fn sp_qual_words(q: TypeQualifiers) -> Seq<Seq<char>> {
    let w0: Seq<Seq<char>> = if q.is_const { seq!["const"@] } else { seq![] };
    let w1: Seq<Seq<char>> = if q.is_volatile { w0.push("volatile"@) } else { w0 };
    let w2: Seq<Seq<char>> = if q.is_restrict { w1.push("restrict"@) } else { w1 };
    if q.is_typedef { w2.push("typedef"@) } else { w2 }
}

/// Words joined by single spaces.
pub open spec fn sp_join_space(ws: Seq<Seq<char>>) -> Seq<char>
    decreases ws.len(),
{
    if ws.len() == 0 {
        Seq::empty()
    } else if ws.len() == 1 {
        ws[0]
    } else {
        sp_join_space(ws.drop_last()) + " "@ + ws.last()
    }
}

/// A qualifier set rendered as its qualifier names joined by spaces, in the
/// canonical order `const volatile restrict` (`typedef` last).
pub open spec fn sp_quals_text(q: TypeQualifiers) -> Seq<char> {
    sp_join_space(sp_qual_words(q))
}

/// Renders a qualifier set as space-separated words.
pub fn quals_text(q: &TypeQualifiers) -> (r: String)
    ensures
        r@ == sp_quals_text(*q),
{
    let mut words: Vec<&'static str> = Vec::new();
    let ghost mut ws: Seq<Seq<char>> = seq![];
    if q.is_const {
        words.push("const");
        proof {
            ws = ws.push("const"@);
        }
    }
    if q.is_volatile {
        words.push("volatile");
        proof {
            ws = ws.push("volatile"@);
        }
    }
    if q.is_restrict {
        words.push("restrict");
        proof {
            ws = ws.push("restrict"@);
        }
    }
    if q.is_typedef {
        words.push("typedef");
        proof {
            ws = ws.push("typedef"@);
        }
    }
    proof {
        assert(ws =~= sp_qual_words(*q));
        assert(words@.len() == ws.len());
        assert(forall|i: int| 0 <= i < ws.len() ==> #[trigger] words@[i]@ == ws[i]);
    }
    let mut out = String::new();
    let mut i: usize = 0;
    let n = words.len();
    while i < n
        invariant
            0 <= i <= n,
            n == ws.len(),
            n == words@.len(),
            forall|k: int| 0 <= k < ws.len() ==> #[trigger] words@[k]@ == ws[k],
            out@ == sp_join_space(ws.subrange(0, i as int)),
        decreases n - i,
    {
        proof {
            assert(ws.subrange(0, i + 1).drop_last() =~= ws.subrange(0, i as int));
            assert(ws.subrange(0, i + 1).last() == ws[i as int]);
        }
        if i > 0 {
            out.append(" ");
        }
        out.append(words[i]);
        proof {
            if i == 0 {
                assert(out@ =~= sp_join_space(ws.subrange(0, 1)));
            }
        }
        i = i + 1;
    }
    proof {
        assert(ws.subrange(0, n as int) =~= ws);
    }
    out
}

impl TypeQualifiers {
    /// The set rendered as its qualifier names joined by spaces.
    pub fn render(&self) -> (r: String)
        ensures
            r@ == sp_quals_text(*self),
    {
        quals_text(self)
    }
}

/// The rendered name of an unqualified type.
pub open spec fn sp_type_text(ty: TypeV) -> Seq<char> {
    match ty {
        TypeV::Primitive(name) => name,
        TypeV::Record(kind, tag) => kind.spec_keyword() + " "@ + tag,
        TypeV::Custom(name) => name,
    }
}

/// Renders the name of an unqualified type.
fn type_text(ty: &Type) -> (r: String)
    ensures
        r@ == sp_type_text(ty@),
{
    match ty {
        Type::Primitive(p) => p.as_ref().to_owned(),
        Type::Record(kind, tag) => {
            let mut s = kind.keyword().to_owned();
            s.append(" ");
            s.append(tag.as_str());
            s
        },
        Type::Custom(name) => name.as_str().to_owned(),
    }
}

/// The segments for a qualified type: an optional qualifier segment, then the
/// type name tagged as builtin or user-defined.
pub open spec fn sp_format_qualified_type(qt: QualifiedTypeV) -> Seq<SegV> {
    let hl = match qt.ty {
        TypeV::Primitive(_) => Highlight::PrimitiveType,
        TypeV::Record(_, _) => Highlight::UserDefinedType,
        TypeV::Custom(_) => Highlight::UserDefinedType,
    };
    let tseg = SegV { text: sp_type_text(qt.ty), highlight: hl };
    if qt.quals == TypeQualifiers::empty() {
        seq![tseg]
    } else {
        seq![
            SegV { text: sp_quals_text(qt.quals), highlight: Highlight::Qualifier },
            SegV { text: " "@, highlight: Highlight::Plain },
            tseg,
        ]
    }
}

/// Renders a qualified type as highlighted segments.
fn format_qualified_type(qt: &QualifiedType) -> (r: HighlightedText)
    ensures
        r@ == sp_format_qualified_type(qt@),
        r@.len() > 0,
{
    let hl = match &qt.1 {
        Type::Primitive(_) => Highlight::PrimitiveType,
        Type::Record(_, _) => Highlight::UserDefinedType,
        Type::Custom(_) => Highlight::UserDefinedType,
    };
    let tname = type_text(&qt.1);
    let mut out = HighlightedText::new();
    if !qt.0.is_empty() {
        let qtext = quals_text(&qt.0);
        out.push(HighlightedTextSegment::new(qtext.as_str(), Highlight::Qualifier));
        out.push(HighlightedTextSegment::new(" ", Highlight::Plain));
    }
    out.push(HighlightedTextSegment::new(tname.as_str(), hl));
    proof {
        assert(out@ =~~= sp_format_qualified_type(qt@));
    }
    out
}

/// The explanation of a declarator, inside-out.
pub open spec fn sp_explain_declarator(d: DeclaratorV, skip_name: bool) -> ExplV
    decreases d, 0int, 0int,
{
    match d {
        DeclaratorV::Anonymous => ExplV {
            name: None,
            segs: Seq::empty(),
            plurality: Plurality::Singular,
        },
        DeclaratorV::Ident(name) => ExplV {
            name: Some(name),
            segs: Seq::empty(),
            plurality: Plurality::Singular,
        },
        DeclaratorV::Ptr(inner, quals) => {
            let sub = sp_explain_declarator(*inner, skip_name);
            let has_quals = quals != TypeQualifiers::empty();
            let qseg = SegV { text: sp_quals_text(quals), highlight: Highlight::Qualifier };
            let s1 = match sub.plurality {
                Plurality::Singular => {
                    let a = sp_push_str(sub.segs, "a "@);
                    let b = if has_quals { sp_push_str(a.push(qseg), " "@) } else { a };
                    b.push(SegV { text: "pointer"@, highlight: Highlight::QuasiKeyword })
                },
                Plurality::Plural => {
                    let b = if has_quals { sp_push_str(sub.segs.push(qseg), " "@) } else { sub.segs };
                    b.push(SegV { text: "pointers"@, highlight: Highlight::QuasiKeyword })
                },
            };
            let s2 = sp_push_str(s1, " "@);
            if sub.name is Some && !skip_name {
                let s3 = sp_push_str(
                    sp_push_str(s2, "named "@).push(
                        SegV { text: sub.name->Some_0, highlight: Highlight::Ident },
                    ),
                    " "@,
                );
                ExplV { name: None, segs: sp_push_str(s3, "to "@), plurality: sub.plurality }
            } else {
                ExplV {
                    name: sub.name,
                    segs: sp_push_str(s2, "to "@),
                    plurality: sub.plurality,
                }
            }
        },
        DeclaratorV::Array(inner, size) => {
            let sub = sp_explain_declarator(*inner, skip_name);
            let s1 = match sub.plurality {
                Plurality::Singular => sp_push_str(sub.segs, "an "@).push(
                    SegV { text: "array"@, highlight: Highlight::QuasiKeyword },
                ),
                Plurality::Plural => sub.segs.push(
                    SegV { text: "arrays"@, highlight: Highlight::QuasiKeyword },
                ),
            };
            let (s2, name2): (Seq<SegV>, Option<Seq<char>>) = if sub.name is Some && !skip_name {
                (
                    sp_push_str(s1, " named "@).push(
                        SegV { text: sub.name->Some_0, highlight: Highlight::Ident },
                    ),
                    None,
                )
            } else {
                (s1, sub.name)
            };
            let s3 = sp_push_str(s2, " of "@);
            let s4 = match size {
                Some(len) => sp_push_str(
                    s3.push(SegV { text: sp_number_text(len as nat), highlight: Highlight::Number }),
                    " "@,
                ),
                None => s3,
            };
            ExplV { name: name2, segs: s4, plurality: Plurality::Plural }
        },
        DeclaratorV::Function(func, params) => {
            let sub = sp_explain_declarator(*func, skip_name);
            let name_eff: Option<Seq<char>> = if skip_name { None } else { sub.name };
            let fseg = SegV { text: "function"@, highlight: Highlight::QuasiKeyword };
            let (s1, name2): (Seq<SegV>, Option<Seq<char>>) = match (name_eff, sub.plurality) {
                (Option::None, Plurality::Singular) => (
                    sp_push_str(sp_push_str(sub.segs, "a "@).push(fseg), " that takes "@),
                    sub.name,
                ),
                (Option::None, Plurality::Plural) => (
                    sp_push_str(
                        sub.segs.push(
                            SegV { text: "functions"@, highlight: Highlight::QuasiKeyword },
                        ),
                        " that take "@,
                    ),
                    sub.name,
                ),
                (Option::Some(n), Plurality::Singular) => (
                    sp_push_str(
                        sp_push_str(sp_push_str(sub.segs, "a "@).push(fseg), " named "@).push(
                            SegV { text: n, highlight: Highlight::Ident },
                        ),
                        " that takes "@,
                    ),
                    None,
                ),
                // A pending identifier is never plural; this case cannot arise.
                (Option::Some(_), Plurality::Plural) => (vstd::pervasive::arbitrary(), None),
            };
            let s2 = sp_params_section(s1, params);
            let s3 = sp_push_str(
                s2,
                match sub.plurality {
                    Plurality::Singular => " and returns "@,
                    Plurality::Plural => " and return "@,
                },
            );
            ExplV { name: name2, segs: s3, plurality: Plurality::Singular }
        },
    }
}

/// The parameter list section of a function phrase: "no parameters" for an
/// empty list, else the parameter explanations joined in parentheses with
/// "and" (and an Oxford comma from three on).
pub open spec fn sp_params_section(segs: Seq<SegV>, params: Seq<DeclarationV>) -> Seq<SegV>
    decreases params, 2int, 0int,
{
    if params.len() == 0 {
        sp_push_str(segs, "no parameters"@)
    } else if params.len() == 1 {
        sp_push_str(
            sp_push_str(segs, "("@) + sp_explain_declaration(params[0]),
            ")"@,
        )
    } else if params.len() == 2 {
        sp_push_str(
            sp_push_str(
                sp_push_str(segs, "("@) + sp_explain_declaration(params[0]),
                " and "@,
            ) + sp_explain_declaration(params[1]),
            ")"@,
        )
    } else {
        let with_rest = sp_params_commas(sp_push_str(segs, "("@), params, 0);
        sp_push_str(
            sp_push_str(with_rest, "and "@) + sp_explain_declaration(params.last()),
            ")"@,
        )
    }
}

/// All parameters but the last, each followed by ", ".
pub open spec fn sp_params_commas(segs: Seq<SegV>, params: Seq<DeclarationV>, i: int) -> Seq<SegV>
    decreases params, 1int, params.len() - i,
{
    if i < 0 || i >= params.len() - 1 {
        segs
    } else {
        sp_params_commas(
            sp_push_str(segs + sp_explain_declaration(params[i]), ", "@),
            params,
            i + 1,
        )
    }
}

/// The explanation of a full declaration.
pub open spec fn sp_explain_declaration(d: DeclarationV) -> Seq<SegV>
    decreases d, 4int, 0int,
{
    if d.base_type.quals.is_typedef {
        sp_explain_typedef(d)
    } else {
        sp_explain_declaration_impl(d).segs
    }
}

/// An ordinary (non-typedef) declaration: the declarator phrase, the
/// articulated or pluralized base type, and the declared name if it was not
/// consumed inside the declarator.
pub open spec fn sp_explain_declaration_impl(d: DeclarationV) -> ExplV
    decreases d, 3int, 0int,
{
    let sub = sp_explain_declarator(d.declarator, false);
    let tsegs = sp_format_qualified_type(d.base_type);
    let s1 = match sub.plurality {
        Plurality::Singular => sp_push_str(sub.segs, sp_article(tsegs[0].text)) + tsegs,
        Plurality::Plural => sp_push_str(sub.segs + tsegs, sp_plural_suffix(tsegs.last().text)),
    };
    let s2 = match sub.name {
        Some(n) => sp_push_str(s1, " named "@).push(SegV { text: n, highlight: Highlight::Ident }),
        None => s1,
    };
    ExplV { name: sub.name, segs: s2, plurality: sub.plurality }
}

/// A typedef declaration: "a type [named N] defined as <declarator phrase>
/// <base type>", with the declared name tagged as a user-defined type and
/// name splicing suppressed inside the declarator.
pub open spec fn sp_explain_typedef(d: DeclarationV) -> Seq<SegV>
    decreases d, 3int, 0int,
{
    let quals2 = d.base_type.quals.spec_remove(TypeQualifier::Typedef);
    let tsegs = sp_format_qualified_type(QualifiedTypeV { quals: quals2, ty: d.base_type.ty });
    let s0 = sp_push_str(Seq::empty(), "a type"@);
    let sub = sp_explain_declarator(d.declarator, true);
    let s1 = match sub.name {
        Some(n) => sp_push_str(s0, " named "@).push(
            SegV { text: n, highlight: Highlight::UserDefinedType },
        ),
        None => s0,
    };
    let s2 = sp_push_str(s1, " defined as "@) + sub.segs;
    match sub.plurality {
        Plurality::Singular => sp_push_str(s2, sp_article(tsegs[0].text)) + tsegs,
        Plurality::Plural => sp_push_str(s2 + tsegs, sp_plural_suffix(tsegs.last().text)),
    }
}

/// With name splicing active, a pending identifier always denotes a single
/// value: the plural wrappers (arrays) consume the name before pluralizing.
pub proof fn lemma_pending_name_singular(d: DeclaratorV)
    ensures
        sp_explain_declarator(d, false).name is Some ==> sp_explain_declarator(
            d,
            false,
        ).plurality == Plurality::Singular,
    decreases d,
{
    match d {
        DeclaratorV::Function(func, _) => {
            lemma_pending_name_singular(*func);
        },
        _ => {},
    }
}

/// Explains a single declaration as highlighted text.
pub fn explain_declaration(decl: &Declaration) -> (r: HighlightedText)
    ensures
        r@ == sp_explain_declaration(decl@),
    decreases decl, 4int,
{
    if decl.base_type.0.is_typedef {
        explain_typedef(decl)
    } else {
        explain_declaration_impl(decl).msg
    }
}

fn explain_declaration_impl(decl: &Declaration) -> (r: Explanation)
    ensures
        r@ == sp_explain_declaration_impl(decl@),
    decreases decl, 3int,
{
    let mut explanation = explain_declarator(&decl.declarator, false);
    let highlighted_type = format_qualified_type(&decl.base_type);
    match explanation.plurality {
        Plurality::Singular => {
            let article = article_for(highlighted_type.segment(0));
            explanation.msg.push_str(article);
            explanation.msg.extend(highlighted_type);
        },
        Plurality::Plural => {
            let n = highlighted_type.len();
            let suffix = plural_suffix_for(highlighted_type.segment(n - 1));
            explanation.msg.extend(highlighted_type);
            explanation.msg.push_str(suffix);
        },
    }
    if let Some(name) = &explanation.identifier_name {
        explanation.msg.push_str(" named ");
        explanation.msg.push(HighlightedTextSegment::new(name.as_str(), Highlight::Ident));
    }
    proof {
        assert(explanation@ =~~= sp_explain_declaration_impl(decl@));
    }
    explanation
}

fn explain_typedef(decl: &Declaration) -> (r: HighlightedText)
    requires
        decl.base_type.0.is_typedef,
    ensures
        r@ == sp_explain_typedef(decl@),
    decreases decl, 3int,
{
    let mut new_type_quals = decl.base_type.0;
    new_type_quals.remove(TypeQualifier::Typedef);
    let new_type = QualifiedType(new_type_quals, clone_type(&decl.base_type.1));
    let type_str = format_qualified_type(&new_type);

    let mut explanation = Explanation::new();
    explanation.msg.push_str("a type");

    let declarator_explanation = explain_declarator(&decl.declarator, true);

    if let Some(name) = &declarator_explanation.identifier_name {
        explanation.msg.push_str(" named ");
        explanation.msg.push(
            HighlightedTextSegment::new(name.as_str(), Highlight::UserDefinedType),
        );
    }

    explanation.msg.push_str(" defined as ");
    explanation.msg.extend(declarator_explanation.msg);

    match declarator_explanation.plurality {
        Plurality::Singular => {
            let article = article_for(type_str.segment(0));
            explanation.msg.push_str(article);
            explanation.msg.extend(type_str);
        },
        Plurality::Plural => {
            let n = type_str.len();
            let suffix = plural_suffix_for(type_str.segment(n - 1));
            explanation.msg.extend(type_str);
            explanation.msg.push_str(suffix);
        },
    }
    proof {
        assert(explanation.msg@ =~~= sp_explain_typedef(decl@));
    }
    explanation.msg
}

/// Copies a type value.
fn clone_type(ty: &Type) -> (r: Type)
    ensures
        r@ == ty@,
{
    match ty {
        Type::Primitive(p) => Type::Primitive(crate::ast::PrimitiveType::new(p.as_ref())),
        Type::Record(kind, tag) => Type::Record(*kind, tag.as_str().to_owned()),
        Type::Custom(name) => Type::Custom(name.as_str().to_owned()),
    }
}

#[verifier::rlimit(60)]
fn explain_declarator(declarator: &Declarator, skip_name: bool) -> (r: Explanation)
    ensures
        r@ == sp_explain_declarator(declarator@, skip_name),
    decreases declarator, 0int,
{
    match declarator {
        Declarator::Anonymous => Explanation::new(),
        Declarator::Ident(name) => Explanation::new().with_identifier_name(
            name.as_str().to_owned(),
        ),
        Declarator::Ptr(inner, qualifiers) => {
            let mut sub = explain_declarator(inner, skip_name);
            let has_quals = !qualifiers.is_empty();
            match sub.plurality {
                Plurality::Singular => {
                    sub.msg.push_str("a ");
                    if has_quals {
                        let qtext = quals_text(qualifiers);
                        sub.msg.push(
                            HighlightedTextSegment::new(qtext.as_str(), Highlight::Qualifier),
                        );
                        sub.msg.push_str(" ");
                    }
                    sub.msg.push(HighlightedTextSegment::new("pointer", Highlight::QuasiKeyword));
                },
                Plurality::Plural => {
                    if has_quals {
                        let qtext = quals_text(qualifiers);
                        sub.msg.push(
                            HighlightedTextSegment::new(qtext.as_str(), Highlight::Qualifier),
                        );
                        sub.msg.push_str(" ");
                    }
                    sub.msg.push(HighlightedTextSegment::new("pointers", Highlight::QuasiKeyword));
                },
            }
            sub.msg.push_str(" ");
            if sub.identifier_name.is_some() && !skip_name {
                let name_opt = sub.identifier_name;
                sub.identifier_name = None;
                let name = name_opt.unwrap();
                sub.msg.push_str("named ");
                sub.msg.push(HighlightedTextSegment::new(name.as_str(), Highlight::Ident));
                sub.msg.push_str(" ");
            }
            sub.msg.push_str("to ");
            proof {
                assert(sub@ =~~= sp_explain_declarator(declarator@, skip_name));
            }
            sub
        },
        Declarator::Array(inner, len) => {
            let mut sub = explain_declarator(inner, skip_name);
            match sub.plurality {
                Plurality::Singular => {
                    sub.msg.push_str("an ");
                    sub.msg.push(HighlightedTextSegment::new("array", Highlight::QuasiKeyword));
                },
                Plurality::Plural => {
                    sub.msg.push(HighlightedTextSegment::new("arrays", Highlight::QuasiKeyword));
                },
            }
            if sub.identifier_name.is_some() && !skip_name {
                let name_opt = sub.identifier_name;
                sub.identifier_name = None;
                let name = name_opt.unwrap();
                sub.msg.push_str(" named ");
                sub.msg.push(HighlightedTextSegment::new(name.as_str(), Highlight::Ident));
            }
            sub.msg.push_str(" of ");
            if let Some(len) = len {
                let ntext = number_to_string(*len);
                sub.msg.push(HighlightedTextSegment::new(ntext.as_str(), Highlight::Number));
                sub.msg.push_str(" ");
            }
            let r = sub.plural();
            proof {
                assert(r@ =~~= sp_explain_declarator(declarator@, skip_name));
            }
            r
        },
        Declarator::Function { func, params } => {
            let mut sub = explain_declarator(func, skip_name);
            let use_name = !skip_name && sub.identifier_name.is_some();
            match sub.plurality {
                Plurality::Singular => {
                    sub.msg.push_str("a ");
                    sub.msg.push(HighlightedTextSegment::new("function", Highlight::QuasiKeyword));
                    if use_name {
                        let name_opt = sub.identifier_name;
                        sub.identifier_name = None;
                        let name = name_opt.unwrap();
                        sub.msg.push_str(" named ");
                        sub.msg.push(HighlightedTextSegment::new(name.as_str(), Highlight::Ident));
                    }
                    sub.msg.push_str(" that takes ");
                },
                Plurality::Plural => {
                    if use_name {
                        proof {
                            lemma_pending_name_singular(func@);
                        }
                        return vstd::pervasive::unreached();
                    }
                    sub.msg.push(
                        HighlightedTextSegment::new("functions", Highlight::QuasiKeyword),
                    );
                    sub.msg.push_str(" that take ");
                },
            }
            explain_params(&mut sub.msg, params);
            match sub.plurality {
                Plurality::Singular => sub.msg.push_str(" and returns "),
                Plurality::Plural => sub.msg.push_str(" and return "),
            }
            let r = sub.singular();
            proof {
                crate::ast::lemma_function_view(*func, *params);
                assert(r@ =~~= sp_explain_declarator(declarator@, skip_name));
            }
            r
        },
    }
}

/// Renders the parameter list section of a function phrase.
fn explain_params(msg: &mut HighlightedText, params: &Vec<Declaration>)
    ensures
        final(msg)@ == sp_params_section(old(msg)@, crate::ast::view_decls(params@)),
    decreases params, 0int,
{
    let ghost pv = crate::ast::view_decls(params@);
    let n = params.len();
    if n == 0 {
        msg.push_str("no parameters");
    } else if n == 1 {
        msg.push_str("(");
        msg.extend(explain_declaration(&params[0]));
        msg.push_str(")");
    } else if n == 2 {
        msg.push_str("(");
        msg.extend(explain_declaration(&params[0]));
        msg.push_str(" and ");
        msg.extend(explain_declaration(&params[1]));
        msg.push_str(")");
    } else {
        msg.push_str("(");
        let ghost segs0 = msg@;
        let mut i: usize = 0;
        while i < n - 1
            invariant
                0 <= i <= n - 1,
                n == params@.len(),
                n >= 3,
                pv == crate::ast::view_decls(params@),
                pv.len() == n,
                sp_params_commas(segs0, pv, 0) == sp_params_commas(msg@, pv, i as int),
            decreases n - 1 - i,
        {
            msg.extend(explain_declaration(&params[i]));
            msg.push_str(", ");
            i = i + 1;
        }
        msg.push_str("and ");
        msg.extend(explain_declaration(&params[n - 1]));
        msg.push_str(")");
    }
    proof {
        assert(final(msg)@ =~~= sp_params_section(old(msg)@, pv));
    }
}

/// An array declarator is always described in the plural at its own level,
/// whatever the plurality of its element declarator.
pub proof fn lemma_array_always_plural(inner: DeclaratorV, size: Option<usize>, skip_name: bool)
    ensures
        sp_explain_declarator(
            DeclaratorV::Array(Box::new(inner), size),
            skip_name,
        ).plurality == Plurality::Plural,
{
}

/// A function declarator is always described in the singular at its own
/// level, whatever the plurality of its return declarator.
pub proof fn lemma_function_always_singular(
    func: DeclaratorV,
    params: Seq<DeclarationV>,
    skip_name: bool,
)
    ensures
        sp_explain_declarator(
            DeclaratorV::Function(Box::new(func), params),
            skip_name,
        ).plurality == Plurality::Singular,
{
}

/// A pointer declarator keeps the plurality of what it points at: a pointer
/// to one thing is singular, and the pointers inside an array stay plural.
pub proof fn lemma_ptr_keeps_plurality(inner: DeclaratorV, quals: TypeQualifiers, skip_name: bool)
    ensures
        sp_explain_declarator(
            DeclaratorV::Ptr(Box::new(inner), quals),
            skip_name,
        ).plurality == sp_explain_declarator(inner, skip_name).plurality,
{
}

/// A pointer declarator to a singular declarator is itself described in the
/// singular.
pub proof fn lemma_ptr_singular(inner: DeclaratorV, quals: TypeQualifiers, skip_name: bool)
    requires
        sp_explain_declarator(inner, skip_name).plurality == Plurality::Singular,
    ensures
        sp_explain_declarator(
            DeclaratorV::Ptr(Box::new(inner), quals),
            skip_name,
        ).plurality == Plurality::Singular,
{
}

/// Explaining an unqualified builtin-type declaration of a named variable
/// yields exactly the article, the type's spelling, and the declared name:
/// "<article><spelling> named <name>".
pub proof fn lemma_explain_primitive_named(spelling: Seq<char>, name: Seq<char>)
    requires
        spelling.len() > 0,
    ensures
        ({
            let d = DeclarationV {
                base_type: QualifiedTypeV {
                    quals: TypeQualifiers::empty(),
                    ty: TypeV::Primitive(spelling),
                },
                declarator: DeclaratorV::Ident(name),
            };
            sp_plain_text(sp_explain_declaration(d)) == sp_article(spelling) + spelling
                + " named "@ + name
        }),
{
    let d = DeclarationV {
        base_type: QualifiedTypeV {
            quals: TypeQualifiers::empty(),
            ty: TypeV::Primitive(spelling),
        },
        declarator: DeclaratorV::Ident(name),
    };
    let segs = sp_explain_declaration(d);
    let a = SegV { text: sp_article(spelling), highlight: Highlight::Plain };
    let t = SegV { text: spelling, highlight: Highlight::PrimitiveType };
    let m = SegV { text: " named "@, highlight: Highlight::Plain };
    let n = SegV { text: name, highlight: Highlight::Ident };
    assert(segs =~= seq![a, t, m, n]);
    assert(seq![a, t, m, n].drop_last() =~= seq![a, t, m]);
    assert(seq![a, t, m].drop_last() =~= seq![a, t]);
    assert(seq![a, t].drop_last() =~= seq![a]);
    assert(seq![a].drop_last() =~= Seq::<SegV>::empty());
    assert(sp_plain_text(Seq::<SegV>::empty()) == Seq::<char>::empty());
    assert(sp_plain_text(seq![a]) =~= a.text);
    assert(sp_plain_text(seq![a, t]) =~= a.text + t.text);
    assert(sp_plain_text(seq![a, t, m]) =~= a.text + t.text + m.text);
    assert(sp_plain_text(segs) =~= sp_article(spelling) + spelling + " named "@ + name);
}

/// All but the last explanation, each followed by ";" and a blank line.
pub open spec fn sp_explained_heads<F: Formatter>(
    formatter: &F,
    decls: Seq<DeclarationV>,
    i: int,
) -> Seq<char>
    decreases decls.len() - i,
{
    if i < 0 || i >= decls.len() - 1 {
        Seq::empty()
    } else {
        formatter.spec_format(sp_explain_declaration(decls[i])) + ";\n\n"@
            + sp_explained_heads(formatter, decls, i + 1)
    }
}

/// The explanations of a sequence of declarations, rendered and joined: one
/// declaration stands alone, several are each closed by ";" and separated by
/// blank lines.
pub open spec fn sp_explain_declarations<F: Formatter>(
    formatter: &F,
    decls: Seq<DeclarationV>,
) -> Seq<char> {
    if decls.len() == 0 {
        Seq::empty()
    } else if decls.len() == 1 {
        formatter.spec_format(sp_explain_declaration(decls[0]))
    } else {
        sp_explained_heads(formatter, decls, 0) + formatter.spec_format(
            sp_explain_declaration(decls.last()),
        ) + ";"@
    }
}

/// Explains a list of declarations as one rendered string.
pub fn explain_declarations<F: Formatter>(formatter: &F, decls: &Vec<Declaration>) -> (r: String)
    ensures
        r@ == sp_explain_declarations(formatter, crate::ast::view_decls(decls@)),
{
    let ghost dv = crate::ast::view_decls(decls@);
    let n = decls.len();
    if n == 0 {
        proof {
            reveal_strlit("");
        }
        String::from_str("")
    } else if n == 1 {
        explain_declaration(&decls[0]).format_to_string(formatter)
    } else {
        let mut out = String::new();
        let mut i: usize = 0;
        while i < n - 1
            invariant
                0 <= i <= n - 1,
                n >= 2,
                n == decls@.len(),
                dv == crate::ast::view_decls(decls@),
                dv.len() == n,
                sp_explained_heads(formatter, dv, 0) == out@ + sp_explained_heads(
                    formatter,
                    dv,
                    i as int,
                ),
            decreases n - 1 - i,
        {
            let ghost pre = out@;
            out.append(explain_declaration(&decls[i]).format_to_string(formatter).as_str());
            out.append(";\n\n");
            proof {
                assert(pre + (formatter.spec_format(sp_explain_declaration(dv[i as int]))
                    + ";\n\n"@ + sp_explained_heads(formatter, dv, i + 1)) =~= out@
                    + sp_explained_heads(formatter, dv, i + 1));
            }
            i = i + 1;
        }
        proof {
            assert(sp_explained_heads(formatter, dv, n - 1) =~= Seq::<char>::empty());
            assert(out@ + Seq::<char>::empty() =~= out@);
        }
        out.append(explain_declaration(&decls[n - 1]).format_to_string(formatter).as_str());
        out.append(";");
        out
    }
}

/// Parses a source text with a fresh registry and explains every declaration
/// in it, rendered with the given formatter; a failed parse yields the
/// rendered message of each error instead.
pub fn explain<F: Formatter>(formatter: &F, src: &str) -> (r: Result<String, Vec<String>>)
    ensures
        ({
            let sp = sp_parse(src@, Seq::empty());
            match r {
                Ok(text) => sp.result is Ok && text@ == sp_explain_declarations(
                    formatter,
                    sp.result->Ok_0,
                ),
                Err(msgs) => sp.result is Err && msgs@.len() == 1 && msgs@[0]@
                    == sp_error_message(sp.result->Err_0),
            }
        }),
{
    let mut state = State::new();
    match parse(src, &mut state) {
        Ok(decls) => Ok(explain_declarations(formatter, &decls)),
        Err(errs) => {
            let mut msgs: Vec<String> = Vec::new();
            msgs.push(errs[0].to_message());
            Err(msgs)
        },
    }
}

} // verus!
