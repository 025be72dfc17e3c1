//! Structured parse errors: a byte span, the alternatives that were valid at
//! that point, and the token (or end of input) actually found.

use vstd::prelude::*;

use crate::lexical::{sp_number_text, number_to_string};

verus! {

/// A named grammar production that can appear in an "expected ..." message.
#[derive(Debug, Clone, Copy, PartialEq, Eq, Structural)]
pub enum Label {
    TypeQualifier,
    Type,
    FunctionParameter,
    Identifier,
}

impl Label {
    /// The label's message text.
    pub open spec fn spec_text(self) -> Seq<char> {
        match self {
            Label::TypeQualifier => "type qualifier"@,
            Label::Type => "type"@,
            Label::FunctionParameter => "function parameter"@,
            Label::Identifier => "identifier"@,
        }
    }

    /// The label's message text.
    pub fn text(&self) -> (r: &'static str)
        ensures
            r@ == self.spec_text(),
    {
        match self {
            Label::TypeQualifier => "type qualifier",
            Label::Type => "type",
            Label::FunctionParameter => "function parameter",
            Label::Identifier => "identifier",
        }
    }
}

/// One alternative that would have been syntactically valid.
#[derive(Debug, Clone, Copy, PartialEq, Eq)]
pub enum Pattern {
    /// A literal token.
    Token(&'static str),
    /// A named production.
    Label(Label),
    /// Any token at all.
    Anything,
    /// The end of the input.
    EndOfInput,
}

/// Mathematical view of [`Pattern`].
pub enum PatternV {
    Token(Seq<char>),
    Label(Label),
    Anything,
    EndOfInput,
}

impl View for Pattern {
    type V = PatternV;

    open spec fn view(&self) -> PatternV {
        match self {
            Pattern::Token(t) => PatternV::Token(t@),
            Pattern::Label(l) => PatternV::Label(*l),
            Pattern::Anything => PatternV::Anything,
            Pattern::EndOfInput => PatternV::EndOfInput,
        }
    }
}

/// The message text for one pattern.
pub open spec fn sp_pattern_text(p: PatternV) -> Seq<char> {
    match p {
        PatternV::Token(t) => "'"@ + t + "'"@,
        PatternV::Label(l) => l.spec_text(),
        PatternV::Anything => "anything"@,
        PatternV::EndOfInput => "end of input"@,
    }
}

/// Why the parse failed.
#[derive(Debug, Clone, PartialEq, Eq)]
pub enum ErrorReason {
    /// The alternatives that were valid here, and the token found instead
    /// (`None` means end of input).
    Expected { expected: Vec<Pattern>, found: Option<String> },
    /// A message of its own, for semantic errors.
    Custom(String),
}

/// Mathematical view of [`ErrorReason`].
#[verifier::ext_equal]
pub enum ReasonV {
    Expected(Seq<PatternV>, Option<Seq<char>>),
    Custom(Seq<char>),
}

/// The views of a pattern list, elementwise.
pub open spec fn patterns_view(ps: Seq<Pattern>) -> Seq<PatternV> {
    Seq::new(ps.len(), |i: int|
        if 0 <= i < ps.len() {
            ps[i]@
        } else {
            vstd::pervasive::arbitrary()
        })
}

impl View for ErrorReason {
    type V = ReasonV;

    open spec fn view(&self) -> ReasonV {
        match self {
            ErrorReason::Expected { expected, found } => ReasonV::Expected(
                patterns_view(expected@),
                match found {
                    Some(t) => Some(t@),
                    None => None,
                },
            ),
            ErrorReason::Custom(m) => ReasonV::Custom(m@),
        }
    }
}

/// A parse error, with a character span into the source.
#[derive(Debug, Clone, PartialEq, Eq)]
pub struct ParseError {
    pub start: usize,
    pub end: usize,
    pub reason: ErrorReason,
}

/// Mathematical view of [`ParseError`].
#[verifier::ext_equal]
pub struct ErrV {
    pub start: int,
    pub end: int,
    pub reason: ReasonV,
}

impl View for ParseError {
    type V = ErrV;

    open spec fn view(&self) -> ErrV {
        ErrV { start: self.start as int, end: self.end as int, reason: self.reason@ }
    }
}

/// The expected alternatives joined in prose: nothing becomes "[unknown]",
/// two join with "or", more use commas with "or" before the last.
pub open spec fn sp_expected_list(ps: Seq<PatternV>) -> Seq<char> {
    if ps.len() == 0 {
        "[unknown]"@
    } else if ps.len() == 1 {
        sp_pattern_text(ps[0])
    } else if ps.len() == 2 {
        sp_pattern_text(ps[0]) + " or "@ + sp_pattern_text(ps[1])
    } else {
        sp_expected_commas(ps, 0) + "or "@ + sp_pattern_text(ps.last())
    }
}

/// Every pattern but the last, each followed by ", ".
pub open spec fn sp_expected_commas(ps: Seq<PatternV>, i: int) -> Seq<char>
    decreases ps.len() - i,
{
    if i < 0 || i >= ps.len() - 1 {
        Seq::empty()
    } else {
        sp_pattern_text(ps[i]) + ", "@ + sp_expected_commas(ps, i + 1)
    }
}

/// The rendered message of an error: `at {start}..{end}: ` followed by either
/// `expected {alternatives}, but found {token or end of input}` or the
/// error's own message.
pub open spec fn sp_error_message(e: ErrV) -> Seq<char> {
    let head = "at "@ + sp_number_text(e.start as nat) + ".."@ + sp_number_text(e.end as nat)
        + ": "@;
    match e.reason {
        ReasonV::Expected(ps, found) => head + "expected "@ + sp_expected_list(ps)
            + ", but found "@ + match found {
            Some(t) => "'"@ + t + "'"@,
            None => "end of input"@,
        },
        ReasonV::Custom(m) => head + m,
    }
}

impl ParseError {
    /// Renders the error as a message.
    pub fn to_message(&self) -> (r: String)
        ensures
            r@ == sp_error_message(self@),
    {
        let mut out = String::from_str("at ");
        out.append(number_to_string(self.start).as_str());
        out.append("..");
        out.append(number_to_string(self.end).as_str());
        out.append(": ");
        match &self.reason {
            ErrorReason::Expected { expected, found } => {
                let ghost psv = self@.reason->Expected_0;
                out.append("expected ");
                let n = expected.len();
                proof {
                    assert(psv.len() == n);
                    assert(forall|k: int| 0 <= k < n ==> #[trigger] psv[k] == expected@[k]@);
                }
                if n == 0 {
                    out.append("[unknown]");
                } else if n == 1 {
                    append_pattern(&mut out, &expected[0]);
                } else if n == 2 {
                    append_pattern(&mut out, &expected[0]);
                    out.append(" or ");
                    append_pattern(&mut out, &expected[1]);
                } else {
                    let mut i: usize = 0;
                    while i < n - 1
                        invariant
                            0 <= i <= n - 1,
                            n == expected@.len(),
                            n == psv.len(),
                            n >= 3,
                            forall|k: int| 0 <= k < n ==> #[trigger] psv[k] == expected@[k]@,
                            out@ == "at "@ + sp_number_text(self.start as nat) + ".."@
                                + sp_number_text(self.end as nat) + ": "@ + "expected "@
                                + sp_expected_commas_prefix(psv, i as int),
                        decreases n - 1 - i,
                    {
                        append_pattern(&mut out, &expected[i]);
                        out.append(", ");
                        proof {
                            lemma_expected_commas_prefix_step(psv, i as int);
                        }
                        i = i + 1;
                    }
                    proof {
                        lemma_expected_commas_prefix_all(psv, 0);
                    }
                    out.append("or ");
                    append_pattern(&mut out, &expected[n - 1]);
                }
                out.append(", but found ");
                match found {
                    Some(t) => {
                        out.append("'");
                        out.append(t.as_str());
                        out.append("'");
                    },
                    None => {
                        out.append("end of input");
                    },
                }
            },
            ErrorReason::Custom(m) => {
                out.append(m.as_str());
            },
        }
        out
    }

    /// The start of the error's span.
    pub fn start(&self) -> (r: usize)
        ensures
            r == self.start,
    {
        self.start
    }

    /// The end of the error's span.
    pub fn end(&self) -> (r: usize)
        ensures
            r == self.end,
    {
        self.end
    }
}

/// The first `i` patterns, each followed by ", ".
pub open spec fn sp_expected_commas_prefix(ps: Seq<PatternV>, i: int) -> Seq<char>
    decreases i,
{
    if i <= 0 {
        Seq::empty()
    } else {
        sp_expected_commas_prefix(ps, i - 1) + sp_pattern_text(ps[i - 1]) + ", "@
    }
}

proof fn lemma_expected_commas_prefix_step(ps: Seq<PatternV>, i: int)
    requires
        0 <= i,
    ensures
        sp_expected_commas_prefix(ps, i + 1) == sp_expected_commas_prefix(ps, i)
            + sp_pattern_text(ps[i]) + ", "@,
{
}

/// The left-folded and right-folded spellings of the comma list agree.
proof fn lemma_expected_commas_prefix_all(ps: Seq<PatternV>, i: int)
    requires
        0 <= i <= ps.len() - 1,
    ensures
        sp_expected_commas_prefix(ps, ps.len() - 1) == sp_expected_commas_prefix(ps, i)
            + sp_expected_commas(ps, i),
    decreases ps.len() - i,
{
    if i == ps.len() - 1 {
        assert(sp_expected_commas(ps, i) =~= Seq::empty());
        assert(sp_expected_commas_prefix(ps, i) + Seq::<char>::empty() =~= sp_expected_commas_prefix(
            ps,
            i,
        ));
    } else {
        lemma_expected_commas_prefix_all(ps, i + 1);
        lemma_expected_commas_prefix_step(ps, i);
        assert(sp_expected_commas_prefix(ps, i) + (sp_pattern_text(ps[i]) + ", "@
            + sp_expected_commas(ps, i + 1)) =~= (sp_expected_commas_prefix(ps, i)
            + sp_pattern_text(ps[i]) + ", "@) + sp_expected_commas(ps, i + 1));
    }
}

/// Appends one pattern's message text.
fn append_pattern(out: &mut String, p: &Pattern)
    ensures
        final(out)@ == old(out)@ + sp_pattern_text(p@),
{
    match p {
        Pattern::Token(t) => {
            out.append("'");
            out.append(t);
            out.append("'");
        },
        Pattern::Label(l) => {
            out.append(l.text());
        },
        Pattern::Anything => {
            out.append("anything");
        },
        Pattern::EndOfInput => {
            out.append("end of input");
        },
    }
}

} // verus!
