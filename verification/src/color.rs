//! Highlighted text: an explanation represented as tagged segments, rendered
//! by a pluggable formatter.

use vstd::prelude::*;

verus! {

/// Semantic tag of a piece of the explanation.
#[derive(Debug, Clone, Copy, PartialEq, Eq, Structural)]
#[non_exhaustive]
pub enum Highlight {
    /// No highlight.
    Plain,
    /// A type or storage class qualifier.
    Qualifier,
    /// A builtin type.
    PrimitiveType,
    /// A user-defined type, like a struct or typedef.
    UserDefinedType,
    /// A declared identifier.
    Ident,
    /// A number literal.
    Number,
    /// A synthesized structural word such as "pointer" or "array" that stands
    /// in for a C keyword.
    QuasiKeyword,
}

/// A piece of text with a single highlight tag.
#[derive(Debug, Clone, PartialEq, Eq)]
pub struct HighlightedTextSegment {
    pub text: String,
    pub highlight: Highlight,
}

/// Mathematical view of [`HighlightedTextSegment`].
#[verifier::ext_equal]
pub struct SegV {
    pub text: Seq<char>,
    pub highlight: Highlight,
}

impl View for HighlightedTextSegment {
    type V = SegV;

    open spec fn view(&self) -> SegV {
        SegV { text: self.text@, highlight: self.highlight }
    }
}

impl HighlightedTextSegment {
    /// Creates a new segment.
    pub fn new(text: &str, highlight: Highlight) -> (r: HighlightedTextSegment)
        ensures
            r@ == (SegV { text: text@, highlight }),
    {
        HighlightedTextSegment { text: text.to_owned(), highlight }
    }
}

impl From<String> for HighlightedTextSegment {
    /// Converts a string into a segment with no highlight.
    fn from(text: String) -> (r: HighlightedTextSegment)
        ensures
            r@ == (SegV { text: text@, highlight: Highlight::Plain }),
    {
        HighlightedTextSegment { text, highlight: Highlight::Plain }
    }
}

impl vstd::std_specs::convert::FromSpecImpl<String> for HighlightedTextSegment {
    open spec fn obeys_from_spec() -> bool {
        true
    }

    open spec fn from_spec(text: String) -> HighlightedTextSegment {
        HighlightedTextSegment { text, highlight: Highlight::Plain }
    }
}

/// A piece of text made up of segments, each with its own highlight tag.
#[derive(Debug, Clone, PartialEq, Eq)]
pub struct HighlightedText(pub Vec<HighlightedTextSegment>);

impl View for HighlightedText {
    type V = Seq<SegV>;

    open spec fn view(&self) -> Seq<SegV> {
        Seq::new(self.0@.len(), |i: int|
            if 0 <= i < self.0@.len() {
                self.0@[i]@
            } else {
                vstd::pervasive::arbitrary()
            })
    }
}

/// Appending unhighlighted text to a segment sequence: it melts into a
/// trailing unhighlighted segment, or starts a new one.
pub open spec fn sp_push_str(segs: Seq<SegV>, text: Seq<char>) -> Seq<SegV> {
    if segs.len() > 0 && segs.last().highlight == Highlight::Plain {
        segs.update(segs.len() - 1, SegV { text: segs.last().text + text, highlight: Highlight::Plain })
    } else {
        segs.push(SegV { text, highlight: Highlight::Plain })
    }
}

/// The concatenation of the texts of all segments.
pub open spec fn sp_plain_text(segs: Seq<SegV>) -> Seq<char>
    decreases segs.len(),
{
    if segs.len() == 0 {
        Seq::empty()
    } else {
        sp_plain_text(segs.drop_last()) + segs.last().text
    }
}

/// The segment sequence with adjacent segments of equal highlight merged.
pub open spec fn sp_coalesced(segs: Seq<SegV>) -> Seq<SegV>
    decreases segs.len(),
{
    if segs.len() == 0 {
        segs
    } else {
        let rest = sp_coalesced(segs.drop_last());
        if rest.len() > 0 && rest.last().highlight == segs.last().highlight {
            rest.update(rest.len() - 1, SegV {
                text: rest.last().text + segs.last().text,
                highlight: segs.last().highlight,
            })
        } else {
            rest.push(segs.last())
        }
    }
}

impl HighlightedText {
    /// Creates a new empty text.
    pub fn new() -> (r: HighlightedText)
        ensures
            r@ == Seq::<SegV>::empty(),
    {
        let r = HighlightedText(Vec::new());
        proof {
            assert(r@ =~= Seq::<SegV>::empty());
        }
        r
    }

    /// The number of segments.
    pub fn len(&self) -> (r: usize)
        ensures
            r == self@.len(),
    {
        self.0.len()
    }

    /// The segment at the given index.
    pub fn segment(&self, i: usize) -> (r: &HighlightedTextSegment)
        requires
            i < self@.len(),
        ensures
            r@ == self@[i as int],
    {
        &self.0[i]
    }

    /// Appends a segment.
    pub fn push(&mut self, segment: HighlightedTextSegment)
        ensures
            final(self)@ == old(self)@.push(segment@),
    {
        self.0.push(segment);
        proof {
            assert(final(self)@ =~= old(self)@.push(segment@));
        }
    }

    /// Appends every segment of another text.
    pub fn extend(&mut self, other: HighlightedText)
        ensures
            final(self)@ == old(self)@ + other@,
    {
        let mut rest = other.0;
        let ghost restv = rest@;
        let mut i: usize = 0;
        let n = rest.len();
        while i < n
            invariant
                0 <= i <= n,
                n == restv.len(),
                rest@ == restv,
                self@ =~= old(self)@ + Seq::new(i as nat, |j: int|
                    if 0 <= j < restv.len() {
                        restv[j]@
                    } else {
                        vstd::pervasive::arbitrary()
                    }),
            decreases n - i,
        {
            let ghost prev = self@;
            let seg = rest[i].clone_segment();
            self.0.push(seg);
            proof {
                assert(self@ =~= prev.push(restv[i as int]@));
            }
            i = i + 1;
        }
        proof {
            assert(final(self)@ =~= old(self)@ + other@);
        }
    }

    /// Appends the given string as unhighlighted text; if the last segment is
    /// unhighlighted, the string melts into it instead of starting a new
    /// segment.
    pub fn push_str(&mut self, text: &str)
        ensures
            final(self)@ == sp_push_str(old(self)@, text@),
    {
        let n = self.0.len();
        if n > 0 {
            let is_plain = matches!(self.0[n - 1].highlight, Highlight::Plain);
            if is_plain {
                let mut seg = self.0.pop().unwrap();
                seg.text.append(text);
                self.0.push(seg);
                proof {
                    assert(final(self)@ =~= sp_push_str(old(self)@, text@));
                }
                return;
            }
        }
        self.0.push(HighlightedTextSegment::new(text, Highlight::Plain));
        proof {
            assert(final(self)@ =~= sp_push_str(old(self)@, text@));
        }
    }

    /// Formats the text with the provided formatter, returning a string.
    pub fn format_to_string<F: Formatter>(&self, formatter: &F) -> (r: String)
        ensures
            r@ == formatter.spec_format(self@),
    {
        formatter.format(self)
    }

    /// Returns a new text where consecutive segments with the same highlight
    /// are merged into one segment.
    pub fn coalesced(&self) -> (r: HighlightedText)
        ensures
            r@ == sp_coalesced(self@),
    {
        let mut out = HighlightedText::new();
        let mut i: usize = 0;
        let n = self.0.len();
        while i < n
            invariant
                0 <= i <= n,
                n == self@.len(),
                out@ == sp_coalesced(self@.subrange(0, i as int)),
            decreases n - i,
        {
            let ghost prefix = self@.subrange(0, i + 1);
            proof {
                assert(prefix.drop_last() =~= self@.subrange(0, i as int));
                assert(prefix.last() == self@[i as int]);
            }
            let seg = self.0[i].clone_segment();
            let m = out.0.len();
            if m > 0 && highlight_eq(&out.0[m - 1].highlight, &seg.highlight) {
                let mut last = out.0.pop().unwrap();
                last.text.append(seg.text.as_str());
                out.0.push(last);
                proof {
                    assert(out@ =~= sp_coalesced(prefix));
                }
            } else {
                out.0.push(seg);
                proof {
                    assert(out@ =~= sp_coalesced(prefix));
                }
            }
            i = i + 1;
        }
        proof {
            assert(self@.subrange(0, n as int) =~= self@);
        }
        out
    }
}

impl HighlightedTextSegment {
    /// Copies the segment.
    pub fn clone_segment(&self) -> (r: HighlightedTextSegment)
        ensures
            r@ == self@,
    {
        HighlightedTextSegment { text: clone_string(&self.text), highlight: self.highlight }
    }
}

/// Copies a string.
fn clone_string(s: &String) -> (r: String)
    ensures
        r@ == s@,
{
    String::from_str(s.as_str())
}

/// Whether two highlight tags are the same.
fn highlight_eq(a: &Highlight, b: &Highlight) -> (r: bool)
    ensures
        r == (a == b),
{
    *a == *b
}

impl From<Vec<HighlightedTextSegment>> for HighlightedText {
    /// Wraps a segment list as a text.
    fn from(segments: Vec<HighlightedTextSegment>) -> (r: HighlightedText)
        ensures
            r == (HighlightedText(segments)),
    {
        HighlightedText(segments)
    }
}

impl vstd::std_specs::convert::FromSpecImpl<Vec<HighlightedTextSegment>> for HighlightedText {
    open spec fn obeys_from_spec() -> bool {
        true
    }

    open spec fn from_spec(segments: Vec<HighlightedTextSegment>) -> HighlightedText {
        HighlightedText(segments)
    }
}

impl From<String> for HighlightedText {
    /// Wraps a string as a single unhighlighted segment.
    fn from(text: String) -> (r: HighlightedText)
        ensures
            r@ == seq![SegV { text: text@, highlight: Highlight::Plain }],
    {
        let mut v: Vec<HighlightedTextSegment> = Vec::new();
        v.push(HighlightedTextSegment::from(text));
        let r = HighlightedText(v);
        proof {
            assert(r@ =~= seq![SegV { text: text@, highlight: Highlight::Plain }]);
        }
        r
    }
}

impl vstd::std_specs::convert::FromSpecImpl<String> for HighlightedText {
    open spec fn obeys_from_spec() -> bool {
        false
    }

    open spec fn from_spec(text: String) -> HighlightedText {
        vstd::pervasive::arbitrary()
    }
}

/// Maps each segment's tag to a styling wrapper and concatenates the results.
pub trait Formatter {
    /// What this formatter produces for the given segments.
    spec fn spec_format(&self, segs: Seq<SegV>) -> Seq<char>;

    /// Renders the given text into one string.
    fn format(&self, text: &HighlightedText) -> (r: String)
        ensures
            r@ == self.spec_format(text@),
    ;
}

/// Formatter which discards all styling and returns the plain text.
#[derive(Debug, Clone, Copy)]
pub struct PlainFormatter;

impl PlainFormatter {
    /// Creates a new `PlainFormatter`.
    pub fn new() -> (r: PlainFormatter)
        ensures
            r == (PlainFormatter),
    {
        PlainFormatter
    }
}

impl Default for PlainFormatter {
    /// Same as [`PlainFormatter::new`].
    fn default() -> (r: PlainFormatter)
        ensures
            r == (PlainFormatter),
    {
        PlainFormatter
    }
}

impl Formatter for PlainFormatter {
    /// A plain formatter produces the concatenation of the segment texts.
    open spec fn spec_format(&self, segs: Seq<SegV>) -> Seq<char> {
        sp_plain_text(segs)
    }

    fn format(&self, text: &HighlightedText) -> (r: String)
    {
        let mut out = String::new();
        let mut i: usize = 0;
        let n = text.0.len();
        while i < n
            invariant
                0 <= i <= n,
                n == text@.len(),
                out@ == sp_plain_text(text@.subrange(0, i as int)),
            decreases n - i,
        {
            proof {
                assert(text@.subrange(0, i + 1).drop_last() =~= text@.subrange(0, i as int));
                assert(text@.subrange(0, i + 1).last() == text@[i as int]);
            }
            out.append(text.0[i].text.as_str());
            i = i + 1;
        }
        proof {
            assert(text@.subrange(0, n as int) =~= text@);
        }
        out
    }
}

} // verus!
