//! Styled text: the unit the scrollback buffer stores and the wrapper
//! breaks into rows. A line is a sequence of spans, each a string with
//! one style. Widths are display-cell widths and breaking points are
//! grapheme-cluster boundaries, both taken from the Unicode tables.

use vstd::prelude::*;

verus! {

/// One rendering style, carried through the core untouched. The code is
/// an opaque token assigned by the embedding layer, which maps it to the
/// terminal's actual colors and modifiers.
#[derive(Clone, Copy, PartialEq, Eq, Structural, Debug)]
pub struct Style {
    pub code: u32,
}

/// A run of text drawn in one style.
#[derive(Debug)]
pub struct StyledSpan {
    pub text: String,
    pub style: Style,
}

/// A line of styled text: spans drawn left to right.
#[derive(Debug)]
pub struct StyledLine {
    pub spans: Vec<StyledSpan>,
}

/// Mathematical model of a span.
#[verifier::ext_equal]
pub ghost struct SpanModel {
    pub text: Seq<char>,
    pub style: Style,
}

/// Mathematical model of a line.
#[verifier::ext_equal]
pub ghost struct LineModel {
    pub spans: Seq<SpanModel>,
}

impl View for StyledSpan {
    type V = SpanModel;

    open spec fn view(&self) -> SpanModel {
        SpanModel { text: self.text@, style: self.style }
    }
}

impl View for StyledLine {
    type V = LineModel;

    open spec fn view(&self) -> LineModel {
        LineModel { spans: self.spans@.map_values(|sp: StyledSpan| sp@) }
    }
}

/// Display-cell width of a string, as the Unicode width tables give it.
pub uninterp spec fn width_of(s: Seq<char>) -> nat;

/// Grapheme-cluster segmentation of a string: the extended grapheme
/// clusters, in order. Segmentation partitions the string, so the
/// clusters concatenate back to it.
pub uninterp spec fn graphemes_of(s: Seq<char>) -> Seq<Seq<char>>;

/// Relies on unicode_width::UnicodeWidthStr::width: the number of
/// display cells the string occupies, a function of the string alone.
#[verifier::external_body]
pub(crate) fn str_width(s: &str) -> (r: usize)
    ensures
        r as nat == width_of(s@),
{
    unicode_width::UnicodeWidthStr::width(s)
}

/// Relies on unicode_segmentation::UnicodeSegmentation::graphemes with
/// extended clusters: the clusters partition the input, in order, so
/// concatenating them yields the input back.
#[verifier::external_body]
pub(crate) fn graphemes(s: &str) -> (r: Vec<String>)
    ensures
        r@.map_values(|g: String| g@) == graphemes_of(s@),
        r@.map_values(|g: String| g@).flatten() == s@,
        forall|k: int| 0 <= k < r@.len() ==> (#[trigger] r@[k])@.len() > 0,
{
    unicode_segmentation::UnicodeSegmentation::graphemes(s, true)
        .map(|g: &str| g.to_owned())
        .collect()
}

/// Relies on alloc's String::push: appends one character.
#[verifier::external_body]
pub(crate) fn push_char(s: &mut String, c: char)
    ensures
        final(s)@ == old(s)@.push(c),
{
    s.push(c);
}

/// Caps an unbounded width at what a machine word can hold.
pub open spec fn sat_usize(n: nat) -> nat {
    if n > usize::MAX {
        usize::MAX as nat
    } else {
        n
    }
}

/// Display width of a line: the sum of its spans' widths.
pub open spec fn spans_width(spans: Seq<SpanModel>) -> nat
    decreases spans.len(),
{
    if spans.len() == 0 {
        0
    } else {
        spans_width(spans.drop_last()) + width_of(spans.last().text)
    }
}

impl StyledSpan {
    /// A copy with the same text and style.
    pub fn duplicate(&self) -> (r: StyledSpan)
        ensures
            r@ == self@,
    {
        StyledSpan { text: self.text.clone(), style: self.style }
    }
}

impl StyledLine {
    /// A line with no spans.
    pub fn empty() -> (r: StyledLine)
        ensures
            r@.spans.len() == 0,
    {
        StyledLine { spans: Vec::new() }
    }

    /// Display width of the line, saturating at the machine's limit.
    #[verifier::loop_isolation(false)]
    pub fn width(&self) -> (r: usize)
        ensures
            r as nat == sat_usize(spans_width(self@.spans)),
    {
        let mut total: usize = 0;
        let mut i: usize = 0;
        while i < self.spans.len()
            invariant
                i <= self.spans.len(),
                total as nat == sat_usize(spans_width(self@.spans.take(i as int))),
            decreases self.spans.len() - i,
        {
            let wdth = str_width(self.spans[i].text.as_str());
            total = total.saturating_add(wdth);
            proof {
                let pre = self@.spans.take(i as int);
                let cur = self@.spans.take(i + 1int);
                assert(cur.drop_last() =~= pre);
                assert(cur.last() == self@.spans[i as int]);
                assert(spans_width(cur) == spans_width(pre) + width_of(self@.spans[i as int].text));
            }
            i = i + 1;
        }
        proof {
            assert(self@.spans.take(self.spans@.len() as int) =~= self@.spans);
        }
        total
    }

    /// A copy with the same spans.
    pub fn duplicate(&self) -> (r: StyledLine)
        ensures
            r@ == self@,
    {
        let mut spans: Vec<StyledSpan> = Vec::new();
        let mut i: usize = 0;
        while i < self.spans.len()
            invariant
                i <= self.spans.len(),
                spans@.len() == i,
                forall|j: int| 0 <= j < i ==> spans@[j]@ == self.spans@[j]@,
            decreases self.spans.len() - i,
        {
            spans.push(self.spans[i].duplicate());
            i = i + 1;
        }
        let r = StyledLine { spans };
        proof {
            assert(r@.spans =~= self@.spans);
            assert(r@ =~= self@);
        }
        r
    }
}

} // verus!
