//! The display-span model: one tagged unit of document text (heading, link,
//! plain text, or paragraph break) with a document-wide position index.

use vstd::prelude::*;

verus! {

/// One ordered unit of displayable text produced by the document normalizer.
///
/// `index` increases monotonically and contiguously within a document.
/// A heading span carries its level (1 to 6) in `heading_level`; a link span
/// carries its target text in `link`; a break span marks a line boundary and
/// has empty text.
#[derive(Debug, Clone)]
pub struct FormattedSpan {
    pub index: usize,
    pub text: String,
    pub is_heading: bool,
    pub heading_level: usize,
    pub link: Option<String>,
    pub is_break: bool,
}

/// The mathematical shape of a span: every field of `FormattedSpan` except
/// the document-wide position index, with text as character sequences.
pub struct SpanShape {
    pub text: Seq<char>,
    pub is_heading: bool,
    pub heading_level: nat,
    pub link: Option<Seq<char>>,
    pub is_break: bool,
}

impl FormattedSpan {
    /// The shape of this span: its content without its position index.
    pub open spec fn shape(self) -> SpanShape {
        SpanShape {
            text: self.text@,
            is_heading: self.is_heading,
            heading_level: self.heading_level as nat,
            link: match self.link {
                Some(l) => Some(l@),
                None => None,
            },
            is_break: self.is_break,
        }
    }
}

/// The shape of an ordinary text span.
pub open spec fn plain_shape(text: Seq<char>) -> SpanShape {
    SpanShape { text, is_heading: false, heading_level: 0, link: None, is_break: false }
}

/// The shape of a heading span of the given level.
pub open spec fn heading_shape(level: nat, text: Seq<char>) -> SpanShape {
    SpanShape { text, is_heading: true, heading_level: level, link: None, is_break: false }
}

/// The shape of a hyperlink span: `text` is the label, `link` the target text.
pub open spec fn link_shape(text: Seq<char>, link: Seq<char>) -> SpanShape {
    SpanShape { text, is_heading: false, heading_level: 0, link: Some(link), is_break: false }
}

/// The shape of a line-break span.
pub open spec fn break_shape() -> SpanShape {
    SpanShape {
        text: Seq::empty(),
        is_heading: false,
        heading_level: 0,
        link: None,
        is_break: true,
    }
}

/// The sequence of shapes of a sequence of spans.
pub open spec fn shapes_of(s: Seq<FormattedSpan>) -> Seq<SpanShape> {
    s.map_values(|f: FormattedSpan| f.shape())
}

/// Well-formedness of a span shape: a break span has empty text and no
/// link; a heading span carries a level between one and six and no link;
/// only a link span carries a link target; a non-heading has level zero.
pub open spec fn wf_shape(s: SpanShape) -> bool {
    &&& s.is_break ==> s.text.len() == 0 && s.link is None && !s.is_heading
    &&& s.is_heading ==> 1 <= s.heading_level <= 6 && s.link is None && !s.is_break
    &&& s.link is Some ==> !s.is_heading && !s.is_break
    &&& !s.is_heading ==> s.heading_level == 0
}

pub proof fn lemma_shapes_push(s: Seq<FormattedSpan>, f: FormattedSpan)
    ensures
        shapes_of(s.push(f)) == shapes_of(s).push(f.shape()),
{
    assert(shapes_of(s.push(f)) =~= shapes_of(s).push(f.shape()));
}

impl Default for FormattedSpan {
    /// An empty plain span at index zero.
    fn default() -> (r: Self)
        ensures
            r.index == 0,
            r.shape() == plain_shape(Seq::<char>::empty()),
    {
        FormattedSpan {
            index: 0,
            text: String::new(),
            is_heading: false,
            heading_level: 0,
            link: None,
            is_break: false,
        }
    }
}

} // verus!
