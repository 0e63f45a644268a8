use vstd::prelude::*;

verus! {

/// Styled inline text.
#[derive(Debug)]
pub enum TextSpan {
    Normal(String),
    Italic(String),
    Bold(String),
    BoldItalic(String),
}

/// A paragraph or sub-paragraph: an optional heading and a body, each a list of spans.
#[derive(Debug)]
pub enum TextBlock {
    Paragraph { heading: Option<Vec<TextSpan>>, body: Vec<TextSpan> },
    SubParagraph { heading: Option<Vec<TextSpan>>, body: Vec<TextSpan> },
}

/// The style of a span.
#[derive(Clone, Copy, Debug, PartialEq, Eq, Structural)]
pub enum SpanStyle {
    Normal,
    Italic,
    Bold,
    BoldItalic,
}

/// The style that the italic and bold flags give.
pub open spec fn style_of(italic: bool, bold: bool) -> SpanStyle {
    if italic && bold {
        SpanStyle::BoldItalic
    } else if italic {
        SpanStyle::Italic
    } else if bold {
        SpanStyle::Bold
    } else {
        SpanStyle::Normal
    }
}

pub open spec fn span_view(s: TextSpan) -> (SpanStyle, Seq<char>) {
    match s {
        TextSpan::Normal(t) => (SpanStyle::Normal, t@),
        TextSpan::Italic(t) => (SpanStyle::Italic, t@),
        TextSpan::Bold(t) => (SpanStyle::Bold, t@),
        TextSpan::BoldItalic(t) => (SpanStyle::BoldItalic, t@),
    }
}

pub open spec fn spans_view(v: Seq<TextSpan>) -> Seq<(SpanStyle, Seq<char>)> {
    v.map_values(|s: TextSpan| span_view(s))
}

/// A block as plain values: whether it is a sub-paragraph, its heading and its body.
pub open spec fn block_view(b: TextBlock) -> (bool, Option<Seq<(SpanStyle, Seq<char>)>>, Seq<(SpanStyle, Seq<char>)>) {
    match b {
        TextBlock::Paragraph { heading, body } => (
            false,
            match heading {
                Some(h) => Some(spans_view(h@)),
                None => None,
            },
            spans_view(body@),
        ),
        TextBlock::SubParagraph { heading, body } => (
            true,
            match heading {
                Some(h) => Some(spans_view(h@)),
                None => None,
            },
            spans_view(body@),
        ),
    }
}

pub open spec fn blocks_view(v: Seq<TextBlock>) -> Seq<(bool, Option<Seq<(SpanStyle, Seq<char>)>>, Seq<(SpanStyle, Seq<char>)>)> {
    v.map_values(|b: TextBlock| block_view(b))
}

impl TextSpan {
    /// A span of the given style.
    pub fn new(style: SpanStyle, content: String) -> (r: TextSpan)
        ensures
            span_view(r) == (style, content@),
    {
        match style {
            SpanStyle::Normal => TextSpan::Normal(content),
            SpanStyle::Italic => TextSpan::Italic(content),
            SpanStyle::Bold => TextSpan::Bold(content),
            SpanStyle::BoldItalic => TextSpan::BoldItalic(content),
        }
    }

    /// The text of the span.
    pub fn content(&self) -> (r: &String)
        ensures
            r@ == span_view(*self).1,
    {
        match self {
            TextSpan::Normal(t) => t,
            TextSpan::Italic(t) => t,
            TextSpan::Bold(t) => t,
            TextSpan::BoldItalic(t) => t,
        }
    }

    /// The style of the span.
    pub fn style(&self) -> (r: SpanStyle)
        ensures
            r == span_view(*self).0,
    {
        match self {
            TextSpan::Normal(_) => SpanStyle::Normal,
            TextSpan::Italic(_) => SpanStyle::Italic,
            TextSpan::Bold(_) => SpanStyle::Bold,
            TextSpan::BoldItalic(_) => SpanStyle::BoldItalic,
        }
    }
}

} // verus!
