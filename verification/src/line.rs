//! Lines of styled text.

use crate::status::Color;
use vstd::prelude::*;

verus! {

/// How a text is shown: its colour, where it has one, and whether it is bold.
#[derive(Clone, Copy, Debug, PartialEq, Eq, Structural)]
pub struct Style {
    pub fg: Option<Color>,
    pub bold: bool,
}

/// A piece of a line, in one style.
#[derive(Debug, PartialEq, Eq)]
pub struct Span {
    pub text: String,
    pub style: Style,
}

/// A line: one text in one style, or pieces each in its own.
#[derive(Debug, PartialEq, Eq)]
pub enum Line {
    Plain { text: String, style: Style },
    Spans(Vec<Span>),
}

/// What a `Span` shows.
pub struct SpanView {
    pub text: Seq<char>,
    pub style: Style,
}

/// What a `Line` shows.
pub enum LineView {
    Plain { text: Seq<char>, style: Style },
    Spans(Seq<SpanView>),
}

impl View for Span {
    type V = SpanView;

    open spec fn view(&self) -> SpanView {
        SpanView { text: self.text@, style: self.style }
    }
}

impl View for Line {
    type V = LineView;

    open spec fn view(&self) -> LineView {
        match self {
            Line::Plain { text, style } => LineView::Plain { text: text@, style: *style },
            Line::Spans(spans) => LineView::Spans(spans@.map_values(|s: Span| s@)),
        }
    }
}

/// What a list of lines shows.
pub open spec fn lines_view(lines: Seq<Line>) -> Seq<LineView> {
    lines.map_values(|l: Line| l@)
}

impl Style {
    /// The style of text that has none.
    pub open spec fn none() -> Style {
        Style { fg: None, bold: false }
    }

    /// Text in a colour.
    pub open spec fn in_color(color: Color) -> Style {
        Style { fg: Some(color), bold: false }
    }

    /// Titles: bold and white.
    pub open spec fn title() -> Style {
        Style { fg: Some(Color::White), bold: true }
    }
}

/// A line of text without a style.
pub open spec fn plain_line(text: Seq<char>) -> LineView {
    LineView::Plain { text, style: Style::none() }
}

/// A title line.
pub open spec fn title_line(text: Seq<char>) -> LineView {
    LineView::Plain { text, style: Style::title() }
}

impl Line {
    /// A line of text without a style.
    pub fn plain(text: String) -> (r: Line)
        ensures
            r@ == plain_line(text@),
    {
        Line::Plain { text, style: Style { fg: None, bold: false } }
    }

    /// A title line.
    pub fn title(text: String) -> (r: Line)
        ensures
            r@ == title_line(text@),
    {
        Line::Plain { text, style: Style { fg: Some(Color::White), bold: true } }
    }
}

/// A list of one line.
pub fn one_line(line: Line) -> (r: Vec<Line>)
    ensures
        lines_view(r@) == seq![line@],
{
    let mut r: Vec<Line> = Vec::new();
    r.push(line);
    assert(lines_view(r@) =~= seq![line@]);
    r
}

/// One more line at the end of a list is one more shown.
pub proof fn lemma_lines_view_push(lines: Seq<Line>, line: Line)
    ensures
        lines_view(lines.push(line)) == lines_view(lines).push(line@),
{
    assert(lines_view(lines.push(line)) =~= lines_view(lines).push(line@));
}

} // verus!
