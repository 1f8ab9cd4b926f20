//! Styled text.

use vstd::prelude::*;
use vstd::string::*;

verus! {

/// A colour of the terminal.
#[derive(Debug, Clone, Copy, PartialEq, Eq, Structural)]
pub enum Color {
    Reset,
    White,
    DarkGray,
    Cyan,
    Green,
    Red,
    Yellow,
}

/// How a text looks.
#[derive(Debug, Clone, Copy, PartialEq, Eq, Structural)]
pub struct Style {
    pub fg: Option<Color>,
    pub bold: bool,
    pub italic: bool,
    pub underlined: bool,
}

/// The look of plain text.
pub open spec fn plain() -> Style {
    Style { fg: None, bold: false, italic: false, underlined: false }
}

/// The look of text in a colour.
pub open spec fn colored(color: Color) -> Style {
    Style { fg: Some(color), ..plain() }
}

/// The look of bold text in a colour.
pub open spec fn bold_colored(color: Color) -> Style {
    Style { fg: Some(color), bold: true, ..plain() }
}

impl Style {
    /// The look of plain text.
    pub fn plain() -> (r: Self)
        ensures
            r == plain(),
    {
        Style { fg: None, bold: false, italic: false, underlined: false }
    }

    /// The look of text in a colour.
    pub fn of(color: Color) -> (r: Self)
        ensures
            r == colored(color),
    {
        Style { fg: Some(color), bold: false, italic: false, underlined: false }
    }

    /// The look of bold text in a colour.
    pub fn bold(color: Color) -> (r: Self)
        ensures
            r == bold_colored(color),
    {
        Style { fg: Some(color), bold: true, italic: false, underlined: false }
    }
}

/// A text with one look.
#[derive(Debug)]
pub struct Span {
    pub text: String,
    pub style: Style,
}

#[verifier::ext_equal]
pub ghost struct SpanView {
    pub text: Seq<char>,
    pub style: Style,
}

impl DeepView for Span {
    type V = SpanView;

    open spec fn deep_view(&self) -> SpanView {
        SpanView { text: self.text@, style: self.style }
    }
}

/// A span.
pub open spec fn span(text: Seq<char>, style: Style) -> SpanView {
    SpanView { text, style }
}

impl Span {
    pub fn new(text: String, style: Style) -> (r: Self)
        ensures
            r.deep_view() == span(text@, style),
    {
        Span { text, style }
    }

    pub fn of(text: &str, style: Style) -> (r: Self)
        ensures
            r.deep_view() == span(text@, style),
    {
        Span { text: text.to_owned(), style }
    }
}

/// A line of spans.
#[derive(Debug)]
pub struct Line {
    pub spans: Vec<Span>,
}

impl DeepView for Line {
    type V = Seq<SpanView>;

    open spec fn deep_view(&self) -> Seq<SpanView> {
        self.spans.deep_view()
    }
}

/// The empty line.
pub open spec fn empty_line() -> Seq<SpanView> {
    Seq::empty()
}

impl Line {
    /// The empty line.
    pub fn empty() -> (r: Self)
        ensures
            r.deep_view() == empty_line(),
    {
        let r = Line { spans: Vec::new() };
        assert(r.deep_view() =~= empty_line());
        r
    }

    /// A line of one span.
    pub fn one(a: Span) -> (r: Self)
        ensures
            r.deep_view() == seq![a.deep_view()],
    {
        let ghost v = a.deep_view();
        let mut spans: Vec<Span> = Vec::new();
        spans.push(a);
        let r = Line { spans };
        assert(r.deep_view() =~= seq![v]);
        r
    }

    /// A line of two spans.
    pub fn two(a: Span, b: Span) -> (r: Self)
        ensures
            r.deep_view() == seq![a.deep_view(), b.deep_view()],
    {
        let ghost v = a.deep_view();
        let ghost w = b.deep_view();
        let mut spans: Vec<Span> = Vec::new();
        spans.push(a);
        spans.push(b);
        let r = Line { spans };
        assert(r.deep_view() =~= seq![v, w]);
        r
    }

    /// A line of three spans.
    pub fn three(a: Span, b: Span, c: Span) -> (r: Self)
        ensures
            r.deep_view() == seq![a.deep_view(), b.deep_view(), c.deep_view()],
    {
        let ghost v = a.deep_view();
        let ghost w = b.deep_view();
        let ghost x = c.deep_view();
        let mut spans: Vec<Span> = Vec::new();
        spans.push(a);
        spans.push(b);
        spans.push(c);
        let r = Line { spans };
        assert(r.deep_view() =~= seq![v, w, x]);
        r
    }
}

/// The lines with one more.
pub fn push_line(lines: Vec<Line>, line: Line) -> (r: Vec<Line>)
    ensures
        r.deep_view() == lines.deep_view().push(line.deep_view()),
{
    let ghost before = lines.deep_view();
    let ghost added = line.deep_view();
    let mut r = lines;
    r.push(line);
    assert(r.deep_view() =~= before.push(added));
    r
}

/// The colours of the interface.
#[derive(Debug, Clone, Copy, PartialEq, Eq, Structural)]
pub struct Theme {
    pub user_input: Color,
    pub assistant_text: Color,
    pub tool_border: Color,
    pub tool_running: Color,
    pub tool_success: Color,
    pub tool_failed: Color,
    pub tool_result: Color,
    pub permission: Color,
    pub info: Color,
    pub error: Color,
    pub status_bar_bg: Color,
    pub status_bar_fg: Color,
    pub input_prompt: Color,
    pub timestamp: Color,
    pub code_block: Color,
}

/// The colours for a dark terminal.
pub open spec fn dark_theme() -> Theme {
    Theme {
        user_input: Color::Cyan,
        assistant_text: Color::Reset,
        tool_border: Color::DarkGray,
        tool_running: Color::Yellow,
        tool_success: Color::Green,
        tool_failed: Color::Red,
        tool_result: Color::DarkGray,
        permission: Color::Yellow,
        info: Color::DarkGray,
        error: Color::Red,
        status_bar_bg: Color::DarkGray,
        status_bar_fg: Color::White,
        input_prompt: Color::Cyan,
        timestamp: Color::DarkGray,
        code_block: Color::Green,
    }
}

impl Theme {
    /// The colours for a dark terminal.
    pub fn dark() -> (r: Self)
        ensures
            r == dark_theme(),
    {
        Theme {
            user_input: Color::Cyan,
            assistant_text: Color::Reset,
            tool_border: Color::DarkGray,
            tool_running: Color::Yellow,
            tool_success: Color::Green,
            tool_failed: Color::Red,
            tool_result: Color::DarkGray,
            permission: Color::Yellow,
            info: Color::DarkGray,
            error: Color::Red,
            status_bar_bg: Color::DarkGray,
            status_bar_fg: Color::White,
            input_prompt: Color::Cyan,
            timestamp: Color::DarkGray,
            code_block: Color::Green,
        }
    }
}

impl Default for Theme {
    fn default() -> (r: Self)
        ensures
            r == dark_theme(),
    {
        Theme::dark()
    }
}

} // verus!
