//! Markdown as styled lines.

use crate::text;
use crate::text::{lines_of, repeated, split_on};
use crate::tui::style;
use crate::tui::style::{push_line, Color, Line, Span, Style};
use vstd::prelude::*;
use vstd::string::*;

verus! {

// ---------------------------------------------------------------------------
// Events
// ---------------------------------------------------------------------------

/// An element of a text.
#[derive(Debug, Clone, Copy, PartialEq, Eq, Structural)]
pub enum MdTag {
    /// A heading of this level, from one on.
    Heading(u8),
    Paragraph,
    CodeBlock,
    List,
    Item,
    Emphasis,
    Strong,
    Other,
}

/// What a reader of Markdown comes across.
#[derive(Debug)]
pub enum MdEvent {
    Start(MdTag),
    End(MdTag),
    Text(String),
    Code(String),
    SoftBreak,
    HardBreak,
    Rule,
    Other,
}

#[verifier::ext_equal]
pub ghost enum MdEventView {
    Start(MdTag),
    End(MdTag),
    Text(Seq<char>),
    Code(Seq<char>),
    SoftBreak,
    HardBreak,
    Rule,
    Other,
}

impl DeepView for MdEvent {
    type V = MdEventView;

    open spec fn deep_view(&self) -> MdEventView {
        match self {
            MdEvent::Start(tag) => MdEventView::Start(*tag),
            MdEvent::End(tag) => MdEventView::End(*tag),
            MdEvent::Text(t) => MdEventView::Text(t@),
            MdEvent::Code(t) => MdEventView::Code(t@),
            MdEvent::SoftBreak => MdEventView::SoftBreak,
            MdEvent::HardBreak => MdEventView::HardBreak,
            MdEvent::Rule => MdEventView::Rule,
            MdEvent::Other => MdEventView::Other,
        }
    }
}

/// `pulldown_cmark::TagEnd`, which says what element an event starts or ends.
#[verifier::external_type_specification]
#[verifier::external_body]
pub struct ExTagEnd(pulldown_cmark::TagEnd);

/// What element a `TagEnd` stands for.
pub uninterp spec fn tag_contents(tag: pulldown_cmark::TagEnd) -> MdTag;

/// Tells the variants of a `TagEnd` apart: each that has a like one here is
/// that, a heading with its level as a number, and all others are `Other`.
#[verifier::external_body]
fn tag_of(tag: &pulldown_cmark::TagEnd) -> (r: MdTag)
    ensures
        r == tag_contents(*tag),
{
    match tag {
        pulldown_cmark::TagEnd::Heading(level) => MdTag::Heading(*level as u8),
        pulldown_cmark::TagEnd::Paragraph => MdTag::Paragraph,
        pulldown_cmark::TagEnd::CodeBlock => MdTag::CodeBlock,
        pulldown_cmark::TagEnd::List(_) => MdTag::List,
        pulldown_cmark::TagEnd::Item => MdTag::Item,
        pulldown_cmark::TagEnd::Emphasis => MdTag::Emphasis,
        pulldown_cmark::TagEnd::Strong => MdTag::Strong,
        _ => MdTag::Other,
    }
}

/// An event as it is read, with its element as `pulldown_cmark` has it.
#[derive(Debug)]
pub enum RawEvent {
    Start(pulldown_cmark::TagEnd),
    End(pulldown_cmark::TagEnd),
    Text(String),
    Code(String),
    SoftBreak,
    HardBreak,
    Rule,
    Other,
}

impl DeepView for RawEvent {
    type V = MdEventView;

    open spec fn deep_view(&self) -> MdEventView {
        match self {
            RawEvent::Start(tag) => MdEventView::Start(tag_contents(*tag)),
            RawEvent::End(tag) => MdEventView::End(tag_contents(*tag)),
            RawEvent::Text(t) => MdEventView::Text(t@),
            RawEvent::Code(t) => MdEventView::Code(t@),
            RawEvent::SoftBreak => MdEventView::SoftBreak,
            RawEvent::HardBreak => MdEventView::HardBreak,
            RawEvent::Rule => MdEventView::Rule,
            RawEvent::Other => MdEventView::Other,
        }
    }
}

/// The events of a Markdown text.
pub uninterp spec fn markdown_events(md: Seq<char>) -> Seq<MdEventView>;

/// `pulldown_cmark::Parser::new_ext` with all options reads a Markdown text as
/// events, which depend on the text alone. Each is handed on as the like one
/// here, and those that have none as `Other`.
#[verifier::external_body]
fn read_markdown(md: &str) -> (r: Vec<RawEvent>)
    ensures
        r.deep_view() == markdown_events(md@),
{
    let events = pulldown_cmark::Parser::new_ext(md, pulldown_cmark::Options::all());
    events.map(|event| match event {
        pulldown_cmark::Event::Start(tag) => RawEvent::Start(tag.to_end()),
        pulldown_cmark::Event::End(tag) => RawEvent::End(tag),
        pulldown_cmark::Event::Text(t) => RawEvent::Text(t.to_string()),
        pulldown_cmark::Event::Code(t) => RawEvent::Code(t.to_string()),
        pulldown_cmark::Event::SoftBreak => RawEvent::SoftBreak,
        pulldown_cmark::Event::HardBreak => RawEvent::HardBreak,
        pulldown_cmark::Event::Rule => RawEvent::Rule,
        _ => RawEvent::Other,
    }).collect()
}

/// The events of a Markdown text.
pub fn events_of(md: &str) -> (r: Vec<MdEvent>)
    ensures
        r.deep_view() == markdown_events(md@),
{
    let raw = read_markdown(md);
    let ghost all = raw.deep_view();
    let mut r: Vec<MdEvent> = Vec::new();
    let mut i: usize = 0;
    assert(r.deep_view() =~= all.take(0));
    while i < raw.len()
        invariant
            all == raw.deep_view(),
            i <= raw@.len() == all.len(),
            r.deep_view() == all.take(i as int),
        decreases raw@.len() - i,
    {
        let ghost before = r.deep_view();
        let event = match &raw[i] {
            RawEvent::Start(tag) => MdEvent::Start(tag_of(tag)),
            RawEvent::End(tag) => MdEvent::End(tag_of(tag)),
            RawEvent::Text(t) => MdEvent::Text(t.clone()),
            RawEvent::Code(t) => MdEvent::Code(t.clone()),
            RawEvent::SoftBreak => MdEvent::SoftBreak,
            RawEvent::HardBreak => MdEvent::HardBreak,
            RawEvent::Rule => MdEvent::Rule,
            RawEvent::Other => MdEvent::Other,
        };
        r.push(event);
        assert(r.deep_view() =~= before.push(all[i as int]));
        assert(all.take(i + 1) =~= before.push(all[i as int]));
        i += 1;
    }
    assert(all.take(i as int) =~= all);
    r
}

// ---------------------------------------------------------------------------
// Rendering
// ---------------------------------------------------------------------------

/// A text that is being rendered.
#[verifier::ext_equal]
pub ghost struct MdView {
    pub lines: Seq<Seq<style::SpanView>>,
    /// The line that is not complete yet.
    pub spans: Seq<style::SpanView>,
    pub bold: bool,
    pub italic: bool,
    pub in_code_block: bool,
    /// The code block so far.
    pub code: Seq<char>,
    pub heading: Option<u8>,
    /// How many lists stand around.
    pub depth: nat,
}

/// A text of which nothing is rendered yet.
pub open spec fn new_text() -> MdView {
    MdView {
        lines: Seq::empty(),
        spans: Seq::empty(),
        bold: false,
        italic: false,
        in_code_block: false,
        code: Seq::empty(),
        heading: None,
        depth: 0,
    }
}

/// The lines of a code block.
pub open spec fn code_lines(code: Seq<char>) -> Seq<Seq<style::SpanView>> {
    let lines = text::lines(code);
    Seq::new(
        lines.len(),
        |i: int| seq![style::span("  "@ + lines[i], style::colored(Color::Green))],
    )
}

impl MdView {
    /// The line is complete, if there is anything on it.
    pub open spec fn flushed(self) -> MdView {
        if self.spans.len() == 0 {
            self
        } else {
            MdView { lines: self.lines.push(self.spans), spans: Seq::empty(), ..self }
        }
    }

    /// One more span stands on the line.
    pub open spec fn with_span(self, text: Seq<char>, look: Style) -> MdView {
        MdView { spans: self.spans.push(style::span(text, look)), ..self }
    }

    /// One more line is complete.
    pub open spec fn with_line(self, line: Seq<style::SpanView>) -> MdView {
        MdView { lines: self.lines.push(line), ..self }
    }

    /// The look of text here.
    pub open spec fn look(self) -> Style {
        match self.heading {
            Some(level) => Style {
                underlined: level == 1,
                ..style::bold_colored(Color::White)
            },
            None => Style { bold: self.bold, italic: self.italic, ..style::plain() },
        }
    }

    /// A piece of text, which breaks the line before it unless it is the first.
    pub open spec fn with_piece(self, piece: Seq<char>, first: bool) -> MdView {
        let at = if first {
            self
        } else {
            self.flushed()
        };
        if piece.len() == 0 {
            at
        } else {
            at.with_span(piece, self.look())
        }
    }

    /// Some pieces of text.
    pub open spec fn with_pieces(self, pieces: Seq<Seq<char>>) -> MdView
        decreases pieces.len(),
    {
        if pieces.len() == 0 {
            self
        } else {
            self.with_pieces(pieces.drop_last()).with_piece(pieces.last(), pieces.len() == 1)
        }
    }

    /// An element starts.
    pub open spec fn start(self, tag: MdTag) -> MdView {
        match tag {
            MdTag::Heading(level) => MdView { heading: Some(level), ..self.flushed() },
            MdTag::Paragraph => self.flushed(),
            MdTag::CodeBlock => MdView {
                in_code_block: true,
                code: Seq::empty(),
                ..self.flushed()
            },
            MdTag::List => MdView { depth: self.depth + 1, ..self },
            MdTag::Item => self.flushed().with_span(
                text::repeat("  "@, self.depth) + "\u{2022} "@,
                style::colored(Color::DarkGray),
            ),
            MdTag::Emphasis => MdView { italic: true, ..self },
            MdTag::Strong => MdView { bold: true, ..self },
            MdTag::Other => self,
        }
    }

    /// An element ends.
    pub open spec fn end(self, tag: MdTag) -> MdView {
        match tag {
            MdTag::Heading(_) => MdView { heading: None, ..self.flushed() },
            MdTag::Paragraph => self.flushed().with_line(style::empty_line()),
            MdTag::CodeBlock => MdView {
                lines: self.lines + code_lines(self.code),
                in_code_block: false,
                code: Seq::empty(),
                ..self
            },
            MdTag::List => {
                let depth = if self.depth > 0 {
                    (self.depth - 1) as nat
                } else {
                    0
                };
                let out = MdView { depth, ..self };
                if depth == 0 {
                    out.with_line(style::empty_line())
                } else {
                    out
                }
            },
            MdTag::Item => self.flushed(),
            MdTag::Emphasis => MdView { italic: false, ..self },
            MdTag::Strong => MdView { bold: false, ..self },
            MdTag::Other => self,
        }
    }

    /// What an event makes of the text.
    pub open spec fn take(self, event: MdEventView) -> MdView {
        match event {
            MdEventView::Start(tag) => self.start(tag),
            MdEventView::End(tag) => self.end(tag),
            MdEventView::Text(t) => if self.in_code_block {
                MdView { code: self.code + t, ..self }
            } else {
                self.with_pieces(text::split(t, '\n'))
            },
            MdEventView::Code(t) => self.with_span(
                "`"@ + t + "`"@,
                style::colored(Color::Green),
            ),
            MdEventView::SoftBreak => self.with_span(" "@, style::plain()),
            MdEventView::HardBreak => self.flushed(),
            MdEventView::Rule => self.flushed().with_line(
                seq![
                    style::span(
                        text::repeat("\u{2500}"@, 40),
                        style::colored(Color::DarkGray),
                    ),
                ],
            ),
            MdEventView::Other => self,
        }
    }

    /// What some events make of the text.
    pub open spec fn after(self, events: Seq<MdEventView>) -> MdView
        decreases events.len(),
    {
        if events.len() == 0 {
            self
        } else {
            self.after(events.drop_last()).take(events.last())
        }
    }
}

/// Whether nothing is to be seen on a line.
pub open spec fn is_blank(line: Seq<style::SpanView>) -> bool {
    forall|i: int| 0 <= i < line.len() ==> (#[trigger] line[i]).text.len() == 0
}

/// Some lines, with one blank line in place of several in a row.
pub open spec fn collapsed(lines: Seq<Seq<style::SpanView>>) -> Seq<Seq<style::SpanView>>
    decreases lines.len(),
{
    if lines.len() == 0 {
        Seq::empty()
    } else {
        let rest = collapsed(lines.drop_last());
        if is_blank(lines.last()) && lines.len() > 1 && is_blank(lines[lines.len() - 2]) {
            rest
        } else {
            rest.push(lines.last())
        }
    }
}

/// Some lines without the blank ones at their start.
pub open spec fn trimmed_start(lines: Seq<Seq<style::SpanView>>) -> Seq<Seq<style::SpanView>>
    decreases lines.len(),
{
    if lines.len() > 0 && is_blank(lines[0]) {
        trimmed_start(lines.drop_first())
    } else {
        lines
    }
}

/// Some lines without the blank ones at their end.
pub open spec fn trimmed_end(lines: Seq<Seq<style::SpanView>>) -> Seq<Seq<style::SpanView>>
    decreases lines.len(),
{
    if lines.len() > 0 && is_blank(lines.last()) {
        trimmed_end(lines.drop_last())
    } else {
        lines
    }
}

/// The lines that some events are rendered as.
pub open spec fn rendered(events: Seq<MdEventView>) -> Seq<Seq<style::SpanView>> {
    trimmed_end(trimmed_start(collapsed(new_text().after(events).flushed().lines)))
}

struct Renderer {
    lines: Vec<Line>,
    spans: Vec<Span>,
    bold: bool,
    italic: bool,
    in_code_block: bool,
    code: String,
    heading: Option<u8>,
    depth: usize,
}

impl View for Renderer {
    type V = MdView;

    closed spec fn view(&self) -> MdView {
        MdView {
            lines: self.lines.deep_view(),
            spans: self.spans.deep_view(),
            bold: self.bold,
            italic: self.italic,
            in_code_block: self.in_code_block,
            code: self.code@,
            heading: self.heading,
            depth: self.depth as nat,
        }
    }
}

impl Renderer {
    fn new() -> (r: Self)
        ensures
            r@ == new_text(),
    {
        let r = Renderer {
            lines: Vec::new(),
            spans: Vec::new(),
            bold: false,
            italic: false,
            in_code_block: false,
            code: String::new(),
            heading: None,
            depth: 0,
        };
        assert(r@.lines =~= Seq::empty());
        assert(r@.spans =~= Seq::empty());
        assert(r@.code =~= Seq::empty());
        r
    }

    fn add_span(&mut self, text: String, look: Style)
        ensures
            final(self)@ == old(self)@.with_span(text@, look),
    {
        let ghost before = self.spans.deep_view();
        let ghost said = text@;
        self.spans.push(Span::new(text, look));
        assert(self.spans.deep_view() =~= before.push(style::span(said, look)));
    }

    fn add_line(&mut self, line: Line)
        ensures
            final(self)@ == old(self)@.with_line(line.deep_view()),
    {
        let ghost before = self.lines.deep_view();
        let ghost added = line.deep_view();
        self.lines.push(line);
        assert(self.lines.deep_view() =~= before.push(added));
    }

    fn flush(&mut self)
        ensures
            final(self)@ == old(self)@.flushed(),
    {
        let ghost before = self@;
        assert(before.spans.len() == self.spans@.len());
        if self.spans.len() > 0 {
            let mut spans: Vec<Span> = Vec::new();
            std::mem::swap(&mut spans, &mut self.spans);
            assert(spans.deep_view() =~= before.spans);
            assert(self.spans.deep_view() =~= Seq::empty());
            self.add_line(Line { spans });
        }
    }

    fn look(&self) -> (r: Style)
        ensures
            r == self@.look(),
    {
        match self.heading {
            Some(level) => Style {
                fg: Some(Color::White),
                bold: true,
                italic: false,
                underlined: level == 1,
            },
            None => Style {
                fg: None,
                bold: self.bold,
                italic: self.italic,
                underlined: false,
            },
        }
    }

    fn start(&mut self, tag: MdTag)
        requires
            old(self)@.depth < usize::MAX,
        ensures
            final(self)@ == old(self)@.start(tag),
    {
        match tag {
            MdTag::Heading(level) => {
                self.flush();
                self.heading = Some(level);
            },
            MdTag::Paragraph => self.flush(),
            MdTag::CodeBlock => {
                self.flush();
                self.in_code_block = true;
                self.code = String::new();
                assert(self.code@ =~= Seq::empty());
            },
            MdTag::List => {
                self.depth = self.depth + 1;
            },
            MdTag::Item => {
                self.flush();
                let mut bullet = repeated("  ", self.depth);
                bullet.push_str("\u{2022} ");
                self.add_span(bullet, Style::of(Color::DarkGray));
            },
            MdTag::Emphasis => {
                self.italic = true;
            },
            MdTag::Strong => {
                self.bold = true;
            },
            MdTag::Other => {},
        }
    }

    fn add_code(&mut self)
        ensures
            final(self)@ == (MdView {
                lines: old(self)@.lines + code_lines(old(self)@.code),
                ..old(self)@
            }),
    {
        let ghost start = self@;
        let ghost all = code_lines(self.code@);
        let lines = lines_of(self.code.as_str());
        assert(all.len() == lines.deep_view().len());
        let mut i: usize = 0;
        assert(start.lines + all.take(0) =~= start.lines);
        while i < lines.len()
            invariant
                all == code_lines(start.code),
                lines.deep_view() == text::lines(start.code),
                i <= lines@.len() == all.len(),
                self@ == (MdView { lines: start.lines + all.take(i as int), ..start }),
            decreases lines@.len() - i,
        {
            let mut s = "  ".to_owned();
            s.push_str(lines[i].as_str());
            let ghost before = self@.lines;
            let line = Line::one(Span::new(s, Style::of(Color::Green)));
            assert(line.deep_view() =~= all[i as int]);
            self.add_line(line);
            assert(all.take(i + 1) =~= all.take(i as int).push(all[i as int]));
            assert(self@.lines =~= start.lines + all.take(i + 1));
            i += 1;
        }
        assert(all.take(i as int) =~= all);
    }

    fn end(&mut self, tag: MdTag)
        ensures
            final(self)@ == old(self)@.end(tag),
    {
        match tag {
            MdTag::Heading(_) => {
                self.flush();
                self.heading = None;
            },
            MdTag::Paragraph => {
                self.flush();
                self.add_line(Line::empty());
            },
            MdTag::CodeBlock => {
                self.add_code();
                self.in_code_block = false;
                self.code = String::new();
                assert(self.code@ =~= Seq::empty());
            },
            MdTag::List => {
                self.depth = self.depth.saturating_sub(1);
                if self.depth == 0 {
                    self.add_line(Line::empty());
                }
            },
            MdTag::Item => self.flush(),
            MdTag::Emphasis => {
                self.italic = false;
            },
            MdTag::Strong => {
                self.bold = false;
            },
            MdTag::Other => {},
        }
    }

    fn add_text(&mut self, t: &str)
        ensures
            final(self)@ == old(self)@.with_pieces(text::split(t@, '\n')),
            final(self)@.depth == old(self)@.depth,
    {
        let pieces = split_on(t, '\n');
        let ghost all = pieces.deep_view();
        let ghost start = self@;
        let mut i: usize = 0;
        assert(all.take(0) =~= Seq::empty());
        while i < pieces.len()
            invariant
                all == pieces.deep_view(),
                i <= pieces@.len() == all.len(),
                self@ == start.with_pieces(all.take(i as int)),
                self@.depth == start.depth,
            decreases pieces@.len() - i,
        {
            assert(all.take(i + 1).drop_last() =~= all.take(i as int));
            let look = self.look();
            if i > 0 {
                self.flush();
            }
            if pieces[i].as_str().unicode_len() > 0 {
                self.add_span(pieces[i].clone(), look);
            }
            i += 1;
        }
        assert(all.take(i as int) =~= all);
    }

    fn take(&mut self, event: &MdEvent)
        requires
            old(self)@.depth < usize::MAX,
        ensures
            final(self)@ == old(self)@.take(event.deep_view()),
            final(self)@.depth <= old(self)@.depth + 1,
    {
        match event {
            MdEvent::Start(tag) => self.start(*tag),
            MdEvent::End(tag) => self.end(*tag),
            MdEvent::Text(t) => {
                if self.in_code_block {
                    self.code.push_str(t.as_str());
                } else {
                    self.add_text(t.as_str());
                }
            },
            MdEvent::Code(t) => {
                let mut s = "`".to_owned();
                s.push_str(t.as_str());
                s.push_str("`");
                self.add_span(s, Style::of(Color::Green));
            },
            MdEvent::SoftBreak => self.add_span(" ".to_owned(), Style::plain()),
            MdEvent::HardBreak => self.flush(),
            MdEvent::Rule => {
                self.flush();
                let line = Line::one(
                    Span::new(repeated("\u{2500}", 40), Style::of(Color::DarkGray)),
                );
                self.add_line(line);
            },
            MdEvent::Other => {},
        }
    }
}

fn is_blank_line(line: &Line) -> (r: bool)
    ensures
        r == is_blank(line.deep_view()),
{
    let ghost all = line.deep_view();
    let mut i: usize = 0;
    while i < line.spans.len()
        invariant
            all == line.deep_view(),
            i <= line.spans@.len() == all.len(),
            forall|k: int| 0 <= k < i ==> (#[trigger] all[k]).text.len() == 0,
        decreases line.spans@.len() - i,
    {
        if line.spans[i].text.as_str().unicode_len() > 0 {
            assert(all[i as int].text.len() > 0);
            return false;
        }
        i += 1;
    }
    true
}

fn collapse(lines: Vec<Line>) -> (r: Vec<Line>)
    ensures
        r.deep_view() == collapsed(lines.deep_view()),
{
    let ghost all = lines.deep_view();
    let ghost mut i: int = 0;
    let mut left = lines;
    let mut r: Vec<Line> = Vec::new();
    let mut was_blank = false;
    assert(r.deep_view() =~= Seq::empty());
    assert(all.take(0) =~= Seq::empty());
    assert(left.deep_view() =~= all.skip(0));
    while left.len() > 0
        invariant
            0 <= i <= all.len(),
            left.deep_view() == all.skip(i),
            left@.len() == all.len() - i,
            was_blank == (i > 0 && is_blank(all[i - 1])),
            r.deep_view() == collapsed(all.take(i)),
        decreases left@.len(),
    {
        let ghost before = r.deep_view();
        let ghost had = left.deep_view();
        let line = left.remove(0);
        assert(line.deep_view() == had[0]);
        assert(had[0] == all[i]);
        assert(all.take(i + 1).drop_last() =~= all.take(i));
        assert(all.take(i + 1).last() == all[i]);
        assert(i > 0 ==> all.take(i + 1)[i - 1] == all[i - 1]);
        let blank = is_blank_line(&line);
        if !(blank && was_blank) {
            r = push_line(r, line);
        }
        was_blank = blank;
        proof {
            assert(left.deep_view() =~= had.skip(1));
            assert(all.skip(i + 1) =~= had.skip(1));
            i = i + 1;
        }
    }
    assert(all.take(i) =~= all);
    r
}

fn trim_lines(lines: Vec<Line>) -> (r: Vec<Line>)
    ensures
        r.deep_view() == trimmed_end(trimmed_start(lines.deep_view())),
{
    let mut r = lines;
    let ghost start = trimmed_start(lines.deep_view());
    let mut more = true;
    while more
        invariant
            trimmed_start(r.deep_view()) == start,
            !more ==> r.deep_view() == start,
        decreases r@.len(), (if more {
                1int
            } else {
                0int
            }),
    {
        let ghost before = r.deep_view();
        assert(before.len() == r@.len());
        if r.len() > 0 && is_blank_line(&r[0]) {
            assert(is_blank(before[0]));
            let _ = r.remove(0);
            assert(r.deep_view() =~= before.drop_first());
        } else {
            assert(before.len() > 0 ==> !is_blank(before[0]));
            more = false;
        }
    }
    let ghost end = trimmed_end(start);
    let mut more = true;
    while more
        invariant
            trimmed_end(r.deep_view()) == end,
            !more ==> r.deep_view() == end,
        decreases r@.len(), (if more {
                1int
            } else {
                0int
            }),
    {
        let ghost before = r.deep_view();
        assert(before.len() == r@.len());
        let n: usize = r.len();
        if n > 0 && is_blank_line(&r[n - 1]) {
            assert(is_blank(before.last()));
            let _ = r.pop();
            assert(r.deep_view() =~= before.drop_last());
        } else {
            assert(before.len() > 0 ==> !is_blank(before.last()));
            more = false;
        }
    }
    r
}

/// The lines that some events are rendered as.
pub fn markdown_to_lines(events: &Vec<MdEvent>) -> (r: Vec<Line>)
    ensures
        r.deep_view() == rendered(events.deep_view()),
{
    let ghost all = events.deep_view();
    let mut out = Renderer::new();
    let mut i: usize = 0;
    assert(all.take(0) =~= Seq::empty());
    while i < events.len()
        invariant
            all == events.deep_view(),
            i <= events@.len() == all.len(),
            out@ == new_text().after(all.take(i as int)),
            out@.depth <= i,
        decreases events@.len() - i,
    {
        assert(all.take(i + 1).drop_last() =~= all.take(i as int));
        out.take(&events[i]);
        i += 1;
    }
    assert(all.take(i as int) =~= all);
    out.flush();
    trim_lines(collapse(out.lines))
}

/// What the assistant said.
pub fn render_assistant(md: &str) -> (r: Vec<Line>)
    ensures
        r.deep_view() == rendered(markdown_events(md@)),
{
    markdown_to_lines(&events_of(md))
}

// ---------------------------------------------------------------------------
// Laws
// ---------------------------------------------------------------------------

/// Whether no two lines in a row are blank.
pub open spec fn no_blank_pair(lines: Seq<Seq<style::SpanView>>) -> bool {
    forall|i: int|
        0 <= i < lines.len() - 1 ==> !(is_blank(#[trigger] lines[i]) && is_blank(lines[i + 1]))
}

proof fn lemma_collapsed(lines: Seq<Seq<style::SpanView>>)
    ensures
        no_blank_pair(collapsed(lines)),
        lines.len() > 0 ==> collapsed(lines).len() > 0 && is_blank(collapsed(lines).last())
            == is_blank(lines.last()),
    decreases lines.len(),
{
    if lines.len() > 0 {
        let before = lines.drop_last();
        lemma_collapsed(before);
        let rest = collapsed(before);
        let all = collapsed(lines);
        if before.len() > 0 {
            assert(before.last() == lines[lines.len() - 2]);
        }
        assert forall|i: int| 0 <= i < all.len() - 1 implies !(is_blank(#[trigger] all[i])
            && is_blank(all[i + 1])) by {
            if i + 1 < rest.len() {
                assert(all[i] == rest[i]);
                assert(all[i + 1] == rest[i + 1]);
            } else {
                assert(all[i] == rest.last());
            }
        }
    }
}

proof fn lemma_trimmed_start(lines: Seq<Seq<style::SpanView>>)
    requires
        no_blank_pair(lines),
    ensures
        no_blank_pair(trimmed_start(lines)),
        trimmed_start(lines).len() > 0 ==> !is_blank(trimmed_start(lines)[0]),
    decreases lines.len(),
{
    if lines.len() > 0 && is_blank(lines[0]) {
        let rest = lines.drop_first();
        assert forall|i: int| 0 <= i < rest.len() - 1 implies !(is_blank(#[trigger] rest[i])
            && is_blank(rest[i + 1])) by {
            assert(rest[i] == lines[i + 1]);
            assert(rest[i + 1] == lines[i + 2]);
        }
        lemma_trimmed_start(rest);
    }
}

proof fn lemma_trimmed_end(lines: Seq<Seq<style::SpanView>>)
    requires
        no_blank_pair(lines),
        lines.len() > 0 ==> !is_blank(lines[0]),
    ensures
        no_blank_pair(trimmed_end(lines)),
        trimmed_end(lines).len() > 0 ==> !is_blank(trimmed_end(lines)[0]) && !is_blank(
            trimmed_end(lines).last(),
        ),
    decreases lines.len(),
{
    if lines.len() > 0 && is_blank(lines.last()) {
        let rest = lines.drop_last();
        assert forall|i: int| 0 <= i < rest.len() - 1 implies !(is_blank(#[trigger] rest[i])
            && is_blank(rest[i + 1])) by {
            assert(rest[i] == lines[i]);
            assert(rest[i + 1] == lines[i + 1]);
        }
        lemma_trimmed_end(rest);
    }
}

/// Whatever is rendered, it neither starts nor ends with a blank line, and no
/// two blank lines follow each other.
pub proof fn law_no_stray_blank_lines(events: Seq<MdEventView>)
    ensures
        no_blank_pair(rendered(events)),
        rendered(events).len() > 0 ==> !is_blank(rendered(events)[0]) && !is_blank(
            rendered(events).last(),
        ),
{
    let lines = new_text().after(events).flushed().lines;
    lemma_collapsed(lines);
    lemma_trimmed_start(collapsed(lines));
    lemma_trimmed_end(trimmed_start(collapsed(lines)));
}

/// Events are taken in one after the other.
pub proof fn law_events_are_taken_in_turn(
    text: MdView,
    a: Seq<MdEventView>,
    b: Seq<MdEventView>,
    one: MdEventView,
)
    ensures
        text.after(a + b) == text.after(a).after(b),
        text.after(seq![one]) == text.take(one),
    decreases b.len(),
{
    reveal_with_fuel(MdView::after, 2);
    assert(seq![one].drop_last() =~= Seq::empty());
    if b.len() == 0 {
        assert(a + b =~= a);
    } else {
        assert((a + b).drop_last() =~= a + b.drop_last());
        law_events_are_taken_in_turn(text, a, b.drop_last(), one);
    }
}

/// Text is put on the line as it is, in the look of where it stands: bold and
/// italic between their marks, and as a heading in one. Code is put in quotes. In a
/// code block text is kept until its end, and then shown line by line, in order.
pub proof fn law_text_is_rendered(text: MdView, t: Seq<char>, level: u8, i: int)
    requires
        t.len() > 0,
        forall|k: int| 0 <= k < t.len() ==> t[k] != '\n',
    ensures
        !text.in_code_block ==> ({
            let now = text.take(MdEventView::Text(t));
            &&& now.lines == text.lines
            &&& now.spans.len() == text.spans.len() + 1
            &&& now.spans.drop_last() == text.spans
            &&& now.spans.last().text == t
            &&& text.heading is None ==> now.spans.last().style.bold == text.bold
                && now.spans.last().style.italic == text.italic
            &&& text.heading matches Some(level) ==> now.spans.last().style.bold
                && now.spans.last().style.underlined == (level == 1)
        }),
        text.in_code_block ==> text.take(MdEventView::Text(t)) == (MdView {
            code: text.code + t,
            ..text
        }),
        text.take(MdEventView::Code(t)).spans.last().text == "`"@ + t + "`"@,
        text.take(MdEventView::SoftBreak).spans.last().text == " "@,
        text.take(MdEventView::Start(MdTag::Strong)).bold,
        !text.take(MdEventView::End(MdTag::Strong)).bold,
        text.take(MdEventView::Start(MdTag::Emphasis)).italic,
        !text.take(MdEventView::End(MdTag::Emphasis)).italic,
        text.take(MdEventView::Start(MdTag::Heading(level))).heading == Some(level),
        text.take(MdEventView::End(MdTag::Heading(level))).heading is None,
        text.take(MdEventView::Start(MdTag::CodeBlock)).in_code_block,
        ({
            let now = text.take(MdEventView::End(MdTag::CodeBlock));
            let code = text::lines(text.code);
            &&& !now.in_code_block
            &&& now.lines.len() == text.lines.len() + code.len()
            &&& 0 <= i < code.len() ==> now.lines[text.lines.len() + i].len() == 1
                && now.lines[text.lines.len() + i][0].text == "  "@ + code[i]
        }),
        text.take(MdEventView::HardBreak).spans.len() == 0,
        text.spans.len() > 0 ==> text.take(MdEventView::HardBreak).lines == text.lines.push(
            text.spans,
        ),
{
    if !text.in_code_block {
        text::lemma_next_char(t, '\n', 0);
        assert(t.skip(0) =~= t);
        let pieces = text::split(t, '\n');
        assert(pieces =~= seq![t]);
        reveal_with_fuel(MdView::with_pieces, 2);
        assert(pieces.drop_last() =~= Seq::empty());
        let now = text.take(MdEventView::Text(t));
        assert(now.spans.drop_last() =~= text.spans);
    }
}

/// The item of a list starts a line, behind a mark that is moved in by two columns
/// for every list around it. Lists end where they began.
pub proof fn law_items_are_marked(text: MdView)
    ensures
        ({
            let now = text.take(MdEventView::Start(MdTag::Item));
            &&& now.spans.len() == 1
            &&& now.spans[0].text.len() == 2 * text.depth + 2
            &&& text.spans.len() > 0 ==> now.lines == text.lines.push(text.spans)
        }),
        text.take(MdEventView::Start(MdTag::List)).depth == text.depth + 1,
        text.depth > 0 ==> text.take(MdEventView::End(MdTag::List)).depth == text.depth - 1,
        ({
            let now = text.take(MdEventView::End(MdTag::Paragraph));
            &&& now.spans.len() == 0
            &&& now.lines.len() > 0 && now.lines.last().len() == 0
            &&& text.spans.len() > 0 ==> now.lines == text.lines.push(text.spans).push(
                style::empty_line(),
            )
        }),
{
    reveal_strlit("  ");
    reveal_strlit("\u{2022} ");
    text::law_repetition_repeats("  "@, text.depth);
    assert(text.depth * 2 == 2 * text.depth);
}

/// The lines of which something is to be seen.
pub open spec fn seen(lines: Seq<Seq<style::SpanView>>) -> Seq<Seq<style::SpanView>>
    decreases lines.len(),
{
    if lines.len() == 0 {
        Seq::empty()
    } else if is_blank(lines.last()) {
        seen(lines.drop_last())
    } else {
        seen(lines.drop_last()).push(lines.last())
    }
}

/// Nothing that is to be seen is lost when blank lines are taken out, and the order
/// stays.
pub proof fn law_no_line_is_lost(events: Seq<MdEventView>)
    ensures
        seen(rendered(events)) == seen(new_text().after(events).flushed().lines),
{
    let lines = new_text().after(events).flushed().lines;
    lemma_collapsed_seen(lines);
    lemma_start_seen(collapsed(lines));
    lemma_end_seen(trimmed_start(collapsed(lines)));
}

proof fn lemma_collapsed_seen(lines: Seq<Seq<style::SpanView>>)
    ensures
        seen(collapsed(lines)) == seen(lines),
    decreases lines.len(),
{
    if lines.len() > 0 {
        lemma_collapsed_seen(lines.drop_last());
        let rest = collapsed(lines.drop_last());
        assert(rest.push(lines.last()).drop_last() =~= rest);
    }
}

proof fn lemma_seen_first(lines: Seq<Seq<style::SpanView>>)
    requires
        lines.len() > 0,
        is_blank(lines[0]),
    ensures
        seen(lines.drop_first()) == seen(lines),
    decreases lines.len(),
{
    let rest = lines.drop_first();
    if lines.len() == 1 {
        assert(rest =~= Seq::empty());
        assert(lines.drop_last() =~= Seq::empty());
    } else {
        lemma_seen_first(lines.drop_last());
        assert(rest.drop_last() =~= lines.drop_last().drop_first());
        assert(rest.last() == lines.last());
    }
}

proof fn lemma_start_seen(lines: Seq<Seq<style::SpanView>>)
    ensures
        seen(trimmed_start(lines)) == seen(lines),
    decreases lines.len(),
{
    if lines.len() > 0 && is_blank(lines[0]) {
        lemma_seen_first(lines);
        lemma_start_seen(lines.drop_first());
    }
}

proof fn lemma_end_seen(lines: Seq<Seq<style::SpanView>>)
    ensures
        seen(trimmed_end(lines)) == seen(lines),
    decreases lines.len(),
{
    if lines.len() > 0 && is_blank(lines.last()) {
        lemma_end_seen(lines.drop_last());
    }
}

} // verus!
