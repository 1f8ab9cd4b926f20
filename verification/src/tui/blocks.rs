//! The blocks that entries of the conversation are shown as.

use crate::text;
use crate::text::{
    byte_len_of, cut_to, decimal_of, joined, lines_of, repeated, same, starts_with,
};
use crate::tui::input;
use crate::tui::input::spinner_char;
use crate::tui::style;
use crate::tui::style::{push_line, Color, Line, Span, Style, Theme};
use crate::tui::types;
use crate::tui::types::ToolCallStatus;
use vstd::prelude::*;
use vstd::string::*;

verus! {

/// `a - b`, or zero where `b` is larger.
pub open spec fn less(a: nat, b: nat) -> nat {
    if a > b {
        (a - b) as nat
    } else {
        0
    }
}

/// The larger of two numbers.
pub open spec fn at_least(a: nat, b: nat) -> nat {
    if a > b {
        a
    } else {
        b
    }
}

/// A text that may take `room` bytes; of a longer one `keep` bytes are shown.
/// There is none where the text cannot be cut off there.
pub open spec fn shortened(s: Seq<char>, room: nat, keep: nat) -> Option<Seq<char>> {
    if text::byte_len(s) <= room {
        Some(s)
    } else if text::cuts_at(s, keep as int) {
        Some(text::cut(s, keep as int) + "..."@)
    } else {
        None
    }
}

/// A text that may take `room` bytes; of a longer one `keep` bytes are shown,
/// where it can be cut off there.
pub fn shorten(s: &str, room: usize, keep: usize) -> (r: Option<String>)
    ensures
        r.deep_view() == shortened(s@, room as nat, keep as nat),
{
    if byte_len_of(s) <= room {
        Some(s.to_owned())
    } else if s.is_char_boundary(keep) {
        let mut r = cut_to(s, keep);
        r.push_str("...");
        Some(r)
    } else {
        None
    }
}

/// A text in a row of the given width, between a border of two columns and as
/// many behind it.
pub open spec fn in_row(s: Seq<char>, width: nat) -> Option<Seq<char>> {
    shortened(s, less(width, 4), at_least(less(width, 7), 4))
}

fn fit_row(s: &str, width: usize) -> (r: Option<String>)
    ensures
        r.deep_view() == in_row(s@, width as nat),
{
    let kept: usize = width.saturating_sub(7);
    let keep: usize = if kept > 4 {
        kept
    } else {
        4
    };
    shorten(s, width.saturating_sub(4), keep)
}

// ---------------------------------------------------------------------------
// Texts
// ---------------------------------------------------------------------------

/// What the user said.
pub open spec fn user_lines(t: Seq<char>, theme: Theme) -> Seq<Seq<style::SpanView>> {
    let look = style::bold_colored(theme.user_input);
    let lines = text::lines(t);
    Seq::new(
        lines.len(),
        |i: int|
            seq![
                style::span(
                    if i == 0 {
                        "> "@
                    } else {
                        "  "@
                    },
                    look,
                ),
                style::span(lines[i], look),
            ],
    )
}

/// What the user said.
pub fn render_user(t: &str, theme: &Theme) -> (r: Vec<Line>)
    ensures
        r.deep_view() == user_lines(t@, *theme),
{
    let ghost all = user_lines(t@, *theme);
    let look = Style::bold(theme.user_input);
    let lines = lines_of(t);
    assert(all.len() == lines.deep_view().len());
    let mut r: Vec<Line> = Vec::new();
    let mut i: usize = 0;
    assert(r.deep_view() =~= all.take(0));
    while i < lines.len()
        invariant
            all == user_lines(t@, *theme),
            look == style::bold_colored(theme.user_input),
            lines.deep_view() == text::lines(t@),
            i <= lines@.len() == all.len(),
            r.deep_view() == all.take(i as int),
        decreases lines@.len() - i,
    {
        let prefix = if i == 0 {
            "> "
        } else {
            "  "
        };
        let ghost before = r.deep_view();
        r = push_line(
            r,
            Line::two(Span::of(prefix, look), Span::of(lines[i].as_str(), look)),
        );
        assert(r.deep_view().last() =~= all[i as int]);
        assert(all.take(i + 1) =~= before.push(all[i as int]));
        i += 1;
    }
    assert(all.take(i as int) =~= all);
    r
}

/// A notice.
pub open spec fn info_line(t: Seq<char>) -> Seq<style::SpanView> {
    seq![style::span("  "@ + t, style::colored(Color::DarkGray))]
}

/// An error.
pub open spec fn error_line(t: Seq<char>) -> Seq<style::SpanView> {
    seq![style::span("  [error] "@ + t, style::colored(Color::Red))]
}

/// A notice.
pub fn render_info(t: &str) -> (r: Line)
    ensures
        r.deep_view() == info_line(t@),
{
    let mut s = "  ".to_owned();
    s.push_str(t);
    Line::one(Span::new(s, Style::of(Color::DarkGray)))
}

/// An error.
pub fn render_error(t: &str) -> (r: Line)
    ensures
        r.deep_view() == error_line(t@),
{
    let mut s = "  [error] ".to_owned();
    s.push_str(t);
    Line::one(Span::new(s, Style::of(Color::Red)))
}

// ---------------------------------------------------------------------------
// Permission
// ---------------------------------------------------------------------------

/// Who asks, and for what.
pub open spec fn asking_line(tool_name: Seq<char>, capabilities: Seq<Seq<char>>) -> Seq<
    style::SpanView,
> {
    seq![
        style::span("  "@ + tool_name + " "@, style::bold_colored(Color::Yellow)),
        style::span(
            "requires ["@ + text::join(capabilities, ", "@) + "]"@,
            style::colored(Color::Yellow),
        ),
    ]
}

/// Which keys answer.
pub open spec fn answer_line(keys: Seq<char>) -> Seq<style::SpanView> {
    seq![
        style::span("  allow? "@, style::bold_colored(Color::Yellow)),
        style::span(keys, style::bold_colored(Color::White)),
    ]
}

/// A question for permission, which is answered by `keys`.
pub open spec fn permission_lines(
    tool_name: Seq<char>,
    capabilities: Seq<Seq<char>>,
    input_summary: Seq<char>,
    width: nat,
    keys: Seq<char>,
) -> Option<Seq<Seq<style::SpanView>>> {
    if input_summary.len() == 0 {
        Some(seq![asking_line(tool_name, capabilities), answer_line(keys)])
    } else {
        match in_row(input_summary, width) {
            Some(summary) => Some(
                seq![
                    asking_line(tool_name, capabilities),
                    seq![style::span("  "@ + summary, style::colored(Color::DarkGray))],
                    answer_line(keys),
                ],
            ),
            None => None,
        }
    }
}

/// A question for permission, which is answered by `keys`. There is none where
/// the summary cannot be cut off.
pub fn render_permission(
    tool_name: &str,
    capabilities: &Vec<String>,
    input_summary: &str,
    width: usize,
    keys: &str,
) -> (r: Option<Vec<Line>>)
    ensures
        lines_view(r) == permission_lines(
            tool_name@,
            capabilities.deep_view(),
            input_summary@,
            width as nat,
            keys@,
        ),
{
    let mut who = "  ".to_owned();
    who.push_str(tool_name);
    who.push_str(" ");
    let mut what = "requires [".to_owned();
    what.push_str(joined(capabilities, ", ").as_str());
    what.push_str("]");
    let asking = Line::two(
        Span::new(who, Style::bold(Color::Yellow)),
        Span::new(what, Style::of(Color::Yellow)),
    );
    let answer = Line::two(
        Span::of("  allow? ", Style::bold(Color::Yellow)),
        Span::of(keys, Style::bold(Color::White)),
    );
    let ghost first = asking.deep_view();
    let ghost last = answer.deep_view();
    let lines = push_line(Vec::new(), asking);
    if input_summary.unicode_len() == 0 {
        let lines = push_line(lines, answer);
        assert(lines.deep_view() =~= seq![first, last]);
        return Some(lines);
    }
    match fit_row(input_summary, width) {
        Some(summary) => {
            let mut shown = "  ".to_owned();
            shown.push_str(summary.as_str());
            let line = Line::one(Span::new(shown, Style::of(Color::DarkGray)));
            let ghost middle = line.deep_view();
            let lines = push_line(push_line(lines, line), answer);
            assert(lines.deep_view() =~= seq![first, middle, last]);
            Some(lines)
        },
        None => None,
    }
}

/// Some lines, if there are any.
pub open spec fn lines_view(r: Option<Vec<Line>>) -> Option<Seq<Seq<style::SpanView>>> {
    match r {
        Some(lines) => Some(lines.deep_view()),
        None => None,
    }
}

// ---------------------------------------------------------------------------
// Tool calls
// ---------------------------------------------------------------------------

/// The line above a box: its title, and a rule to its width.
pub open spec fn box_top(title: Seq<char>, width: nat) -> Seq<style::SpanView> {
    let head = "\u{250c}\u{2500} "@ + title + " "@;
    seq![
        style::span(
            head + text::repeat("\u{2500}"@, less(width, text::byte_len(head))) + "\u{2510}"@,
            style::colored(Color::DarkGray),
        ),
    ]
}

/// The line below a box.
pub open spec fn box_bottom(width: nat) -> Seq<style::SpanView> {
    seq![
        style::span(
            "\u{2514}"@ + text::repeat("\u{2500}"@, less(width, 2)) + "\u{2518}"@,
            style::colored(Color::DarkGray),
        ),
    ]
}

/// The line above a box.
pub fn render_top(title: &str, width: usize) -> (r: Line)
    ensures
        r.deep_view() == box_top(title@, width as nat),
{
    let mut s = "\u{250c}\u{2500} ".to_owned();
    s.push_str(title);
    s.push_str(" ");
    let n: usize = byte_len_of(s.as_str());
    s.push_str(repeated("\u{2500}", width.saturating_sub(n)).as_str());
    s.push_str("\u{2510}");
    Line::one(Span::new(s, Style::of(Color::DarkGray)))
}

/// The line below a box.
pub fn render_bottom(width: usize) -> (r: Line)
    ensures
        r.deep_view() == box_bottom(width as nat),
{
    let mut s = "\u{2514}".to_owned();
    s.push_str(repeated("\u{2500}", width.saturating_sub(2)).as_str());
    s.push_str("\u{2518}");
    Line::one(Span::new(s, Style::of(Color::DarkGray)))
}

/// The input of a call, in a box of the given width.
pub open spec fn boxed_input(summary: Seq<char>, width: nat) -> Option<Seq<char>> {
    shortened(summary, less(width, 6), at_least(less(width, 9), 4))
}

/// The input of a call, in a box of the given width.
pub fn box_input(summary: &str, width: usize) -> (r: Option<String>)
    ensures
        r.deep_view() == boxed_input(summary@, width as nat),
{
    let kept: usize = width.saturating_sub(9);
    let keep: usize = if kept > 4 {
        kept
    } else {
        4
    };
    shorten(summary, width.saturating_sub(6), keep)
}

/// How a call fares, in words.
pub open spec fn indicator(status: types::StatusView, tick: int) -> Seq<char> {
    match status {
        types::StatusView::Running { elapsed, .. } => {
            let frame = seq![' ', input::spinner(tick)];
            if elapsed.millis >= 1000 {
                frame + " "@ + elapsed.seconds + "s"@
            } else {
                frame
            }
        },
        types::StatusView::Success(elapsed) => if elapsed.millis < 1000 {
            text::decimal(elapsed.millis as nat) + "ms"@
        } else {
            elapsed.seconds + "s"@
        },
        types::StatusView::Failed(message) => message,
    }
}

/// The look of these words.
pub open spec fn indicator_style(status: types::StatusView, theme: Theme) -> Style {
    match status {
        types::StatusView::Running { .. } => style::colored(theme.tool_running),
        types::StatusView::Success(_) => style::colored(theme.tool_border),
        types::StatusView::Failed(_) => style::colored(theme.tool_failed),
    }
}

/// How a call ended, as a sign.
pub open spec fn icon(status: types::StatusView) -> Seq<char> {
    match status {
        types::StatusView::Running { .. } => ""@,
        types::StatusView::Success(_) => "\u{2713} "@,
        types::StatusView::Failed(_) => "\u{2717} "@,
    }
}

/// The look of this sign.
pub open spec fn icon_style(status: types::StatusView, theme: Theme) -> Style {
    match status {
        types::StatusView::Running { .. } => style::plain(),
        types::StatusView::Success(_) => style::colored(theme.tool_success),
        types::StatusView::Failed(_) => style::colored(theme.tool_failed),
    }
}

/// The colour of a result.
pub open spec fn result_color(tool_name: Seq<char>, result: Seq<char>, theme: Theme) -> Color {
    if text::begins_with(result, "[error]"@) || text::begins_with(result, "[exit"@) {
        theme.error
    } else if tool_name == "file_read"@ || tool_name == "grep"@ {
        theme.code_block
    } else if tool_name == "shell"@ {
        Color::White
    } else {
        theme.tool_result
    }
}

/// The most lines of a result that are shown.
pub const RESULT_LINES: usize = 20;

/// A line of a result in its box.
pub open spec fn result_line(content: Seq<char>, color: Color, theme: Theme) -> Seq<
    style::SpanView,
> {
    seq![
        style::span("\u{2502} "@, style::colored(theme.tool_border)),
        style::span(content, style::colored(color)),
    ]
}

/// The first `n` lines of a result in their box, where each fits or can be cut
/// off.
pub open spec fn first_results(
    lines: Seq<Seq<char>>,
    n: nat,
    color: Color,
    theme: Theme,
    width: nat,
) -> Option<Seq<Seq<style::SpanView>>>
    decreases n,
{
    if n == 0 {
        Some(Seq::empty())
    } else {
        match (
            first_results(lines, (n - 1) as nat, color, theme, width),
            in_row(lines[n - 1], width),
        ) {
            (Some(rest), Some(content)) => Some(rest.push(result_line(content, color, theme))),
            _ => None,
        }
    }
}

/// A result in its box.
pub open spec fn result_lines(
    tool_name: Seq<char>,
    result: Seq<char>,
    theme: Theme,
    width: nat,
) -> Option<Seq<Seq<style::SpanView>>> {
    let lines = text::lines(result);
    let color = result_color(tool_name, result, theme);
    if lines.len() > RESULT_LINES {
        match first_results(lines, RESULT_LINES as nat, color, theme, width) {
            Some(shown) => Some(
                shown.push(
                    result_line(
                        "... ("@ + text::decimal((lines.len() - RESULT_LINES) as nat)
                            + " more lines)"@,
                        theme.info,
                        theme,
                    ),
                ),
            ),
            None => None,
        }
    } else {
        first_results(lines, lines.len(), color, theme, width)
    }
}

/// What is shown of a tool call.
#[verifier::ext_equal]
pub ghost struct CallBlock {
    pub tool_name: Seq<char>,
    pub input_summary: Seq<char>,
    pub status: types::StatusView,
    pub result_summary: Option<Seq<char>>,
    pub expanded: bool,
    pub tick: int,
    pub theme: Theme,
    pub width: nat,
}

impl CallBlock {
    /// A call that is over, in one line.
    pub open spec fn line(self) -> Seq<style::SpanView> {
        let border = style::colored(self.theme.tool_border);
        seq![
            style::span("  "@ + icon(self.status), icon_style(self.status, self.theme)),
            style::span(self.tool_name, border),
            style::span(" "@ + self.input_summary, border),
            style::span(
                " "@ + indicator(self.status, self.tick),
                indicator_style(self.status, self.theme),
            ),
        ]
    }

    /// The input of the call, and how it fares.
    pub open spec fn input_line(self, summary: Seq<char>) -> Seq<style::SpanView> {
        seq![
            style::span("\u{2502} "@, style::colored(Color::DarkGray)),
            style::span(summary, style::plain()),
            style::span(
                " "@ + icon(self.status) + indicator(self.status, self.tick),
                indicator_style(self.status, self.theme),
            ),
        ]
    }

    /// The call as it is shown: in a box while it runs or where it is expanded,
    /// else in one line.
    pub open spec fn lines(self) -> Option<Seq<Seq<style::SpanView>>> {
        if !(self.status is Running || self.expanded) {
            Some(seq![self.line()])
        } else {
            let results = match self.result_summary {
                Some(result) => result_lines(self.tool_name, result, self.theme, self.width),
                None => Some(Seq::empty()),
            };
            match (boxed_input(self.input_summary, self.width), results) {
                (Some(summary), Some(shown)) => Some(
                    (seq![box_top(self.tool_name, self.width), self.input_line(summary)]
                        + shown).push(box_bottom(self.width)),
                ),
                _ => None,
            }
        }
    }
}

fn indicator_of(status: &ToolCallStatus, tick: usize) -> (r: String)
    ensures
        r@ == indicator(status.deep_view(), tick as int),
{
    match status {
        ToolCallStatus::Running { elapsed, .. } => {
            let mut s = String::new();
            s.push(' ');
            s.push(spinner_char(tick));
            assert(s@ =~= seq![' ', input::spinner(tick as int)]);
            if elapsed.millis >= 1000 {
                s.push_str(" ");
                s.push_str(elapsed.seconds.as_str());
                s.push_str("s");
            }
            s
        },
        ToolCallStatus::Success(elapsed) => {
            if elapsed.millis < 1000 {
                let mut s = decimal_of(elapsed.millis);
                s.push_str("ms");
                s
            } else {
                let mut s = elapsed.seconds.clone();
                s.push_str("s");
                s
            }
        },
        ToolCallStatus::Failed(message) => message.clone(),
    }
}

fn indicator_style_of(status: &ToolCallStatus, theme: &Theme) -> (r: Style)
    ensures
        r == indicator_style(status.deep_view(), *theme),
{
    match status {
        ToolCallStatus::Running { .. } => Style::of(theme.tool_running),
        ToolCallStatus::Success(_) => Style::of(theme.tool_border),
        ToolCallStatus::Failed(_) => Style::of(theme.tool_failed),
    }
}

fn icon_of(status: &ToolCallStatus) -> (r: &'static str)
    ensures
        r@ == icon(status.deep_view()),
{
    match status {
        ToolCallStatus::Running { .. } => "",
        ToolCallStatus::Success(_) => "\u{2713} ",
        ToolCallStatus::Failed(_) => "\u{2717} ",
    }
}

fn icon_style_of(status: &ToolCallStatus, theme: &Theme) -> (r: Style)
    ensures
        r == icon_style(status.deep_view(), *theme),
{
    match status {
        ToolCallStatus::Running { .. } => Style::plain(),
        ToolCallStatus::Success(_) => Style::of(theme.tool_success),
        ToolCallStatus::Failed(_) => Style::of(theme.tool_failed),
    }
}

fn result_color_of(tool_name: &str, result: &str, theme: &Theme) -> (r: Color)
    ensures
        r == result_color(tool_name@, result@, *theme),
{
    if starts_with(result, "[error]") || starts_with(result, "[exit") {
        theme.error
    } else if same(tool_name, "file_read") || same(tool_name, "grep") {
        theme.code_block
    } else if same(tool_name, "shell") {
        Color::White
    } else {
        theme.tool_result
    }
}

fn result_line_of(content: String, color: Color, theme: &Theme) -> (r: Line)
    ensures
        r.deep_view() == result_line(content@, color, *theme),
{
    Line::two(
        Span::of("\u{2502} ", Style::of(theme.tool_border)),
        Span::new(content, Style::of(color)),
    )
}

fn render_results(tool_name: &str, result: &str, theme: &Theme, width: usize) -> (r: Option<
    Vec<Line>,
>)
    ensures
        lines_view(r) == result_lines(tool_name@, result@, *theme, width as nat),
{
    let lines = lines_of(result);
    let ghost all = text::lines(result@);
    let n: usize = lines.len();
    assert(n == all.len());
    let color = result_color_of(tool_name, result, theme);
    let shown: usize = if n > RESULT_LINES {
        RESULT_LINES
    } else {
        n
    };
    let mut r: Vec<Line> = Vec::new();
    let mut i: usize = 0;
    assert(r.deep_view() =~= Seq::empty());
    while i < shown
        invariant
            all == lines.deep_view(),
            all == text::lines(result@),
            color == result_color(tool_name@, result@, *theme),
            shown == (if n > RESULT_LINES {
                RESULT_LINES
            } else {
                n
            }),
            i <= shown <= n == all.len() == lines@.len(),
            first_results(all, i as nat, color, *theme, width as nat) == Some(r.deep_view()),
        decreases shown - i,
    {
        match fit_row(lines[i].as_str(), width) {
            Some(content) => {
                r = push_line(r, result_line_of(content, color, theme));
            },
            None => {
                proof {
                    lemma_no_results(all, (i + 1) as nat, shown as nat, color, *theme, width as nat);
                }
                return None;
            },
        }
        i += 1;
    }
    if n > RESULT_LINES {
        let mut note = "... (".to_owned();
        note.push_str(decimal_of((n - RESULT_LINES) as u64).as_str());
        note.push_str(" more lines)");
        r = push_line(r, result_line_of(note, theme.info, theme));
    }
    Some(r)
}

proof fn lemma_no_results(
    lines: Seq<Seq<char>>,
    n: nat,
    m: nat,
    color: Color,
    theme: Theme,
    width: nat,
)
    requires
        n <= m,
        first_results(lines, n, color, theme, width) is None,
    ensures
        first_results(lines, m, color, theme, width) is None,
    decreases m,
{
    if n < m {
        lemma_no_results(lines, n, (m - 1) as nat, color, theme, width);
    }
}

/// What is shown of a tool call.
pub struct RenderCtx<'a> {
    pub tool_name: &'a str,
    pub input_summary: &'a str,
    pub status: &'a ToolCallStatus,
    pub result_summary: &'a Option<String>,
    pub expanded: bool,
    pub spinner_tick: usize,
    pub theme: &'a Theme,
    pub inner_width: usize,
}

impl<'a> View for RenderCtx<'a> {
    type V = CallBlock;

    open spec fn view(&self) -> CallBlock {
        CallBlock {
            tool_name: self.tool_name@,
            input_summary: self.input_summary@,
            status: self.status.deep_view(),
            result_summary: self.result_summary.deep_view(),
            expanded: self.expanded,
            tick: self.spinner_tick as int,
            theme: *self.theme,
            width: self.inner_width as nat,
        }
    }
}

/// A tool call as it is shown. There is none where its input or its result
/// cannot be cut off.
pub fn render_tool_call(ctx: &RenderCtx<'_>) -> (r: Option<Vec<Line>>)
    ensures
        lines_view(r) == ctx@.lines(),
{
    let running = match ctx.status {
        ToolCallStatus::Running { .. } => true,
        _ => false,
    };
    let words = indicator_of(ctx.status, ctx.spinner_tick);
    let look = indicator_style_of(ctx.status, ctx.theme);
    let sign = icon_of(ctx.status);
    if !(running || ctx.expanded) {
        let border = Style::of(ctx.theme.tool_border);
        let mut first = "  ".to_owned();
        first.push_str(sign);
        let mut summary = " ".to_owned();
        summary.push_str(ctx.input_summary);
        let mut last = " ".to_owned();
        last.push_str(words.as_str());
        let mut spans: Vec<Span> = Vec::new();
        spans.push(Span::new(first, icon_style_of(ctx.status, ctx.theme)));
        spans.push(Span::of(ctx.tool_name, border));
        spans.push(Span::new(summary, border));
        spans.push(Span::new(last, look));
        let line = Line { spans };
        assert(line.deep_view() =~= ctx@.line());
        let lines = push_line(Vec::new(), line);
        assert(lines.deep_view() =~= seq![ctx@.line()]);
        return Some(lines);
    }
    let summary = match box_input(ctx.input_summary, ctx.inner_width) {
        Some(summary) => summary,
        None => {
            return None;
        },
    };
    let mut last = " ".to_owned();
    last.push_str(sign);
    last.push_str(words.as_str());
    let line = Line::three(
        Span::of("\u{2502} ", Style::of(Color::DarkGray)),
        Span::new(summary, Style::plain()),
        Span::new(last, look),
    );
    let ghost top = box_top(ctx@.tool_name, ctx@.width);
    let ghost second = line.deep_view();
    let mut lines = push_line(
        push_line(Vec::new(), render_top(ctx.tool_name, ctx.inner_width)),
        line,
    );
    assert(lines.deep_view() =~= seq![top, second]);
    match ctx.result_summary {
        Some(result) => match render_results(
            ctx.tool_name,
            result.as_str(),
            ctx.theme,
            ctx.inner_width,
        ) {
            Some(shown) => {
                let ghost added = shown.deep_view();
                let mut shown = shown;
                lines.append(&mut shown);
                assert(lines.deep_view() =~= seq![top, second] + added);
            },
            None => {
                return None;
            },
        },
        None => {
            assert(lines.deep_view() =~= seq![top, second] + Seq::empty());
        },
    }
    Some(push_line(lines, render_bottom(ctx.inner_width)))
}

// ---------------------------------------------------------------------------
// Laws
// ---------------------------------------------------------------------------

/// The text of a line, its spans put together.
pub open spec fn shown_text(line: Seq<style::SpanView>) -> Seq<char>
    decreases line.len(),
{
    if line.len() == 0 {
        Seq::empty()
    } else {
        shown_text(line.drop_last()) + line.last().text
    }
}

proof fn lemma_shown(a: style::SpanView, b: style::SpanView)
    ensures
        shown_text(seq![a]) == a.text,
        shown_text(seq![a, b]) == a.text + b.text,
{
    reveal_with_fuel(shown_text, 3);
    assert(seq![a].drop_last() =~= Seq::empty());
    assert(seq![a, b].drop_last() =~= seq![a]);
    assert(shown_text(seq![a]) =~= a.text);
}

/// What the user said is shown line by line, in order, the first behind a mark.
pub proof fn law_what_the_user_said_is_shown(t: Seq<char>, theme: Theme, i: int)
    requires
        0 <= i < text::lines(t).len(),
    ensures
        user_lines(t, theme).len() == text::lines(t).len(),
        shown_text(user_lines(t, theme)[i]) == (if i == 0 {
            "> "@
        } else {
            "  "@
        }) + text::lines(t)[i],
        shown_text(info_line(t)) == "  "@ + t,
        shown_text(error_line(t)) == "  [error] "@ + t,
{
    let line = user_lines(t, theme)[i];
    lemma_shown(line[0], line[1]);
    assert(line =~= seq![line[0], line[1]]);
    lemma_shown(info_line(t)[0], info_line(t)[0]);
    lemma_shown(error_line(t)[0], error_line(t)[0]);
    assert(info_line(t) =~= seq![info_line(t)[0]]);
    assert(error_line(t) =~= seq![error_line(t)[0]]);
}

/// A text that fits is shown as it is, and of a longer one the beginning, with a
/// mark that it goes on.
pub proof fn law_long_texts_are_shortened(s: Seq<char>, room: nat, keep: nat, width: nat)
    ensures
        text::byte_len(s) <= room ==> shortened(s, room, keep) == Some(s),
        text::byte_len(s) > room && text::cuts_at(s, keep as int) ==> shortened(s, room, keep)
            == Some(text::cut(s, keep as int) + "..."@),
        text::byte_len(s) > room && !text::cuts_at(s, keep as int) ==> shortened(s, room, keep)
            is None,
        text::byte_len(s) + 4 <= width ==> in_row(s, width) == Some(s),
        text::byte_len(s) + 6 <= width ==> boxed_input(s, width) == Some(s),
{
}

/// A question for permission says who asks, for what, and on what input, and which
/// keys answer it.
pub proof fn law_a_question_shows_what_is_asked(
    tool_name: Seq<char>,
    capabilities: Seq<Seq<char>>,
    input_summary: Seq<char>,
    width: nat,
    keys: Seq<char>,
)
    ensures
        permission_lines(tool_name, capabilities, input_summary, width, keys) matches Some(lines)
            ==> {
            &&& lines.len() >= 2
            &&& text::contains_text(shown_text(lines[0]), tool_name)
            &&& forall|k: int|
                0 <= k < capabilities.len() ==> text::contains_text(
                    shown_text(lines[0]),
                    #[trigger] capabilities[k],
                )
            &&& shown_text(lines.last()) == "  allow? "@ + keys
            &&& input_summary.len() > 0 && text::byte_len(input_summary) + 4 <= width
                ==> lines.len() == 3 && shown_text(lines[1]) == "  "@ + input_summary
        },
{
    if let Some(lines) = permission_lines(tool_name, capabilities, input_summary, width, keys) {
        let asking = asking_line(tool_name, capabilities);
        let answer = answer_line(keys);
        lemma_shown(asking[0], asking[1]);
        lemma_shown(answer[0], answer[1]);
        assert(asking =~= seq![asking[0], asking[1]]);
        assert(answer =~= seq![answer[0], answer[1]]);
        let caps = text::join(capabilities, ", "@);
        let whole = shown_text(asking);
        assert(whole =~= "  "@ + tool_name + (" "@ + "requires ["@ + caps + "]"@));
        text::lemma_contained_between("  "@, tool_name, " "@ + "requires ["@ + caps + "]"@);
        assert(whole =~= ("  "@ + tool_name + " "@ + "requires ["@) + caps + "]"@);
        text::lemma_contained_between("  "@ + tool_name + " "@ + "requires ["@, caps, "]"@);
        assert forall|k: int| 0 <= k < capabilities.len() implies text::contains_text(
            whole,
            #[trigger] capabilities[k],
        ) by {
            text::law_joined_texts_hold_their_parts(capabilities, ", "@, k);
            text::lemma_contained_in_part(whole, caps, capabilities[k]);
        }
        if input_summary.len() > 0 {
            let line = lines[1];
            lemma_shown(line[0], line[0]);
            assert(line =~= seq![line[0]]);
        }
    }
}

/// How a call fares is told: how long it took where it succeeded, the message where
/// it failed, and how long it has run from a second on, each with its sign.
pub proof fn law_calls_tell_how_they_fare(
    call: u64,
    elapsed: types::ElapsedView,
    message: Seq<char>,
    tick: int,
)
    ensures
        elapsed.millis < 1000 ==> indicator(types::StatusView::Success(elapsed), tick)
            == text::decimal(elapsed.millis as nat) + "ms"@,
        elapsed.millis >= 1000 ==> indicator(types::StatusView::Success(elapsed), tick)
            == elapsed.seconds + "s"@,
        indicator(types::StatusView::Failed(message), tick) == message,
        elapsed.millis < 1000 ==> indicator(types::StatusView::Running { call, elapsed }, tick)
            == seq![' ', input::spinner(tick)],
        elapsed.millis >= 1000 ==> indicator(types::StatusView::Running { call, elapsed }, tick)
            == seq![' ', input::spinner(tick)] + " "@ + elapsed.seconds + "s"@,
        icon(types::StatusView::Success(elapsed)) == "\u{2713} "@,
        icon(types::StatusView::Failed(message)) == "\u{2717} "@,
        icon(types::StatusView::Running { call, elapsed }) == ""@,
{
}

/// The lines of a result are shown in order, each with what fits of it, and how
/// many more there are.
pub proof fn law_results_are_shown_in_order(
    lines: Seq<Seq<char>>,
    n: nat,
    color: Color,
    theme: Theme,
    width: nat,
    i: int,
)
    requires
        n <= lines.len(),
        0 <= i < n,
    ensures
        first_results(lines, n, color, theme, width) matches Some(shown) ==> shown.len() == n && (
        in_row(lines[i], width) matches Some(content) && shown_text(shown[i]) == "\u{2502} "@
            + content),
        first_results(lines, n, color, theme, width) is Some <==> forall|k: int|
            0 <= k < n ==> in_row(#[trigger] lines[k], width) is Some,
    decreases n,
{
    lemma_results_shown(lines, n, color, theme, width);
    if let Some(shown) = first_results(lines, n, color, theme, width) {
        assert(in_row(lines[i], width) is Some);
        let line = shown[i];
        lemma_shown(line[0], line[1]);
        assert(line =~= seq![line[0], line[1]]);
    }
}

proof fn lemma_results_shown(
    lines: Seq<Seq<char>>,
    n: nat,
    color: Color,
    theme: Theme,
    width: nat,
)
    requires
        n <= lines.len(),
    ensures
        first_results(lines, n, color, theme, width) is Some <==> forall|k: int|
            0 <= k < n ==> in_row(#[trigger] lines[k], width) is Some,
        first_results(lines, n, color, theme, width) matches Some(shown) ==> shown.len() == n
            && forall|k: int|
            0 <= k < n ==> #[trigger] shown[k] == result_line(
                in_row(lines[k], width)->0,
                color,
                theme,
            ),
    decreases n,
{
    if n > 0 {
        let m = (n - 1) as nat;
        lemma_results_shown(lines, m, color, theme, width);
        if first_results(lines, n, color, theme, width) is None {
            if in_row(lines[n - 1], width) is Some {
                assert(!(forall|k: int| 0 <= k < m ==> in_row(#[trigger] lines[k], width) is Some));
            }
        }
    }
}

/// A call that is over is one line with its name, its input and how it fared; while
/// it runs, or where it is expanded, its result stands in a box under its name.
pub proof fn law_a_call_is_shown(block: CallBlock)
    ensures
        !(block.status is Running) && !block.expanded ==> (block.lines() matches Some(lines)
            && lines.len() == 1 && lines[0].len() == 4 && lines[0][0].text == "  "@ + icon(
            block.status,
        ) && lines[0][1].text == block.tool_name && lines[0][2].text == " "@ + block.input_summary
            && lines[0][3].text == " "@ + indicator(block.status, block.tick)),
        block.status is Running || block.expanded ==> (block.lines() matches Some(lines) ==> {
            &&& lines.len() >= 3
            &&& text::contains_text(lines[0][0].text, block.tool_name)
            &&& boxed_input(block.input_summary, block.width) == Some(lines[1][1].text)
            &&& block.result_summary is None ==> lines.len() == 3
            &&& block.result_summary matches Some(result) ==> result_lines(
                block.tool_name,
                result,
                block.theme,
                block.width,
            ) == Some(lines.subrange(2, lines.len() - 1))
        }),
{
    if block.status is Running || block.expanded {
        if let Some(lines) = block.lines() {
            let head = "\u{250c}\u{2500} "@;
            let rest = " "@ + text::repeat(
                "\u{2500}"@,
                less(block.width, text::byte_len(head + block.tool_name + " "@)),
            ) + "\u{2510}"@;
            text::lemma_contained_between(head, block.tool_name, rest);
            assert(lines[0][0].text =~= head + block.tool_name + rest);
            if let Some(result) = block.result_summary {
                let shown = result_lines(block.tool_name, result, block.theme, block.width)->0;
                assert(lines.subrange(2, lines.len() - 1) =~= shown);
            }
        }
    }
}

} // verus!
