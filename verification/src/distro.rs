//! The code-agent distribution: a terminal interface without Markdown, and a
//! frontend that only prints.

use crate::frontend::{CompactionSummary, KernelError, PermissionRequest};
use crate::json;
use crate::json::Json;
use crate::repl;
use crate::repl::question_of;
use crate::text;
use crate::text::{byte_len_of, decimal_of, lines_of, same};
use crate::tool;
use crate::tool::{ToolError, ToolOutput};
use crate::tool_display;
use crate::tool_display::clip;
use crate::tui::app;
use crate::tui::app::Editor;
use crate::tui::blocks;
use crate::tui::blocks::{
    box_input, render_bottom, render_error, render_info, render_permission, render_top,
};
use crate::tui::input;
use crate::tui::input::{spinner_char, KeyCode, KeyEvent};
use crate::tui::status_bar;
use crate::tui::status_bar::bar_of;
use crate::tui::style;
use crate::tui::style::{push_line, Color, Line, Span, Style};
use crate::turn_loop;
use vstd::prelude::*;
use vstd::string::*;

verus! {

// ---------------------------------------------------------------------------
// Entries
// ---------------------------------------------------------------------------

/// How a tool call fares.
#[derive(Debug)]
pub enum ToolCallStatus {
    Running,
    Success,
    Failed(String),
}

#[verifier::ext_equal]
pub ghost enum StatusView {
    Running,
    Success,
    Failed(Seq<char>),
}

impl DeepView for ToolCallStatus {
    type V = StatusView;

    open spec fn deep_view(&self) -> StatusView {
        match self {
            ToolCallStatus::Running => StatusView::Running,
            ToolCallStatus::Success => StatusView::Success,
            ToolCallStatus::Failed(message) => StatusView::Failed(message@),
        }
    }
}

/// An entry of the conversation.
#[derive(Debug)]
pub enum ConversationEntry {
    UserInput(String),
    AssistantText(String),
    ToolCall { tool_name: String, input_summary: String, status: ToolCallStatus },
    PermissionPrompt { tool_name: String, capabilities: Vec<String>, input_summary: String },
    Info(String),
    Error(String),
}

#[verifier::ext_equal]
pub ghost enum EntryView {
    UserInput(Seq<char>),
    AssistantText(Seq<char>),
    ToolCall { tool_name: Seq<char>, input_summary: Seq<char>, status: StatusView },
    PermissionPrompt {
        tool_name: Seq<char>,
        capabilities: Seq<Seq<char>>,
        input_summary: Seq<char>,
    },
    Info(Seq<char>),
    Error(Seq<char>),
}

impl DeepView for ConversationEntry {
    type V = EntryView;

    open spec fn deep_view(&self) -> EntryView {
        match self {
            ConversationEntry::UserInput(t) => EntryView::UserInput(t@),
            ConversationEntry::AssistantText(t) => EntryView::AssistantText(t@),
            ConversationEntry::ToolCall { tool_name, input_summary, status } =>
            EntryView::ToolCall {
                tool_name: tool_name@,
                input_summary: input_summary@,
                status: status.deep_view(),
            },
            ConversationEntry::PermissionPrompt { tool_name, capabilities, input_summary } =>
            EntryView::PermissionPrompt {
                tool_name: tool_name@,
                capabilities: capabilities.deep_view(),
                input_summary: input_summary@,
            },
            ConversationEntry::Info(t) => EntryView::Info(t@),
            ConversationEntry::Error(t) => EntryView::Error(t@),
        }
    }
}

// ---------------------------------------------------------------------------
// The interface
// ---------------------------------------------------------------------------

/// The state of the interface.
#[derive(Debug)]
pub struct App {
    pub entries: Vec<ConversationEntry>,
    pub editor: Editor,
    /// How many rows of the conversation are scrolled out of view.
    pub scroll: u16,
    /// Whether the end of the conversation is kept in view.
    pub follow: bool,
    pub rendered_lines: u16,
    pub model_name: String,
    pub total_input_tokens: usize,
    pub total_output_tokens: usize,
    pub turn_count: usize,
    pub turn_active: bool,
    pub spinner_tick: usize,
    pub awaiting_permission: bool,
    pub pending_permission_request_id: Option<u64>,
}

#[verifier::ext_equal]
pub ghost struct AppView {
    pub entries: Seq<EntryView>,
    pub editor: app::EditorView,
    pub scroll: u16,
    pub follow: bool,
    pub rendered_lines: u16,
    pub model_name: Seq<char>,
    pub total_input_tokens: usize,
    pub total_output_tokens: usize,
    pub turn_count: usize,
    pub turn_active: bool,
    pub spinner_tick: usize,
    pub awaiting_permission: bool,
    pub request_id: Option<u64>,
}

impl View for App {
    type V = AppView;

    open spec fn view(&self) -> AppView {
        AppView {
            entries: self.entries.deep_view(),
            editor: self.editor@,
            scroll: self.scroll,
            follow: self.follow,
            rendered_lines: self.rendered_lines,
            model_name: self.model_name@,
            total_input_tokens: self.total_input_tokens,
            total_output_tokens: self.total_output_tokens,
            turn_count: self.turn_count,
            turn_active: self.turn_active,
            spinner_tick: self.spinner_tick,
            awaiting_permission: self.awaiting_permission,
            request_id: self.pending_permission_request_id,
        }
    }
}

/// The input is taken; nothing is kept of it.
pub open spec fn taken(editor: app::EditorView) -> app::EditorView {
    app::EditorView { input: Seq::empty(), at: 0, ..editor }
}

impl AppView {
    /// The view is moved towards the start.
    pub open spec fn scroll_up(self, lines: u16) -> AppView {
        AppView {
            scroll: if self.scroll > lines {
                (self.scroll - lines) as u16
            } else {
                0
            },
            follow: false,
            ..self
        }
    }

    /// The view is moved towards the end, and kept there once it is reached.
    pub open spec fn scroll_down(self, lines: u16, viewport: u16) -> AppView {
        let limit = app::scroll_limit(self.rendered_lines, viewport);
        if self.scroll + lines >= limit {
            AppView { scroll: limit as u16, follow: true, ..self }
        } else {
            AppView { scroll: (self.scroll + lines) as u16, ..self }
        }
    }
}

impl App {
    pub fn new() -> (r: Self)
        ensures
            r@ == (AppView {
                entries: Seq::empty(),
                editor: app::empty_editor(),
                scroll: 0,
                follow: true,
                rendered_lines: 0,
                model_name: "anthropic"@,
                total_input_tokens: 0,
                total_output_tokens: 0,
                turn_count: 0,
                turn_active: false,
                spinner_tick: 0,
                awaiting_permission: false,
                request_id: None,
            }),
    {
        let r = App {
            entries: Vec::new(),
            editor: Editor::new(),
            scroll: 0,
            follow: true,
            rendered_lines: 0,
            model_name: "anthropic".to_owned(),
            total_input_tokens: 0,
            total_output_tokens: 0,
            turn_count: 0,
            turn_active: false,
            spinner_tick: 0,
            awaiting_permission: false,
            pending_permission_request_id: None,
        };
        assert(r@.entries =~= Seq::empty());
        r
    }

    pub fn scroll_up(&mut self, lines: u16)
        ensures
            final(self)@ == old(self)@.scroll_up(lines),
    {
        self.scroll = self.scroll.saturating_sub(lines);
        self.follow = false;
    }

    pub fn scroll_down(&mut self, lines: u16, viewport_height: u16)
        ensures
            final(self)@ == old(self)@.scroll_down(lines, viewport_height),
    {
        let limit: u16 = self.rendered_lines.saturating_sub(viewport_height);
        let wanted: u16 = self.scroll.saturating_add(lines);
        if wanted >= limit {
            self.scroll = limit;
            self.follow = true;
        } else {
            self.scroll = wanted;
        }
    }

    /// Keeps the end of the conversation in view.
    pub fn scroll_to_bottom(&mut self)
        ensures
            final(self)@ == (AppView { follow: true, ..old(self)@ }),
    {
        self.follow = true;
    }
}

// ---------------------------------------------------------------------------
// Drawing
// ---------------------------------------------------------------------------

/// A text of several lines, each behind a mark and in one look.
pub open spec fn text_lines(t: Seq<char>, mark: Seq<char>, look: Style) -> Seq<
    Seq<style::SpanView>,
> {
    let lines = text::lines(t);
    Seq::new(
        lines.len(),
        |i: int|
            if mark.len() == 0 {
                seq![style::span(lines[i], look)]
            } else {
                seq![style::span(mark, look), style::span(lines[i], look)]
            },
    )
}

fn render_text(t: &str, mark: &str, look: Style) -> (r: Vec<Line>)
    ensures
        r.deep_view() == text_lines(t@, mark@, look),
{
    let ghost all = text_lines(t@, mark@, look);
    let lines = lines_of(t);
    assert(all.len() == lines.deep_view().len());
    let mut r: Vec<Line> = Vec::new();
    let mut i: usize = 0;
    assert(r.deep_view() =~= all.take(0));
    while i < lines.len()
        invariant
            all == text_lines(t@, mark@, look),
            lines.deep_view() == text::lines(t@),
            i <= lines@.len() == all.len(),
            r.deep_view() == all.take(i as int),
        decreases lines@.len() - i,
    {
        let ghost before = r.deep_view();
        let span = Span::of(lines[i].as_str(), look);
        let line = if mark.unicode_len() == 0 {
            Line::one(span)
        } else {
            Line::two(Span::of(mark, look), span)
        };
        r = push_line(r, line);
        assert(r.deep_view().last() =~= all[i as int]);
        assert(all.take(i + 1) =~= before.push(all[i as int]));
        i += 1;
    }
    assert(all.take(i as int) =~= all);
    r
}

/// How a call fares.
pub open spec fn indicator(status: StatusView, tick: int) -> style::SpanView {
    match status {
        StatusView::Running => style::span(
            seq![' ', input::spinner(tick)],
            style::colored(Color::Yellow),
        ),
        StatusView::Success => style::span(" \u{2713}"@, style::colored(Color::Green)),
        StatusView::Failed(message) => style::span(
            " \u{2717} "@ + message,
            style::colored(Color::Red),
        ),
    }
}

fn indicator_of(status: &ToolCallStatus, tick: usize) -> (r: Span)
    ensures
        r.deep_view() == indicator(status.deep_view(), tick as int),
{
    match status {
        ToolCallStatus::Running => {
            let mut s = String::new();
            s.push(' ');
            s.push(spinner_char(tick));
            assert(s@ =~= seq![' ', input::spinner(tick as int)]);
            Span::new(s, Style::of(Color::Yellow))
        },
        ToolCallStatus::Success => Span::of(" \u{2713}", Style::of(Color::Green)),
        ToolCallStatus::Failed(message) => {
            let mut s = " \u{2717} ".to_owned();
            s.push_str(message.as_str());
            Span::new(s, Style::of(Color::Red))
        },
    }
}

/// A call in its box.
pub open spec fn call_lines(
    tool_name: Seq<char>,
    input_summary: Seq<char>,
    status: StatusView,
    tick: int,
    width: nat,
) -> Option<Seq<Seq<style::SpanView>>> {
    match blocks::boxed_input(input_summary, width) {
        Some(summary) => Some(
            seq![
                style::empty_line(),
                blocks::box_top(tool_name, width),
                seq![
                    style::span("\u{2502} "@, style::colored(Color::DarkGray)),
                    style::span(summary, style::plain()),
                    indicator(status, tick),
                ],
                blocks::box_bottom(width),
            ],
        ),
        None => None,
    }
}

fn render_call(
    tool_name: &str,
    input_summary: &str,
    status: &ToolCallStatus,
    tick: usize,
    width: usize,
) -> (r: Option<Vec<Line>>)
    ensures
        blocks::lines_view(r) == call_lines(
            tool_name@,
            input_summary@,
            status.deep_view(),
            tick as int,
            width as nat,
        ),
{
    let summary = match box_input(input_summary, width) {
        Some(summary) => summary,
        None => {
            return None;
        },
    };
    let line = Line::three(
        Span::of("\u{2502} ", Style::of(Color::DarkGray)),
        Span::new(summary, Style::plain()),
        indicator_of(status, tick),
    );
    let ghost third = line.deep_view();
    let lines = push_line(Vec::new(), Line::empty());
    let lines = push_line(lines, render_top(tool_name, width));
    let lines = push_line(lines, line);
    let lines = push_line(lines, render_bottom(width));
    assert(lines.deep_view() =~= seq![
        style::empty_line(),
        blocks::box_top(tool_name@, width as nat),
        third,
        blocks::box_bottom(width as nat),
    ]);
    Some(lines)
}

/// How an entry is shown.
pub open spec fn entry_lines(entry: EntryView, tick: int, width: nat) -> Option<
    Seq<Seq<style::SpanView>>,
> {
    let gap = seq![style::empty_line()];
    match entry {
        EntryView::UserInput(t) => Some(
            gap + text_lines(t, "> "@, style::bold_colored(Color::Cyan)),
        ),
        EntryView::AssistantText(t) => Some(gap + text_lines(t, ""@, style::plain())),
        EntryView::ToolCall { tool_name, input_summary, status } => call_lines(
            tool_name,
            input_summary,
            status,
            tick,
            width,
        ),
        EntryView::PermissionPrompt { tool_name, capabilities, input_summary } => {
            match blocks::permission_lines(
                tool_name,
                capabilities,
                input_summary,
                width,
                "[y/n]"@,
            ) {
                Some(lines) => Some(gap + lines),
                None => None,
            }
        },
        EntryView::Info(t) => Some(seq![blocks::info_line(t)]),
        EntryView::Error(t) => Some(seq![blocks::error_line(t)]),
    }
}

fn after_gap(lines: Vec<Line>) -> (r: Vec<Line>)
    ensures
        r.deep_view() == seq![style::empty_line()] + lines.deep_view(),
{
    let ghost all = lines.deep_view();
    let mut r = lines;
    r.insert(0, Line::empty());
    assert(r.deep_view() =~= seq![style::empty_line()] + all);
    r
}

fn alone(line: Line) -> (r: Vec<Line>)
    ensures
        r.deep_view() == seq![line.deep_view()],
{
    let ghost view = line.deep_view();
    let r = push_line(Vec::new(), line);
    assert(r.deep_view() =~= seq![view]);
    r
}

fn render_entry(entry: &ConversationEntry, tick: usize, width: usize) -> (r: Option<Vec<Line>>)
    ensures
        blocks::lines_view(r) == entry_lines(entry.deep_view(), tick as int, width as nat),
{
    match entry {
        ConversationEntry::UserInput(t) => Some(
            after_gap(render_text(t.as_str(), "> ", Style::bold(Color::Cyan))),
        ),
        ConversationEntry::AssistantText(t) => Some(
            after_gap(render_text(t.as_str(), "", Style::plain())),
        ),
        ConversationEntry::ToolCall { tool_name, input_summary, status } => render_call(
            tool_name.as_str(),
            input_summary.as_str(),
            status,
            tick,
            width,
        ),
        ConversationEntry::PermissionPrompt { tool_name, capabilities, input_summary } => {
            match render_permission(
                tool_name.as_str(),
                capabilities,
                input_summary.as_str(),
                width,
                "[y/n]",
            ) {
                Some(lines) => Some(after_gap(lines)),
                None => None,
            }
        },
        ConversationEntry::Info(t) => Some(alone(render_info(t.as_str()))),
        ConversationEntry::Error(t) => Some(alone(render_error(t.as_str()))),
    }
}

/// How the first `n` entries are shown, where each can be.
pub open spec fn conversation_lines(view: AppView, n: nat, width: nat) -> Option<
    Seq<Seq<style::SpanView>>,
>
    decreases n,
{
    if n == 0 {
        Some(Seq::empty())
    } else {
        match (
            conversation_lines(view, (n - 1) as nat, width),
            entry_lines(view.entries[n - 1], view.spinner_tick as int, width),
        ) {
            (Some(before), Some(lines)) => Some(before + lines),
            _ => None,
        }
    }
}

proof fn lemma_not_shown(view: AppView, n: nat, m: nat, width: nat)
    requires
        n <= m,
        conversation_lines(view, n, width) is None,
    ensures
        conversation_lines(view, m, width) is None,
    decreases m,
{
    if n < m {
        lemma_not_shown(view, n, (m - 1) as nat, width);
    }
}

/// The number of some lines, or the most that the interface counts.
pub open spec fn counted(n: nat) -> u16 {
    if n < 65535 {
        n as u16
    } else {
        65535
    }
}

/// Draws the conversation in a pane of the given size, and keeps its end in
/// view where it is to be. Returns its lines. Where a text in it cannot be cut
/// off at the width of the pane, nothing changes.
pub fn draw_conversation(app: &mut App, width: u16, height: u16) -> (r: Option<Vec<Line>>)
    ensures
        blocks::lines_view(r) == conversation_lines(
            old(app)@,
            old(app)@.entries.len(),
            blocks::less(width as nat, 2),
        ),
        match r {
            Some(lines) => {
                let rows = counted(lines@.len());
                final(app)@ == (AppView {
                    rendered_lines: rows,
                    scroll: if old(app)@.follow {
                        app::scroll_limit(rows, blocks::less(height as nat, 2) as u16) as u16
                    } else {
                        old(app)@.scroll
                    },
                    ..old(app)@
                })
            },
            None => final(app)@ == old(app)@,
        },
{
    let inner: usize = width.saturating_sub(2) as usize;
    let ghost n = app@.entries.len();
    assert(n == app.entries@.len());
    let mut lines: Vec<Line> = Vec::new();
    let mut i: usize = 0;
    assert(lines.deep_view() =~= Seq::empty());
    while i < app.entries.len()
        invariant
            app@ == old(app)@,
            n == app@.entries.len() == app.entries@.len(),
            i <= n,
            inner == blocks::less(width as nat, 2),
            conversation_lines(app@, i as nat, inner as nat) == Some(lines.deep_view()),
        decreases n - i,
    {
        let ghost before = lines.deep_view();
        match render_entry(&app.entries[i], app.spinner_tick, inner) {
            Some(more) => {
                let ghost added = more.deep_view();
                let mut more = more;
                lines.append(&mut more);
                assert(lines.deep_view() =~= before + added);
            },
            None => {
                proof {
                    lemma_not_shown(app@, (i + 1) as nat, n, inner as nat);
                }
                return None;
            },
        }
        i += 1;
    }
    let count: usize = lines.len();
    let rows: u16 = if count < 65535 {
        count as u16
    } else {
        65535
    };
    app.rendered_lines = rows;
    if app.follow {
        app.scroll = rows.saturating_sub(height.saturating_sub(2));
    }
    Some(lines)
}

/// What stands at the right of the status bar.
pub open spec fn status_right(view: AppView) -> Seq<char> {
    view.model_name + " | tokens: "@ + text::decimal(view.total_input_tokens as nat) + "in/"@
        + text::decimal(view.total_output_tokens as nat) + "out | turns: "@ + text::decimal(
        view.turn_count as nat,
    ) + " "@
}

/// The status bar, where its two ends fit side by side.
pub fn draw_status_bar(app: &App, width: usize) -> (r: Option<String>)
    ensures
        r.deep_view() == status_bar::bar(
            status_bar::left_text(),
            status_right(app@),
            width as nat,
        ),
{
    let mut right = app.model_name.clone();
    right.push_str(" | tokens: ");
    right.push_str(decimal_of(app.total_input_tokens as u64).as_str());
    right.push_str("in/");
    right.push_str(decimal_of(app.total_output_tokens as u64).as_str());
    right.push_str("out | turns: ");
    right.push_str(decimal_of(app.turn_count as u64).as_str());
    right.push_str(" ");
    bar_of(" agent-kernel v0.1.0", right.as_str(), width)
}

/// What stands before the input.
pub open spec fn prompt(view: AppView) -> Seq<char> {
    if view.awaiting_permission {
        " [y/n] "@
    } else if view.turn_active {
        seq![' ', input::spinner(view.spinner_tick as int), ' ']
    } else {
        " > "@
    }
}

/// The input line, and how many bytes stand before the cursor on it.
pub fn draw_input(app: &App) -> (r: (Line, usize, usize))
    ensures
        r.0.deep_view() == seq![
            style::span(prompt(app@), style::bold_colored(Color::Cyan)),
            style::span(app@.editor.input, style::plain()),
        ],
        r.1 == text::byte_len(prompt(app@)),
        r.2 == text::byte_len(app@.editor.input.take(app@.editor.at as int)),
{
    let mut before = String::new();
    if app.awaiting_permission {
        before = " [y/n] ".to_owned();
    } else if app.turn_active {
        before.push(' ');
        before.push(spinner_char(app.spinner_tick));
        before.push(' ');
        assert(before@ =~= seq![' ', input::spinner(app.spinner_tick as int), ' ']);
    } else {
        before = " > ".to_owned();
    }
    let room: usize = byte_len_of(before.as_str());
    let line = Line::two(
        Span::new(before, Style::bold(Color::Cyan)),
        Span::new(app.editor.input(), Style::plain()),
    );
    (line, room, app.editor.cursor())
}

// ---------------------------------------------------------------------------
// Keys
// ---------------------------------------------------------------------------

/// What a key asks for.
#[derive(Debug)]
pub enum InputAction {
    Submit(String),
    PermissionDecision(bool),
    Cancel,
    Quit,
    Nothing,
}

#[verifier::ext_equal]
pub ghost enum ActionView {
    Submit(Seq<char>),
    PermissionDecision(bool),
    Cancel,
    Quit,
    Nothing,
}

impl DeepView for InputAction {
    type V = ActionView;

    open spec fn deep_view(&self) -> ActionView {
        match self {
            InputAction::Submit(t) => ActionView::Submit(t@),
            InputAction::PermissionDecision(allow) => ActionView::PermissionDecision(*allow),
            InputAction::Cancel => ActionView::Cancel,
            InputAction::Quit => ActionView::Quit,
            InputAction::Nothing => ActionView::Nothing,
        }
    }
}

/// What a key asks for while the user is asked for permission.
pub open spec fn answer(code: KeyCode) -> ActionView {
    match code {
        KeyCode::Char(c) => if c == 'y' || c == 'Y' {
            ActionView::PermissionDecision(true)
        } else if c == 'n' || c == 'N' {
            ActionView::PermissionDecision(false)
        } else {
            ActionView::Nothing
        },
        _ => ActionView::Nothing,
    }
}

/// What an input that is entered asks for.
pub open spec fn entered(t: Seq<char>) -> ActionView {
    if t.len() == 0 {
        ActionView::Nothing
    } else if t == "/quit"@ || t == "/exit"@ {
        ActionView::Quit
    } else {
        ActionView::Submit(t)
    }
}

/// What a key does: to the interface, and what it asks for.
pub open spec fn on_key(view: AppView, key: KeyEvent) -> (AppView, ActionView) {
    let nothing = ActionView::Nothing;
    let with = |editor: app::EditorView| AppView { editor, ..view };
    if view.awaiting_permission {
        (view, answer(key.code))
    } else if key.code == KeyCode::Char('c') && key.control {
        if view.turn_active {
            (view, ActionView::Cancel)
        } else {
            (view, ActionView::Quit)
        }
    } else if key.code == KeyCode::Esc && view.turn_active {
        (view, ActionView::Cancel)
    } else {
        match key.code {
            KeyCode::Enter => (with(taken(view.editor)), entered(view.editor.input)),
            KeyCode::Char(c) => (with(view.editor.insert_char(c)), nothing),
            KeyCode::Backspace => (with(view.editor.backspace()), nothing),
            KeyCode::Delete => (with(view.editor.delete()), nothing),
            KeyCode::Left => (with(view.editor.move_left()), nothing),
            KeyCode::Right => (with(view.editor.move_right()), nothing),
            KeyCode::Home => (with(view.editor.move_home()), nothing),
            KeyCode::End => (with(view.editor.move_end()), nothing),
            KeyCode::Up => (view.scroll_up(3), nothing),
            KeyCode::Down => (view.scroll_down(3, 20), nothing),
            KeyCode::PageUp => (view.scroll_up(20), nothing),
            KeyCode::PageDown => (view.scroll_down(20, 20), nothing),
            KeyCode::Esc => (view, nothing),
            KeyCode::Other => (view, nothing),
        }
    }
}

/// Takes in a key. Returns what it asks for.
pub fn handle_key(app: &mut App, key: KeyEvent) -> (r: InputAction)
    ensures
        (final(app)@, r.deep_view()) == on_key(old(app)@, key),
{
    if app.awaiting_permission {
        return match key.code {
            KeyCode::Char(c) => if c == 'y' || c == 'Y' {
                InputAction::PermissionDecision(true)
            } else if c == 'n' || c == 'N' {
                InputAction::PermissionDecision(false)
            } else {
                InputAction::Nothing
            },
            _ => InputAction::Nothing,
        };
    }
    if key.code == KeyCode::Char('c') && key.control {
        return if app.turn_active {
            InputAction::Cancel
        } else {
            InputAction::Quit
        };
    }
    if key.code == KeyCode::Esc && app.turn_active {
        return InputAction::Cancel;
    }
    match key.code {
        KeyCode::Enter => {
            let text = app.editor.input();
            app.editor.clear();
            return if text.as_str().unicode_len() == 0 {
                InputAction::Nothing
            } else if same(text.as_str(), "/quit") || same(text.as_str(), "/exit") {
                InputAction::Quit
            } else {
                InputAction::Submit(text)
            };
        },
        KeyCode::Char(c) => app.editor.insert_char(c),
        KeyCode::Backspace => app.editor.backspace(),
        KeyCode::Delete => app.editor.delete(),
        KeyCode::Left => app.editor.move_left(),
        KeyCode::Right => app.editor.move_right(),
        KeyCode::Home => app.editor.move_home(),
        KeyCode::End => app.editor.move_end(),
        KeyCode::Up => app.scroll_up(3),
        KeyCode::Down => app.scroll_down(3, 20),
        KeyCode::PageUp => app.scroll_up(20),
        KeyCode::PageDown => app.scroll_down(20, 20),
        KeyCode::Esc => {},
        KeyCode::Other => {},
    }
    InputAction::Nothing
}

// ---------------------------------------------------------------------------
// The printing frontend
// ---------------------------------------------------------------------------

/// A frontend that prints what happens.
#[derive(Debug, Clone, Copy)]
pub struct ReplFrontend;

impl ReplFrontend {
    /// What is printed of a call. There is nothing where the input cannot be cut
    /// off.
    pub fn tool_call(&self, tool_name: &str, input: &Json) -> (r: Option<String>)
        ensures
            r.deep_view() == (match tool_display::clipped(
                json::json_text(input.deep_view()),
                120,
            ) {
                Some(shown) => Some("  [tool] "@ + tool_name@ + "("@ + shown + ")"@),
                None => None,
            }),
    {
        match clip(input.to_text().as_str(), 120) {
            Some(shown) => {
                let mut s = "  [tool] ".to_owned();
                s.push_str(tool_name);
                s.push_str("(");
                s.push_str(shown.as_str());
                s.push_str(")");
                Some(s)
            },
            None => None,
        }
    }

    /// What is printed of a result. There is nothing where it cannot be cut off.
    pub fn tool_result(&self, tool_name: &str, output: &ToolOutput) -> (r: Option<String>)
        ensures
            r.deep_view() == (match tool_display::clipped(
                json::json_text(output.deep_view().result),
                200,
            ) {
                Some(shown) => Some("  [result] "@ + tool_name@ + " → "@ + shown),
                None => None,
            }),
    {
        match clip(output.result.to_text().as_str(), 200) {
            Some(shown) => {
                let mut s = "  [result] ".to_owned();
                s.push_str(tool_name);
                s.push_str(" → ");
                s.push_str(shown.as_str());
                Some(s)
            },
            None => None,
        }
    }

    /// What is printed to ask for permission.
    pub fn permission_request(&self, request: &PermissionRequest) -> (r: String)
        ensures
            r@ == repl::question(request.deep_view()),
    {
        question_of(request)
    }

    /// What is printed when the workspace is another.
    pub fn workspace_changed(&self, new_root: &str) -> (r: String)
        ensures
            r@ == "  [workspace] changed to "@ + new_root@,
    {
        let mut s = "  [workspace] changed to ".to_owned();
        s.push_str(new_root);
        s
    }

    /// What is printed of an error.
    pub fn error(&self, error: &KernelError) -> (r: String)
        ensures
            r@ == "  [error] "@ + error.message@,
    {
        let mut s = "  [error] ".to_owned();
        s.push_str(error.message.as_str());
        s
    }

    /// What is printed of a compaction.
    pub fn compaction(&self, summary: &CompactionSummary) -> (r: String)
        ensures
            r@ == "  [compaction] freed "@ + text::decimal(summary.tokens_freed as nat)
                + " tokens ("@ + text::decimal(summary.turns_before as nat) + " → "@
                + text::decimal(summary.turns_after as nat) + " turns)"@,
    {
        let mut s = "  [compaction] freed ".to_owned();
        s.push_str(decimal_of(summary.tokens_freed as u64).as_str());
        s.push_str(" tokens (");
        s.push_str(decimal_of(summary.turns_before as u64).as_str());
        s.push_str(" → ");
        s.push_str(decimal_of(summary.turns_after as u64).as_str());
        s.push_str(" turns)");
        s
    }
}

// ---------------------------------------------------------------------------
// Tools
// ---------------------------------------------------------------------------

/// What the kernel is told of a call, where the tool, if there is one, came to
/// `outcome`.
pub open spec fn tool_response(
    tool_name: Seq<char>,
    outcome: Option<Result<tool::ToolOutputView, tool::ToolErrorView>>,
) -> tool::ToolOutputView {
    match outcome {
        Some(Ok(output)) => output,
        Some(Err(e)) => tool::ToolOutputView {
            result: json::json_object().with("error"@, json::JsonView::Str(e.message())),
            invalidations: Seq::empty(),
        },
        None => tool::ToolOutputView {
            result: json::json_object().with(
                "error"@,
                json::JsonView::Str("tool not found"@),
            ).with("name"@, json::JsonView::Str(tool_name)),
            invalidations: Seq::empty(),
        },
    }
}

/// What the kernel is told of a call, where the tool, if there is one, came to
/// `outcome`.
pub fn tool_response_of(
    tool_name: &str,
    outcome: Option<Result<ToolOutput, ToolError>>,
) -> (r: ToolOutput)
    ensures
        r.deep_view() == tool_response(
            tool_name@,
            match outcome {
                Some(done) => Some(turn_loop::outcome(done)),
                None => None,
            },
        ),
{
    match outcome {
        Some(Ok(output)) => output,
        Some(Err(e)) => ToolOutput::readonly(
            Json::object().with("error", Json::text(e.message().as_str())),
        ),
        None => ToolOutput::readonly(
            Json::object().with("error", Json::text("tool not found")).with(
                "name",
                Json::text(tool_name),
            ),
        ),
    }
}

// ---------------------------------------------------------------------------
// Laws
// ---------------------------------------------------------------------------

/// Texts are shown line by line, in order, and entries one behind the other, each
/// as it is shown alone.
pub proof fn law_the_conversation_is_shown_in_order(
    view: AppView,
    n: nat,
    width: nat,
    t: Seq<char>,
    mark: Seq<char>,
    look: Style,
    i: int,
)
    requires
        n < view.entries.len(),
        0 <= i < text::lines(t).len(),
    ensures
        conversation_lines(view, 0, width) matches Some(none) && none.len() == 0,
        conversation_lines(view, n + 1, width) matches Some(lines) ==> {
            let before = conversation_lines(view, n, width);
            let own = entry_lines(view.entries[n as int], view.spinner_tick as int, width);
            before is Some && own is Some && lines == before->0 + own->0
        },
        text_lines(t, mark, look).len() == text::lines(t).len(),
        text_lines(t, mark, look)[i].last().text == text::lines(t)[i],
        mark.len() > 0 ==> text_lines(t, mark, look)[i][0].text == mark,
{
}

/// What an entry shows: input behind its mark, answers as they are, calls in a box
/// with their input and how they fare, and notices and errors as they are.
pub proof fn law_what_entries_show(
    t: Seq<char>,
    tool_name: Seq<char>,
    status: StatusView,
    tick: int,
    width: nat,
)
    ensures
        entry_lines(EntryView::UserInput(t), tick, width) == Some(
            seq![style::empty_line()] + text_lines(t, "> "@, style::bold_colored(Color::Cyan)),
        ),
        entry_lines(EntryView::AssistantText(t), tick, width) == Some(
            seq![style::empty_line()] + text_lines(t, ""@, style::plain()),
        ),
        entry_lines(EntryView::Info(t), tick, width) == Some(seq![blocks::info_line(t)]),
        entry_lines(EntryView::Error(t), tick, width) == Some(seq![blocks::error_line(t)]),
        entry_lines(
            EntryView::ToolCall { tool_name, input_summary: t, status },
            tick,
            width,
        ) matches Some(lines) ==> lines.len() == 4 && lines[1] == blocks::box_top(tool_name, width)
            && blocks::boxed_input(t, width) == Some(lines[2][1].text) && lines[2][2]
            == indicator(status, tick),
        indicator(StatusView::Success, tick).text == " \u{2713}"@,
        indicator(StatusView::Failed(t), tick).text == " \u{2717} "@ + t,
        indicator(StatusView::Running, tick).text == seq![' ', input::spinner(tick)],
{
}

/// Keys do what is written on them: characters are typed, the arrows move the
/// cursor or scroll, and what is entered is submitted, unless it is one of the two
/// commands to leave. While the user is asked, only `y` and `n` answer.
pub proof fn law_keys_do_what_they_say(view: AppView, c: char, control: bool, shift: bool)
    ensures
        view.awaiting_permission ==> ({
            let asked = on_key(view, KeyEvent { code: KeyCode::Char(c), control, shift });
            &&& asked.0 == view
            &&& asked.1 == ActionView::PermissionDecision(true) <==> c == 'y' || c == 'Y'
            &&& asked.1 == ActionView::PermissionDecision(false) <==> c == 'n' || c == 'N'
        }),
        !view.awaiting_permission ==> ({
            let press = |code: KeyCode| on_key(
                view,
                KeyEvent { code, control: false, shift: false },
            );
            &&& press(KeyCode::Char(c)).0.editor == view.editor.insert_char(c)
            &&& press(KeyCode::Backspace).0.editor == view.editor.backspace()
            &&& press(KeyCode::Delete).0.editor == view.editor.delete()
            &&& press(KeyCode::Left).0.editor == view.editor.move_left()
            &&& press(KeyCode::Right).0.editor == view.editor.move_right()
            &&& press(KeyCode::Home).0.editor == view.editor.move_home()
            &&& press(KeyCode::End).0.editor == view.editor.move_end()
            &&& press(KeyCode::Up).0 == view.scroll_up(3)
            &&& press(KeyCode::Down).0 == view.scroll_down(3, 20)
            &&& press(KeyCode::PageUp).0 == view.scroll_up(20)
            &&& press(KeyCode::PageDown).0 == view.scroll_down(20, 20)
            &&& press(KeyCode::Enter).0.editor.input.len() == 0
            &&& view.editor.input.len() == 0 ==> press(KeyCode::Enter).1 is Nothing
            &&& view.editor.input == "/quit"@ || view.editor.input == "/exit"@
                ==> view.editor.input.len() > 0 ==> press(KeyCode::Enter).1 is Quit
            &&& view.editor.input.len() > 0 && view.editor.input != "/quit"@ && view.editor.input
                != "/exit"@ ==> press(KeyCode::Enter).1 == ActionView::Submit(view.editor.input)
            &&& press(KeyCode::Esc).1 == (if view.turn_active {
                ActionView::Cancel
            } else {
                ActionView::Nothing
            })
            &&& on_key(
                view,
                KeyEvent { code: KeyCode::Char('c'), control: true, shift: false },
            ).1 == (if view.turn_active {
                ActionView::Cancel
            } else {
                ActionView::Quit
            })
        }),
{
}

/// Scrolling moves the view by so many lines, as far as there are any. Towards the
/// start it no longer follows the end; once the end is reached it does again.
pub proof fn law_scrolling_moves_the_view(view: AppView, lines: u16, viewport: u16)
    ensures
        view.scroll >= lines ==> view.scroll_up(lines).scroll == view.scroll - lines,
        view.scroll < lines ==> view.scroll_up(lines).scroll == 0,
        !view.scroll_up(lines).follow,
        ({
            let end = if view.rendered_lines > viewport {
                view.rendered_lines - viewport
            } else {
                0
            };
            let down = view.scroll_down(lines, viewport);
            &&& view.scroll + lines < end ==> down.scroll == view.scroll + lines
            &&& view.scroll + lines >= end ==> down.scroll == end && down.follow
        }),
{
}

/// The kernel is told what a tool gave, as it is; of a tool that failed the error,
/// and of one that is not there its name.
pub proof fn law_outcomes_are_told(
    tool_name: Seq<char>,
    output: tool::ToolOutputView,
    e: tool::ToolErrorView,
)
    ensures
        tool_response(tool_name, Some(Ok(output))) == output,
        tool_response(tool_name, Some(Err(e))).result.get_str("error"@) == Some(e.message()),
        tool_response(tool_name, Some(Err(e))).invalidations.len() == 0,
        tool_response(tool_name, None).result.get_str("error"@) == Some("tool not found"@),
        tool_response(tool_name, None).result.get_str("name"@) == Some(tool_name),
        tool_response(tool_name, None).invalidations.len() == 0,
{
    reveal_strlit("error");
    reveal_strlit("name");
    assert("error"@.len() == 5);
    assert("name"@.len() == 4);
}

/// The bar tells the model, the tokens in and out and the turns, each as it is.
pub proof fn law_the_bar_tells_the_session(view: AppView)
    ensures
        text::begins_with(
            status_right(view),
            view.model_name + " | tokens: "@ + text::decimal(view.total_input_tokens as nat)
                + "in/"@ + text::decimal(view.total_output_tokens as nat) + "out"@,
        ),
        text::contains_text(
            status_right(view),
            "turns: "@ + text::decimal(view.turn_count as nat),
        ),
{
    let start = view.model_name + " | tokens: "@ + text::decimal(view.total_input_tokens as nat)
        + "in/"@ + text::decimal(view.total_output_tokens as nat);
    reveal_strlit("out | turns: ");
    reveal_strlit("out | ");
    reveal_strlit("out");
    reveal_strlit("turns: ");
    assert("out | turns: "@ =~= "out | "@ + "turns: "@);
    let turns = "turns: "@ + text::decimal(view.turn_count as nat);
    let whole = status_right(view);
    assert(whole =~= (start + "out | "@) + turns + " "@);
    text::lemma_contained_between(start + "out | "@, turns, " "@);
    assert(whole.subrange(0, (start + "out"@).len() as int) =~= start + "out"@);
}

} // verus!
