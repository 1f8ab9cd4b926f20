//! Keys, the mouse, and the input line.

use crate::text;
use crate::text::{byte_len_of, chars_of, last_char_at, lines_of, repeated, split_on, string_of};
use crate::tui::app;
use crate::tui::app::{App, Editor};
use crate::tui::style;
use crate::tui::style::{push_line, Line, Span, Style};
use crate::tui::types;
use crate::tui::types::{parse_slash_command, InputAction};
use vstd::prelude::*;
use vstd::string::*;

verus! {

// ---------------------------------------------------------------------------
// Keys
// ---------------------------------------------------------------------------

/// A key.
#[derive(Debug, Clone, Copy, PartialEq, Eq, Structural)]
pub enum KeyCode {
    Char(char),
    Enter,
    Esc,
    Backspace,
    Delete,
    Left,
    Right,
    Home,
    End,
    Up,
    Down,
    PageUp,
    PageDown,
    Other,
}

/// A key that is pressed, with others held down.
#[derive(Debug, Clone, Copy, PartialEq, Eq, Structural)]
pub struct KeyEvent {
    pub code: KeyCode,
    pub control: bool,
    pub shift: bool,
}

impl KeyEvent {
    /// A key that is pressed alone.
    pub fn plain(code: KeyCode) -> (r: Self)
        ensures
            r == (KeyEvent { code, control: false, shift: false }),
    {
        KeyEvent { code, control: false, shift: false }
    }
}

/// What the mouse does.
#[derive(Debug, Clone, Copy, PartialEq, Eq, Structural)]
pub enum MouseKind {
    ScrollUp,
    ScrollDown,
    Other,
}

/// What a key asks for while the user is asked for permission: nothing but an
/// answer.
pub open spec fn answer(code: KeyCode) -> types::ActionView {
    match code {
        KeyCode::Char(c) => if c == 'y' || c == 'Y' {
            types::ActionView::PermissionDecision(true)
        } else if c == 'n' || c == 'N' {
            types::ActionView::PermissionDecision(false)
        } else if c == 'a' || c == 'A' {
            types::ActionView::PermissionAlwaysAllow
        } else {
            types::ActionView::Nothing
        },
        _ => types::ActionView::Nothing,
    }
}

/// What an input that is entered asks for.
pub open spec fn entered(t: Seq<char>) -> types::ActionView {
    if t.len() == 0 {
        types::ActionView::Nothing
    } else {
        match types::slash_command(t) {
            Some(command) => types::ActionView::SlashCommand(command),
            None => types::ActionView::Submit(t),
        }
    }
}

/// The interface with another editor.
pub open spec fn with_editor(app: app::AppView, editor: app::EditorView) -> app::AppView {
    app::AppView { editor, ..app }
}

/// What a key does: to the interface, and what it asks for.
pub open spec fn on_key(app: app::AppView, key: KeyEvent) -> (app::AppView, types::ActionView) {
    let nothing = types::ActionView::Nothing;
    if app.awaiting_permission {
        (app, answer(key.code))
    } else if key.code == KeyCode::Char('c') && key.control {
        if app.turn_active {
            (app, types::ActionView::Cancel)
        } else {
            (app, types::ActionView::Quit)
        }
    } else if key.code == KeyCode::Esc && app.turn_active {
        (app, types::ActionView::Cancel)
    } else {
        match key.code {
            KeyCode::Enter => if key.shift {
                (with_editor(app, app.editor.insert_char('\n')), nothing)
            } else {
                (with_editor(app, app.editor.taken()), entered(app.editor.input))
            },
            KeyCode::Char(c) => (with_editor(app, app.editor.insert_char(c)), nothing),
            KeyCode::Backspace => (with_editor(app, app.editor.backspace()), nothing),
            KeyCode::Delete => (with_editor(app, app.editor.delete()), nothing),
            KeyCode::Left => (with_editor(app, app.editor.move_left()), nothing),
            KeyCode::Right => (with_editor(app, app.editor.move_right()), nothing),
            KeyCode::Home => (with_editor(app, app.editor.move_home()), nothing),
            KeyCode::End => (with_editor(app, app.editor.move_end()), nothing),
            KeyCode::Up => if key.control {
                (app.scroll_up(3), nothing)
            } else {
                (with_editor(app, app.editor.history_prev()), nothing)
            },
            KeyCode::Down => if key.control {
                (app.scroll_down(3, app.viewport_height), nothing)
            } else {
                (with_editor(app, app.editor.history_next()), nothing)
            },
            KeyCode::PageUp => (app.scroll_up(app.viewport_height), nothing),
            KeyCode::PageDown => (
                app.scroll_down(app.viewport_height, app.viewport_height),
                nothing,
            ),
            KeyCode::Esc => (app, nothing),
            KeyCode::Other => (app, nothing),
        }
    }
}

/// Takes in a key. Returns what it asks for.
pub fn handle_key(app: &mut App, key: KeyEvent) -> (r: InputAction)
    ensures
        (final(app)@, r.deep_view()) == on_key(old(app)@, key),
{
    if app.awaiting_permission {
        return match key.code {
            KeyCode::Char(c) => if c == 'y' || c == 'Y' {
                InputAction::PermissionDecision(true)
            } else if c == 'n' || c == 'N' {
                InputAction::PermissionDecision(false)
            } else if c == 'a' || c == 'A' {
                InputAction::PermissionAlwaysAllow
            } else {
                InputAction::Nothing
            },
            _ => InputAction::Nothing,
        };
    }
    if key.code == KeyCode::Char('c') && key.control {
        return if app.turn_active {
            InputAction::Cancel
        } else {
            InputAction::Quit
        };
    }
    if key.code == KeyCode::Esc && app.turn_active {
        return InputAction::Cancel;
    }
    let viewport: u16 = app.viewport_height;
    match key.code {
        KeyCode::Enter => {
            if key.shift {
                app.insert_char('\n');
            } else {
                let text = app.take_input();
                if text.as_str().unicode_len() == 0 {
                    return InputAction::Nothing;
                }
                return match parse_slash_command(text.as_str()) {
                    Some(command) => InputAction::SlashCommand(command),
                    None => InputAction::Submit(text),
                };
            }
        },
        KeyCode::Char(c) => app.insert_char(c),
        KeyCode::Backspace => app.backspace(),
        KeyCode::Delete => app.delete(),
        KeyCode::Left => app.move_left(),
        KeyCode::Right => app.move_right(),
        KeyCode::Home => app.move_home(),
        KeyCode::End => app.move_end(),
        KeyCode::Up => {
            if key.control {
                app.scroll_up(3);
            } else {
                app.history_prev();
            }
        },
        KeyCode::Down => {
            if key.control {
                app.scroll_down(3, viewport);
            } else {
                app.history_next();
            }
        },
        KeyCode::PageUp => app.scroll_up(viewport),
        KeyCode::PageDown => app.scroll_down(viewport, viewport),
        KeyCode::Esc => {},
        KeyCode::Other => {},
    }
    InputAction::Nothing
}

/// What the mouse does to the interface.
pub open spec fn on_mouse(app: app::AppView, kind: MouseKind) -> app::AppView {
    match kind {
        MouseKind::ScrollUp => app.scroll_up(3),
        MouseKind::ScrollDown => app.scroll_down(3, app.viewport_height),
        MouseKind::Other => app,
    }
}

/// Takes in what the mouse does. It asks for nothing.
pub fn handle_mouse(app: &mut App, kind: MouseKind) -> (r: InputAction)
    ensures
        final(app)@ == on_mouse(old(app)@, kind),
        r.deep_view() == types::ActionView::Nothing,
{
    let viewport: u16 = app.viewport_height;
    match kind {
        MouseKind::ScrollUp => app.scroll_up(3),
        MouseKind::ScrollDown => app.scroll_down(3, viewport),
        MouseKind::Other => {},
    }
    InputAction::Nothing
}

// ---------------------------------------------------------------------------
// The input line
// ---------------------------------------------------------------------------

/// The frames of the spinner.
pub open spec fn spinner(tick: int) -> char {
    let i = tick % 10;
    if i == 0 {
        '\u{280b}'
    } else if i == 1 {
        '\u{2819}'
    } else if i == 2 {
        '\u{2839}'
    } else if i == 3 {
        '\u{2838}'
    } else if i == 4 {
        '\u{283c}'
    } else if i == 5 {
        '\u{2834}'
    } else if i == 6 {
        '\u{2826}'
    } else if i == 7 {
        '\u{2827}'
    } else if i == 8 {
        '\u{2807}'
    } else {
        '\u{280f}'
    }
}

/// The frame of the spinner at a tick.
pub fn spinner_char(tick: usize) -> (r: char)
    ensures
        r == spinner(tick as int),
{
    let i: usize = tick % 10;
    if i == 0 {
        '\u{280b}'
    } else if i == 1 {
        '\u{2819}'
    } else if i == 2 {
        '\u{2839}'
    } else if i == 3 {
        '\u{2838}'
    } else if i == 4 {
        '\u{283c}'
    } else if i == 5 {
        '\u{2834}'
    } else if i == 6 {
        '\u{2826}'
    } else if i == 7 {
        '\u{2827}'
    } else if i == 8 {
        '\u{2807}'
    } else {
        '\u{280f}'
    }
}

/// What stands before the input.
pub open spec fn prompt(app: app::AppView) -> Seq<char> {
    if app.awaiting_permission {
        " [y/n] "@
    } else if app.turn_active {
        seq![' ', spinner(app.spinner_tick as int), ' ']
    } else {
        " > "@
    }
}

/// What stands before the input.
pub fn prompt_of(app: &App) -> (r: String)
    ensures
        r@ == prompt(app@),
{
    if app.awaiting_permission {
        " [y/n] ".to_owned()
    } else if app.turn_active {
        let mut r = String::new();
        r.push(' ');
        r.push(spinner_char(app.spinner_tick));
        r.push(' ');
        assert(r@ =~= seq![' ', spinner(app.spinner_tick as int), ' ']);
        r
    } else {
        " > ".to_owned()
    }
}

/// The rows of the input: the prompt before the first, and as much room before
/// the others.
pub open spec fn input_rows(app: app::AppView) -> Seq<Seq<style::SpanView>> {
    let rows = text::split(app.editor.input, '\n');
    Seq::new(
        rows.len(),
        |i: int|
            if i == 0 {
                seq![
                    style::span(prompt(app), style::bold_colored(app.theme.input_prompt)),
                    style::span(rows[i], style::plain()),
                ]
            } else {
                seq![
                    style::span(
                        text::repeat(" "@, text::byte_len(prompt(app))),
                        style::plain(),
                    ),
                    style::span(rows[i], style::plain()),
                ]
            },
    )
}

/// The rows of the input.
pub fn input_lines(app: &App) -> (r: Vec<Line>)
    ensures
        r.deep_view() == input_rows(app@),
{
    let ghost all = input_rows(app@);
    let before = prompt_of(app);
    let rows = split_on(app.input().as_str(), '\n');
    assert(all.len() == rows@.len());
    let mut r: Vec<Line> = Vec::new();
    let mut i: usize = 0;
    assert(r.deep_view() =~= all.take(0));
    while i < rows.len()
        invariant
            all == input_rows(app@),
            before@ == prompt(app@),
            rows.deep_view() == text::split(app@.editor.input, '\n'),
            i <= rows@.len() == all.len(),
            r.deep_view() == all.take(i as int),
        decreases rows@.len() - i,
    {
        let row = Span::of(rows[i].as_str(), Style::plain());
        let first = if i == 0 {
            Span::of(before.as_str(), Style::bold(app.theme.input_prompt))
        } else {
            Span::new(repeated(" ", byte_len_of(before.as_str())), Style::plain())
        };
        let ghost done = r.deep_view();
        r = push_line(r, Line::two(first, row));
        assert(r.deep_view().last() =~= all[i as int]);
        assert(all.take(i + 1) =~= done.push(all[i as int]));
        i += 1;
    }
    assert(all.take(i as int) =~= all);
    r
}

/// How many rows the input takes on the screen, with the line above it: eight
/// at most.
pub open spec fn input_height(input: Seq<char>) -> u16 {
    let n = text::lines(input).len();
    if n < 1 {
        2
    } else if n > 8 {
        9
    } else {
        (n + 1) as u16
    }
}

/// How many rows the input takes on the screen.
pub fn input_height_of(app: &App) -> (r: u16)
    ensures
        r == input_height(app@.editor.input),
{
    let lines = lines_of(app.input().as_str());
    let n: usize = lines.len();
    assert(n == text::lines(app@.editor.input).len());
    if n < 1 {
        2
    } else if n > 8 {
        9
    } else {
        n as u16 + 1
    }
}

/// How often a character stands in a text.
pub open spec fn occurrences(s: Seq<char>, c: char) -> nat
    decreases s.len(),
{
    if s.len() == 0 {
        0
    } else if s.last() == c {
        occurrences(s.drop_last(), c) + 1
    } else {
        occurrences(s.drop_last(), c)
    }
}

/// Where the cursor stands: in which row, and behind how many bytes.
pub open spec fn cursor_position(editor: app::EditorView) -> (nat, nat) {
    let before = editor.input.take(editor.at as int);
    (
        occurrences(before, '\n'),
        text::byte_len(before.skip(text::last_char(before, '\n') + 1)),
    )
}

/// Where the cursor stands in an input, behind its first `at` characters.
pub fn cursor_position_in_input(editor: &Editor) -> (r: (usize, usize))
    ensures
        (r.0 as nat, r.1 as nat) == cursor_position(editor@),
{
    proof {
        use_type_invariant(editor);
    }
    let input = editor.input();
    let v = chars_of(input.as_str());
    let at: usize = editor.position();
    let ghost before = v@.take(at as int);
    let mut rows: usize = 0;
    let mut i: usize = 0;
    assert(before.take(0) =~= Seq::empty());
    while i < at
        invariant
            before == v@.take(at as int),
            i <= at <= v@.len(),
            rows <= i,
            rows == occurrences(before.take(i as int), '\n'),
        decreases at - i,
    {
        assert(before.take(i + 1).drop_last() =~= before.take(i as int));
        assert(before.take(i + 1).last() == v@[i as int]);
        if v[i] == '\n' {
            rows += 1;
        }
        i += 1;
    }
    assert(before.take(i as int) =~= before);
    let start: usize = match last_char_at(&v, '\n', at) {
        Some(k) => k + 1,
        None => 0,
    };
    let tail = string_of(&v, start, at);
    assert(tail@ =~= before.skip(start as int));
    (rows, byte_len_of(tail.as_str()))
}

// ---------------------------------------------------------------------------
// Laws
// ---------------------------------------------------------------------------

/// While the user is asked for permission, no key edits the input, scrolls or
/// ends anything.
pub proof fn law_only_answers_while_asked(app: app::AppView, key: KeyEvent)
    requires
        app.awaiting_permission,
    ensures
        on_key(app, key).0 == app,
        on_key(app, key).1 is PermissionDecision || on_key(app, key).1 is PermissionAlwaysAllow
            || on_key(app, key).1 is Nothing,
{
}

/// A text that is typed character by character and entered is submitted as it
/// was typed, unless it is a command.
pub proof fn law_what_is_typed_is_submitted(app: app::AppView, t: Seq<char>)
    requires
        app.editor == app::empty_editor(),
        !app.awaiting_permission,
        t.len() > 0,
        types::slash_command(t) is None,
    ensures
        on_key(
            with_editor(app, typed(app.editor, t)),
            KeyEvent { code: KeyCode::Enter, control: false, shift: false },
        ).1 == types::ActionView::Submit(t),
{
    lemma_typed(app.editor, t);
}

/// The editor after a text was typed.
pub open spec fn typed(editor: app::EditorView, t: Seq<char>) -> app::EditorView
    decreases t.len(),
{
    if t.len() == 0 {
        editor
    } else {
        typed(editor, t.drop_last()).insert_char(t.last())
    }
}

proof fn lemma_typed(editor: app::EditorView, t: Seq<char>)
    requires
        editor == app::empty_editor(),
    ensures
        typed(editor, t).input == t,
        typed(editor, t).at == t.len(),
    decreases t.len(),
{
    if t.len() > 0 {
        lemma_typed(editor, t.drop_last());
        let before = typed(editor, t.drop_last());
        assert(before.input.insert(before.at as int, t.last()) =~= t);
    } else {
        assert(editor.input =~= t);
    }
}

/// While the user is asked, `y` allows, `n` denies and `a` allows from then on, in
/// capitals or not, and no other key answers.
pub proof fn law_keys_answer(app: app::AppView, c: char, control: bool, shift: bool)
    requires
        app.awaiting_permission,
    ensures
        ({
            let asked = on_key(app, KeyEvent { code: KeyCode::Char(c), control, shift }).1;
            &&& asked == types::ActionView::PermissionDecision(true) <==> c == 'y' || c == 'Y'
            &&& asked == types::ActionView::PermissionDecision(false) <==> c == 'n' || c == 'N'
            &&& asked is PermissionAlwaysAllow <==> c == 'a' || c == 'A'
        }),
        on_key(app, KeyEvent { code: KeyCode::Enter, control, shift }).1 is Nothing,
        on_key(app, KeyEvent { code: KeyCode::Esc, control, shift }).1 is Nothing,
{
}

/// Keys do what is written on them: characters are typed, the arrows and the keys
/// around them move the cursor, walk the history or scroll, and a new line is typed
/// with the shift key. Ctrl-C and escape stop a turn that runs, and Ctrl-C leaves
/// where none does.
pub proof fn law_keys_do_what_they_say(app: app::AppView, c: char)
    requires
        !app.awaiting_permission,
    ensures
        ({
            let press = |code: KeyCode| on_key(
                app,
                KeyEvent { code, control: false, shift: false },
            );
            &&& press(KeyCode::Char(c)).0.editor == app.editor.insert_char(c)
            &&& press(KeyCode::Char(c)).1 is Nothing
            &&& press(KeyCode::Backspace).0.editor == app.editor.backspace()
            &&& press(KeyCode::Delete).0.editor == app.editor.delete()
            &&& press(KeyCode::Left).0.editor == app.editor.move_left()
            &&& press(KeyCode::Right).0.editor == app.editor.move_right()
            &&& press(KeyCode::Home).0.editor == app.editor.move_home()
            &&& press(KeyCode::End).0.editor == app.editor.move_end()
            &&& press(KeyCode::Up).0.editor == app.editor.history_prev()
            &&& press(KeyCode::Down).0.editor == app.editor.history_next()
            &&& press(KeyCode::PageUp).0 == app.scroll_up(app.viewport_height)
            &&& press(KeyCode::PageDown).0 == app.scroll_down(
                app.viewport_height,
                app.viewport_height,
            )
            &&& press(KeyCode::Esc).1 == (if app.turn_active {
                types::ActionView::Cancel
            } else {
                types::ActionView::Nothing
            })
            &&& app.editor.input.len() == 0 ==> press(KeyCode::Enter).1 is Nothing
        }),
        on_key(app, KeyEvent { code: KeyCode::Char('c'), control: true, shift: false }).1 == (
        if app.turn_active {
            types::ActionView::Cancel
        } else {
            types::ActionView::Quit
        }),
        on_key(
            app,
            KeyEvent { code: KeyCode::Enter, control: false, shift: true },
        ).0.editor == app.editor.insert_char('\n'),
        on_key(app, KeyEvent { code: KeyCode::Enter, control: false, shift: true }).1 is Nothing,
        types::slash_command(app.editor.input) matches Some(command) ==> app.editor.input.len() > 0
            ==> on_key(app, KeyEvent { code: KeyCode::Enter, control: false, shift: false }).1
            == types::ActionView::SlashCommand(command),
        on_mouse(app, MouseKind::ScrollUp) == app.scroll_up(3),
        on_mouse(app, MouseKind::ScrollDown) == app.scroll_down(3, app.viewport_height),
        on_mouse(app, MouseKind::Other) == app,
{
}

/// The cursor stands in the row of as many line breaks as stand before it, and on a
/// row behind the bytes since the last of them.
pub proof fn law_the_cursor_stands_in_its_row(
    editor: app::EditorView,
    above: Seq<char>,
    row: Seq<char>,
)
    requires
        editor.at <= editor.input.len(),
        forall|i: int| 0 <= i < row.len() ==> row[i] != '\n',
    ensures
        editor.input.take(editor.at as int) == row ==> cursor_position(editor) == (
            0nat,
            text::byte_len(row),
        ),
        editor.input.take(editor.at as int) == above.push('\n') + row ==> cursor_position(editor)
            == (occurrences(above, '\n') + 1, text::byte_len(row)),
{
    let before = editor.input.take(editor.at as int);
    if before == row {
        lemma_row(Seq::empty(), row);
        assert(Seq::empty() + row =~= row);
        text::law_the_last_is_found(row, '\n');
        assert(text::last_char(row, '\n') == -1);
        assert(row.skip(0) =~= row);
    }
    if before == above.push('\n') + row {
        let start = above.push('\n');
        lemma_row(start, row);
        assert(start.drop_last() =~= above);
        text::law_the_last_is_found(before, '\n');
        let at = text::last_char(before, '\n');
        assert(before[above.len() as int] == '\n');
        if at > above.len() {
            assert(before[at] == row[at - start.len()]);
        }
        assert(at == above.len());
        assert(before.skip(at + 1) =~= row);
    }
}

proof fn lemma_row(start: Seq<char>, row: Seq<char>)
    requires
        forall|i: int| 0 <= i < row.len() ==> row[i] != '\n',
    ensures
        occurrences(start + row, '\n') == occurrences(start, '\n'),
    decreases row.len(),
{
    if row.len() == 0 {
        assert(start + row =~= start);
    } else {
        assert((start + row).drop_last() =~= start + row.drop_last());
        lemma_row(start, row.drop_last());
    }
}

/// The rows of the input are its lines, in order, each behind as much room as the
/// prompt takes, which stands before the first.
pub proof fn law_the_input_is_shown(app: app::AppView, i: int)
    requires
        0 <= i < text::split(app.editor.input, '\n').len(),
    ensures
        ({
            let rows = input_rows(app);
            &&& rows.len() == text::split(app.editor.input, '\n').len()
            &&& rows[i].len() == 2
            &&& rows[i][1].text == text::split(app.editor.input, '\n')[i]
            &&& i == 0 ==> rows[i][0].text == prompt(app)
            &&& i > 0 ==> rows[i][0].text.len() == text::byte_len(prompt(app)) && forall|k: int|
                0 <= k < rows[i][0].text.len() ==> #[trigger] rows[i][0].text[k] == ' '
        }),
        app.awaiting_permission ==> prompt(app) == " [y/n] "@,
        !app.awaiting_permission && !app.turn_active ==> prompt(app) == " > "@,
        ({
            let n = text::lines(app.editor.input).len();
            input_height(app.editor.input) == (if n == 0 {
                2
            } else if n <= 8 {
                n + 1
            } else {
                9
            })
        }),
{
    reveal_strlit(" ");
    let n = text::byte_len(prompt(app));
    text::law_repetition_repeats(" "@, n);
    if i > 0 {
        let rows = input_rows(app);
        assert forall|k: int| 0 <= k < rows[i][0].text.len() implies #[trigger] rows[i][0].text[k]
            == ' ' by {
            assert(text::repeat(" "@, n)[k] == " "@[k % 1]);
            assert(k % 1 == 0);
        }
    }
}

} // verus!
