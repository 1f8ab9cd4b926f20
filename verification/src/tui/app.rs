//! The state of the terminal interface.

use crate::text;
use crate::text::{byte_len_of, chars_of, string_of};
use crate::tui::style;
use crate::tui::style::Theme;
use crate::tui::types;
use crate::tui::types::ConversationEntry;
use vstd::prelude::*;
use vstd::string::*;

verus! {

// ---------------------------------------------------------------------------
// Editing
// ---------------------------------------------------------------------------

/// The input line, with what was entered before.
#[derive(Debug)]
pub struct Editor {
    state: EditorState,
}

/// What an editor holds.
#[derive(Debug)]
struct EditorState {
    chars: Vec<char>,
    at: usize,
    history: Vec<String>,
    history_index: Option<usize>,
    history_stash: String,
}

#[verifier::ext_equal]
pub ghost struct EditorView {
    pub input: Seq<char>,
    /// How many characters stand before the cursor.
    pub at: nat,
    /// What was entered before, the oldest first.
    pub history: Seq<Seq<char>>,
    /// Which of these is shown, if one is.
    pub index: Option<nat>,
    /// The input that was left for the history.
    pub stash: Seq<char>,
}

impl View for Editor {
    type V = EditorView;

    closed spec fn view(&self) -> EditorView {
        self.state@
    }
}

impl View for EditorState {
    type V = EditorView;

    closed spec fn view(&self) -> EditorView {
        EditorView {
            input: self.chars@,
            at: self.at as nat,
            history: self.history.deep_view(),
            index: match self.history_index {
                Some(i) => Some(i as nat),
                None => None,
            },
            stash: self.history_stash@,
        }
    }
}

/// An empty editor.
pub open spec fn empty_editor() -> EditorView {
    EditorView {
        input: Seq::empty(),
        at: 0,
        history: Seq::empty(),
        index: None,
        stash: Seq::empty(),
    }
}

impl EditorView {
    /// The cursor stands within the input, and what is shown of the history is
    /// there.
    pub open spec fn wf(self) -> bool {
        &&& self.at <= self.input.len()
        &&& self.index matches Some(i) ==> i < self.history.len()
    }

    /// A character is typed.
    pub open spec fn insert_char(self, c: char) -> EditorView {
        EditorView { input: self.input.insert(self.at as int, c), at: self.at + 1, ..self }
    }

    /// The character before the cursor is removed.
    pub open spec fn backspace(self) -> EditorView {
        if self.at == 0 {
            self
        } else {
            EditorView {
                input: self.input.remove(self.at - 1),
                at: (self.at - 1) as nat,
                ..self
            }
        }
    }

    /// The character behind the cursor is removed.
    pub open spec fn delete(self) -> EditorView {
        if self.at < self.input.len() {
            EditorView { input: self.input.remove(self.at as int), ..self }
        } else {
            self
        }
    }

    pub open spec fn move_left(self) -> EditorView {
        if self.at == 0 {
            self
        } else {
            EditorView { at: (self.at - 1) as nat, ..self }
        }
    }

    pub open spec fn move_right(self) -> EditorView {
        if self.at < self.input.len() {
            EditorView { at: self.at + 1, ..self }
        } else {
            self
        }
    }

    pub open spec fn move_home(self) -> EditorView {
        EditorView { at: 0, ..self }
    }

    pub open spec fn move_end(self) -> EditorView {
        EditorView { at: self.input.len(), ..self }
    }

    /// The input is taken, and kept in the history if it is not empty.
    pub open spec fn taken(self) -> EditorView {
        EditorView {
            history: if self.input.len() == 0 {
                self.history
            } else {
                self.history.push(self.input)
            },
            ..empty_editor()
        }
    }

    /// The input is `t`, with the cursor at its end.
    pub open spec fn showing(self, t: Seq<char>) -> EditorView {
        EditorView { input: t, at: t.len(), ..self }
    }

    /// What was entered before is shown.
    pub open spec fn history_prev(self) -> EditorView {
        if self.history.len() == 0 {
            self
        } else {
            match self.index {
                None => EditorView {
                    index: Some((self.history.len() - 1) as nat),
                    stash: self.input,
                    ..self.showing(self.history.last())
                },
                Some(i) => if i > 0 {
                    EditorView {
                        index: Some((i - 1) as nat),
                        ..self.showing(self.history[i - 1])
                    }
                } else {
                    self.move_end()
                },
            }
        }
    }

    /// What was entered later is shown, and in the end what was left for the
    /// history.
    pub open spec fn history_next(self) -> EditorView {
        match self.index {
            Some(i) => if i + 1 < self.history.len() {
                EditorView { index: Some(i + 1), ..self.showing(self.history[(i + 1) as int]) }
            } else {
                EditorView { index: None, stash: Seq::empty(), ..self.showing(self.stash) }
            },
            None => self.move_end(),
        }
    }
}

impl EditorState {
    fn new() -> (r: Self)
        ensures
            r@ == empty_editor(),
            r@.wf(),
    {
        let r = EditorState {
            chars: Vec::new(),
            at: 0,
            history: Vec::new(),
            history_index: None,
            history_stash: String::new(),
        };
        assert(r@.input =~= Seq::empty());
        assert(r@.history =~= Seq::empty());
        assert(r@.stash =~= Seq::empty());
        r
    }

    /// The input.
    fn input(&self) -> (r: String)
        ensures
            r@ == self@.input,
    {
        let r = string_of(&self.chars, 0, self.chars.len());
        assert(r@ =~= self.chars@);
        r
    }

    /// How many characters stand before the cursor.
    fn position(&self) -> (n: usize)
        ensures
            n == self@.at,
    {
        self.at
    }

    /// How many bytes stand before the cursor.
    fn cursor(&self) -> (n: usize)
        requires
            self@.wf(),
        ensures
            n == text::byte_len(self@.input.take(self@.at as int)),
    {
        let before = string_of(&self.chars, 0, self.at);
        assert(before@ =~= self@.input.take(self@.at as int));
        byte_len_of(before.as_str())
    }

    fn insert_char(&mut self, c: char)
        requires
            old(self)@.wf(),
        ensures
            final(self)@ == old(self)@.insert_char(c),
            final(self)@.wf(),
    {
        self.chars.insert(self.at, c);
        let n: usize = self.chars.len();
        assert(self.at < n);
        self.at = self.at + 1;
    }

    fn backspace(&mut self)
        requires
            old(self)@.wf(),
        ensures
            final(self)@ == old(self)@.backspace(),
            final(self)@.wf(),
    {
        if self.at > 0 {
            self.at = self.at - 1;
            let _ = self.chars.remove(self.at);
        }
    }

    fn delete(&mut self)
        requires
            old(self)@.wf(),
        ensures
            final(self)@ == old(self)@.delete(),
            final(self)@.wf(),
    {
        if self.at < self.chars.len() {
            let _ = self.chars.remove(self.at);
        }
    }

    fn move_left(&mut self)
        requires
            old(self)@.wf(),
        ensures
            final(self)@ == old(self)@.move_left(),
            final(self)@.wf(),
    {
        if self.at > 0 {
            self.at = self.at - 1;
        }
    }

    fn move_right(&mut self)
        requires
            old(self)@.wf(),
        ensures
            final(self)@ == old(self)@.move_right(),
            final(self)@.wf(),
    {
        if self.at < self.chars.len() {
            self.at = self.at + 1;
        }
    }

    fn move_home(&mut self)
        requires
            old(self)@.wf(),
        ensures
            final(self)@ == old(self)@.move_home(),
            final(self)@.wf(),
    {
        self.at = 0;
    }

    fn move_end(&mut self)
        requires
            old(self)@.wf(),
        ensures
            final(self)@ == old(self)@.move_end(),
            final(self)@.wf(),
    {
        self.at = self.chars.len();
    }

    /// Takes the input.
    fn take_input(&mut self) -> (r: String)
        requires
            old(self)@.wf(),
        ensures
            r@ == old(self)@.input,
            final(self)@ == old(self)@.taken(),
            final(self)@.wf(),
    {
        let ghost before = self.history.deep_view();
        let text = self.input();
        if text.as_str().unicode_len() > 0 {
            self.history.push(text.clone());
            assert(self.history.deep_view() =~= before.push(text@));
        }
        self.chars = Vec::new();
        self.at = 0;
        self.history_index = None;
        self.history_stash = String::new();
        assert(self@.input =~= Seq::empty());
        assert(self@.stash =~= Seq::empty());
        text
    }

    /// Empties the input, and keeps nothing of it.
    fn clear(&mut self)
        requires
            old(self)@.wf(),
        ensures
            final(self)@ == (EditorView { input: Seq::empty(), at: 0, ..old(self)@ }),
            final(self)@.wf(),
    {
        self.chars = Vec::new();
        self.at = 0;
        assert(self@.input =~= Seq::empty());
    }

    fn show(&mut self, i: usize)
        requires
            i < old(self)@.history.len(),
        ensures
            final(self)@ == (EditorView {
                index: Some(i as nat),
                ..old(self)@.showing(old(self)@.history[i as int])
            }),
    {
        self.history_index = Some(i);
        self.chars = chars_of(self.history[i].as_str());
        self.at = self.chars.len();
    }

    /// Shows what was entered before.
    fn history_prev(&mut self)
        requires
            old(self)@.wf(),
        ensures
            final(self)@ == old(self)@.history_prev(),
            final(self)@.wf(),
    {
        let n: usize = self.history.len();
        assert(n == self@.history.len());
        if n == 0 {
            return;
        }
        match self.history_index {
            None => {
                self.history_stash = self.input();
                self.show(n - 1);
            },
            Some(i) => {
                if i > 0 {
                    self.show(i - 1);
                } else {
                    self.at = self.chars.len();
                }
            },
        }
    }

    /// Shows what was entered later.
    fn history_next(&mut self)
        requires
            old(self)@.wf(),
        ensures
            final(self)@ == old(self)@.history_next(),
            final(self)@.wf(),
    {
        let n: usize = self.history.len();
        assert(n == self@.history.len());
        match self.history_index {
            Some(i) => {
                if i + 1 < n {
                    self.show(i + 1);
                } else {
                    self.history_index = None;
                    self.chars = chars_of(self.history_stash.as_str());
                    self.history_stash = String::new();
                    assert(self@.stash =~= Seq::empty());
                    self.at = self.chars.len();
                }
            },
            None => {
                self.at = self.chars.len();
            },
        }
    }
}

impl Editor {
    /// The cursor stands within the input, and what is shown of the history is
    /// there.
    #[verifier::type_invariant]
    pub open spec fn is_valid(self) -> bool {
        self@.wf()
    }

    pub fn new() -> (r: Self)
        ensures
            r@ == empty_editor(),
    {
        Editor { state: EditorState::new() }
    }

    /// The input.
    pub fn input(&self) -> (r: String)
        ensures
            r@ == self@.input,
    {
        self.state.input()
    }

    /// How many characters stand before the cursor.
    pub fn position(&self) -> (n: usize)
        ensures
            n == self@.at,
    {
        self.state.position()
    }

    /// How many bytes stand before the cursor.
    pub fn cursor(&self) -> (n: usize)
        ensures
            n == text::byte_len(self@.input.take(self@.at as int)),
    {
        proof {
            use_type_invariant(self);
        }
        self.state.cursor()
    }

    fn take_state(&mut self) -> (r: EditorState)
        ensures
            r@ == old(self)@,
            r@.wf(),
    {
        let mut held = Editor::new();
        std::mem::swap(self, &mut held);
        proof {
            use_type_invariant(&held);
        }
        held.state
    }

    pub fn insert_char(&mut self, c: char)
        ensures
            final(self)@ == old(self)@.insert_char(c),
    {
        let mut state = self.take_state();
        state.insert_char(c);
        *self = Editor { state };
    }

    pub fn backspace(&mut self)
        ensures
            final(self)@ == old(self)@.backspace(),
    {
        let mut state = self.take_state();
        state.backspace();
        *self = Editor { state };
    }

    pub fn delete(&mut self)
        ensures
            final(self)@ == old(self)@.delete(),
    {
        let mut state = self.take_state();
        state.delete();
        *self = Editor { state };
    }

    pub fn move_left(&mut self)
        ensures
            final(self)@ == old(self)@.move_left(),
    {
        let mut state = self.take_state();
        state.move_left();
        *self = Editor { state };
    }

    pub fn move_right(&mut self)
        ensures
            final(self)@ == old(self)@.move_right(),
    {
        let mut state = self.take_state();
        state.move_right();
        *self = Editor { state };
    }

    pub fn move_home(&mut self)
        ensures
            final(self)@ == old(self)@.move_home(),
    {
        let mut state = self.take_state();
        state.move_home();
        *self = Editor { state };
    }

    pub fn move_end(&mut self)
        ensures
            final(self)@ == old(self)@.move_end(),
    {
        let mut state = self.take_state();
        state.move_end();
        *self = Editor { state };
    }

    /// Takes the input.
    pub fn take_input(&mut self) -> (r: String)
        ensures
            r@ == old(self)@.input,
            final(self)@ == old(self)@.taken(),
    {
        let mut state = self.take_state();
        let r = state.take_input();
        *self = Editor { state };
        r
    }

    /// Empties the input, and keeps nothing of it.
    pub fn clear(&mut self)
        ensures
            final(self)@ == (EditorView { input: Seq::empty(), at: 0, ..old(self)@ }),
    {
        let mut state = self.take_state();
        state.clear();
        *self = Editor { state };
    }

    /// Shows what was entered before.
    pub fn history_prev(&mut self)
        ensures
            final(self)@ == old(self)@.history_prev(),
    {
        let mut state = self.take_state();
        state.history_prev();
        *self = Editor { state };
    }

    /// Shows what was entered later.
    pub fn history_next(&mut self)
        ensures
            final(self)@ == old(self)@.history_next(),
    {
        let mut state = self.take_state();
        state.history_next();
        *self = Editor { state };
    }
}

// ---------------------------------------------------------------------------
// The interface
// ---------------------------------------------------------------------------

/// The state of the interface.
#[derive(Debug)]
pub struct App {
    pub theme: Theme,
    pub entries: Vec<ConversationEntry>,
    pub editor: Editor,
    pub scroll: u16,
    /// Whether the end of the conversation is kept in view.
    pub follow: bool,
    pub rendered_lines: u16,
    pub viewport_height: u16,
    /// Whether the screen has to be drawn anew.
    pub dirty: bool,
    pub model_name: String,
    pub total_input_tokens: usize,
    pub total_output_tokens: usize,
    pub turn_count: usize,
    pub context_tokens: usize,
    pub context_window: usize,
    pub turn_active: bool,
    pub spinner_tick: usize,
    pub awaiting_permission: bool,
    pub pending_permission_request_id: Option<u64>,
    pub pending_permission_capabilities: Option<Vec<String>>,
    pub status_requested: bool,
    /// How many tool calls were shown so far.
    pub calls: u64,
}

#[verifier::ext_equal]
pub ghost struct AppView {
    pub theme: Theme,
    pub entries: Seq<types::EntryView>,
    pub editor: EditorView,
    pub scroll: u16,
    pub follow: bool,
    pub rendered_lines: u16,
    pub viewport_height: u16,
    pub dirty: bool,
    pub model_name: Seq<char>,
    pub total_input_tokens: usize,
    pub total_output_tokens: usize,
    pub turn_count: usize,
    pub context_tokens: usize,
    pub context_window: usize,
    pub turn_active: bool,
    pub spinner_tick: usize,
    pub awaiting_permission: bool,
    pub request_id: Option<u64>,
    pub capabilities: Option<Seq<Seq<char>>>,
    pub status_requested: bool,
    pub calls: u64,
}

/// Some capabilities, if there are any.
pub open spec fn capabilities_view(c: Option<Vec<String>>) -> Option<Seq<Seq<char>>> {
    match c {
        Some(v) => Some(v.deep_view()),
        None => None,
    }
}

impl View for App {
    type V = AppView;

    open spec fn view(&self) -> AppView {
        AppView {
            theme: self.theme,
            entries: self.entries.deep_view(),
            editor: self.editor@,
            scroll: self.scroll,
            follow: self.follow,
            rendered_lines: self.rendered_lines,
            viewport_height: self.viewport_height,
            dirty: self.dirty,
            model_name: self.model_name@,
            total_input_tokens: self.total_input_tokens,
            total_output_tokens: self.total_output_tokens,
            turn_count: self.turn_count,
            context_tokens: self.context_tokens,
            context_window: self.context_window,
            turn_active: self.turn_active,
            spinner_tick: self.spinner_tick,
            awaiting_permission: self.awaiting_permission,
            request_id: self.pending_permission_request_id,
            capabilities: capabilities_view(self.pending_permission_capabilities),
            status_requested: self.status_requested,
            calls: self.calls,
        }
    }
}

/// The interface when it starts.
pub open spec fn new_app() -> AppView {
    AppView {
        theme: style::dark_theme(),
        entries: Seq::empty(),
        editor: empty_editor(),
        scroll: 0,
        follow: true,
        rendered_lines: 0,
        viewport_height: 20,
        dirty: true,
        model_name: "anthropic"@,
        total_input_tokens: 0,
        total_output_tokens: 0,
        turn_count: 0,
        context_tokens: 0,
        context_window: 200_000,
        turn_active: false,
        spinner_tick: 0,
        awaiting_permission: false,
        request_id: None,
        capabilities: None,
        status_requested: false,
        calls: 0,
    }
}

/// How far the view can be scrolled.
pub open spec fn scroll_limit(rendered: u16, viewport: u16) -> int {
    if rendered > viewport {
        rendered - viewport
    } else {
        0
    }
}

impl AppView {
    /// The view is moved towards the start.
    pub open spec fn scroll_up(self, lines: u16) -> AppView {
        AppView {
            scroll: if self.scroll > lines {
                (self.scroll - lines) as u16
            } else {
                0
            },
            follow: false,
            ..self
        }
    }

    /// The view is moved towards the end, and kept there once it is reached.
    pub open spec fn scroll_down(self, lines: u16, viewport: u16) -> AppView {
        let limit = scroll_limit(self.rendered_lines, viewport);
        if self.scroll + lines >= limit {
            AppView { scroll: limit as u16, follow: true, ..self }
        } else {
            AppView { scroll: (self.scroll + lines) as u16, ..self }
        }
    }

    /// One more entry is shown.
    pub open spec fn with_entry(self, entry: types::EntryView) -> AppView {
        AppView { entries: self.entries.push(entry), ..self }
    }

    /// The end of the conversation is kept in view.
    pub open spec fn at_bottom(self) -> AppView {
        AppView { follow: true, ..self }
    }
}

impl App {
    pub fn new() -> (r: Self)
        ensures
            r@ == new_app(),
    {
        let r = App {
            theme: Theme::default(),
            entries: Vec::new(),
            editor: Editor::new(),
            scroll: 0,
            follow: true,
            rendered_lines: 0,
            viewport_height: 20,
            dirty: true,
            model_name: "anthropic".to_owned(),
            total_input_tokens: 0,
            total_output_tokens: 0,
            turn_count: 0,
            context_tokens: 0,
            context_window: 200_000,
            turn_active: false,
            spinner_tick: 0,
            awaiting_permission: false,
            pending_permission_request_id: None,
            pending_permission_capabilities: None,
            status_requested: false,
            calls: 0,
        };
        assert(r@.entries =~= Seq::empty());
        r
    }

    /// The input.
    pub fn input(&self) -> (r: String)
        ensures
            r@ == self@.editor.input,
    {
        self.editor.input()
    }

    pub fn insert_char(&mut self, c: char)
        ensures
            final(self)@ == (AppView { editor: old(self)@.editor.insert_char(c), ..old(self)@ }),
    {
        self.editor.insert_char(c);
    }

    pub fn backspace(&mut self)
        ensures
            final(self)@ == (AppView { editor: old(self)@.editor.backspace(), ..old(self)@ }),
    {
        self.editor.backspace();
    }

    pub fn delete(&mut self)
        ensures
            final(self)@ == (AppView { editor: old(self)@.editor.delete(), ..old(self)@ }),
    {
        self.editor.delete();
    }

    pub fn move_left(&mut self)
        ensures
            final(self)@ == (AppView { editor: old(self)@.editor.move_left(), ..old(self)@ }),
    {
        self.editor.move_left();
    }

    pub fn move_right(&mut self)
        ensures
            final(self)@ == (AppView { editor: old(self)@.editor.move_right(), ..old(self)@ }),
    {
        self.editor.move_right();
    }

    pub fn move_home(&mut self)
        ensures
            final(self)@ == (AppView { editor: old(self)@.editor.move_home(), ..old(self)@ }),
    {
        self.editor.move_home();
    }

    pub fn move_end(&mut self)
        ensures
            final(self)@ == (AppView { editor: old(self)@.editor.move_end(), ..old(self)@ }),
    {
        self.editor.move_end();
    }

    /// Takes the input.
    pub fn take_input(&mut self) -> (r: String)
        ensures
            r@ == old(self)@.editor.input,
            final(self)@ == (AppView { editor: old(self)@.editor.taken(), ..old(self)@ }),
    {
        self.editor.take_input()
    }

    /// Shows what was entered before.
    pub fn history_prev(&mut self)
        ensures
            final(self)@ == (AppView { editor: old(self)@.editor.history_prev(), ..old(self)@ }),
    {
        self.editor.history_prev();
    }

    /// Shows what was entered later.
    pub fn history_next(&mut self)
        ensures
            final(self)@ == (AppView { editor: old(self)@.editor.history_next(), ..old(self)@ }),
    {
        self.editor.history_next();
    }

    pub fn scroll_up(&mut self, lines: u16)
        ensures
            final(self)@ == old(self)@.scroll_up(lines),
    {
        self.scroll = self.scroll.saturating_sub(lines);
        self.follow = false;
    }

    pub fn scroll_down(&mut self, lines: u16, viewport_height: u16)
        ensures
            final(self)@ == old(self)@.scroll_down(lines, viewport_height),
    {
        let limit: u16 = self.rendered_lines.saturating_sub(viewport_height);
        let wanted: u16 = self.scroll.saturating_add(lines);
        if wanted >= limit {
            self.scroll = limit;
            self.follow = true;
        } else {
            self.scroll = wanted;
        }
    }

    /// Keeps the end of the conversation in view.
    pub fn scroll_to_bottom(&mut self)
        ensures
            final(self)@ == old(self)@.at_bottom(),
    {
        self.follow = true;
    }

    /// Shows one more entry.
    pub fn push_entry(&mut self, entry: ConversationEntry)
        ensures
            final(self)@ == old(self)@.with_entry(entry.deep_view()),
    {
        let ghost before = self.entries.deep_view();
        let ghost added = entry.deep_view();
        self.entries.push(entry);
        assert(self.entries.deep_view() =~= before.push(added));
    }
}

// ---------------------------------------------------------------------------
// Laws
// ---------------------------------------------------------------------------

/// A character that is typed and taken back leaves the input and the cursor as
/// they were.
pub proof fn law_backspace_undoes_typing(editor: EditorView, c: char)
    requires
        editor.wf(),
    ensures
        editor.insert_char(c).backspace() == editor,
{
    let typed = editor.insert_char(c);
    assert(typed.input.remove(typed.at - 1) =~= editor.input);
}

/// Moving left and then right, within the input, ends where it began; deleting
/// after moving left is the same as taking the character back.
pub proof fn law_moves_undo_each_other(editor: EditorView)
    requires
        editor.wf(),
        editor.at > 0,
    ensures
        editor.move_left().move_right() == editor,
        editor.move_left().delete() == editor.backspace(),
{
}

/// Leaving the input for the history and coming back shows the input again.
pub proof fn law_the_history_gives_the_input_back(editor: EditorView)
    requires
        editor.wf(),
        editor.index is None,
    ensures
        editor.history_prev().history_next().input == editor.input,
        editor.history_prev().history_next().index is None,
        editor.history_prev().history_next().history == editor.history,
{
}

/// The editor after so many steps back in the history.
pub open spec fn steps_back(editor: EditorView, n: nat) -> EditorView
    decreases n,
{
    if n == 0 {
        editor
    } else {
        steps_back(editor, (n - 1) as nat).history_prev()
    }
}

/// So many steps back, so far back is what is shown, and at the oldest it stays.
pub proof fn law_the_history_is_walked_in_order(editor: EditorView, n: nat)
    requires
        editor.wf(),
        editor.index is None,
        n > 0,
        editor.history.len() > 0,
    ensures
        ({
            let back = steps_back(editor, n);
            let i = if n <= editor.history.len() {
                editor.history.len() - n
            } else {
                0
            };
            &&& back.index == Some(i as nat)
            &&& back.input == editor.history[i]
            &&& back.history == editor.history
            &&& back.stash == editor.input
        }),
    decreases n,
{
    if n > 1 {
        law_the_history_is_walked_in_order(editor, (n - 1) as nat);
    } else {
        assert(steps_back(editor, 0) == editor);
    }
}

/// However the view is moved, it stays within the conversation if it was.
pub proof fn law_the_view_stays_within(app: AppView, lines: u16)
    requires
        app.scroll <= scroll_limit(app.rendered_lines, app.viewport_height),
    ensures
        ({
            let limit = scroll_limit(app.rendered_lines, app.viewport_height);
            &&& app.scroll_up(lines).scroll <= limit
            &&& app.scroll_down(lines, app.viewport_height).scroll <= limit
            &&& app.scroll_down(lines, app.viewport_height).scroll == limit ==> app.scroll_down(
                lines,
                app.viewport_height,
            ).follow
        }),
{
}

/// Typing puts the character where the cursor stands and leaves everything before
/// and behind it; deleting takes the one behind the cursor; the cursor moves by one
/// and stays within the input.
pub proof fn law_editing_happens_at_the_cursor(editor: EditorView, c: char)
    requires
        editor.wf(),
    ensures
        ({
            let at = editor.at as int;
            let before = editor.input.take(at);
            let behind = editor.input.skip(at);
            &&& editor.insert_char(c).input == before.push(c) + behind
            &&& editor.insert_char(c).at == at + 1
            &&& at > 0 ==> editor.backspace().input == before.drop_last() + behind
            &&& at > 0 ==> editor.backspace().at == at - 1
            &&& behind.len() > 0 ==> editor.delete().input == before + behind.drop_first()
            &&& editor.delete().at == at
            &&& behind.len() == 0 ==> editor.delete() == editor
            &&& at == 0 ==> editor.backspace() == editor && editor.move_left() == editor
            &&& at > 0 ==> editor.move_left().at == at - 1
            &&& behind.len() > 0 ==> editor.move_right().at == at + 1
            &&& behind.len() == 0 ==> editor.move_right() == editor
            &&& editor.move_left().input == editor.input && editor.move_right().input
                == editor.input
            &&& editor.move_home().at == 0 && editor.move_home().input == editor.input
            &&& editor.move_end().at == editor.input.len() && editor.move_end().input
                == editor.input
            &&& editor.insert_char(c).history == editor.history
        }),
{
    let at = editor.at as int;
    let before = editor.input.take(at);
    let behind = editor.input.skip(at);
    assert(editor.insert_char(c).input =~= before.push(c) + behind);
    if at > 0 {
        assert(editor.backspace().input =~= before.drop_last() + behind);
    }
    if behind.len() > 0 {
        assert(editor.delete().input =~= before + behind.drop_first());
    }
}

/// An input that is taken leaves the editor empty, and is the last of the history,
/// unless there was nothing in it.
pub proof fn law_inputs_are_remembered(editor: EditorView)
    ensures
        editor.taken().input.len() == 0,
        editor.taken().at == 0,
        editor.taken().index is None,
        editor.input.len() > 0 ==> editor.taken().history == editor.history.push(editor.input)
            && editor.taken().history_prev().input == editor.input,
        editor.input.len() == 0 ==> editor.taken().history == editor.history,
{
}

/// Scrolling moves the view by so many lines, as far as there are any. Towards the
/// start it no longer follows the end; once the end is reached it does again.
pub proof fn law_scrolling_moves_the_view(app: AppView, lines: u16, viewport: u16)
    ensures
        app.scroll >= lines ==> app.scroll_up(lines).scroll == app.scroll - lines,
        app.scroll < lines ==> app.scroll_up(lines).scroll == 0,
        !app.scroll_up(lines).follow,
        ({
            let end = if app.rendered_lines > viewport {
                app.rendered_lines - viewport
            } else {
                0
            };
            let down = app.scroll_down(lines, viewport);
            &&& app.scroll + lines < end ==> down.scroll == app.scroll + lines && down.follow
                == app.follow
            &&& app.scroll + lines >= end ==> down.scroll == end && down.follow
            &&& down.entries == app.entries && down.editor == app.editor
        }),
        app.at_bottom().follow,
        app.at_bottom().entries == app.entries,
        app.scroll_up(lines).entries == app.entries,
{
}

/// What is shown is shown behind everything else.
pub proof fn law_entries_are_added_at_the_end(app: AppView, entry: types::EntryView)
    ensures
        app.with_entry(entry).entries.len() == app.entries.len() + 1,
        app.with_entry(entry).entries.last() == entry,
        app.with_entry(entry).entries.drop_last() == app.entries,
        app.with_entry(entry) == (AppView {
            entries: app.with_entry(entry).entries,
            ..app
        }),
{
    assert(app.with_entry(entry).entries.drop_last() =~= app.entries);
}

} // verus!
