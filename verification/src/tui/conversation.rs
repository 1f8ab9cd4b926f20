//! The conversation on the screen.

use crate::tui::app;
use crate::tui::app::App;
use crate::tui::blocks;
use crate::tui::blocks::{
    render_error, render_info, render_permission, render_tool_call, render_user, RenderCtx,
};
use crate::tui::markdown;
use crate::tui::markdown::render_assistant;
use crate::tui::style;
use crate::tui::style::{push_line, Line, Theme};
use crate::tui::types;
use crate::tui::types::ConversationEntry;
use vstd::prelude::*;
use vstd::string::*;

verus! {

/// How many columns a text takes on the screen.
pub uninterp spec fn text_width(s: Seq<char>) -> nat;

/// `UnicodeWidthStr::width` of `str`: how many columns the text takes, which
/// depends on the text alone.
#[verifier::external_body]
fn width_of(s: &str) -> (n: usize)
    ensures
        n == text_width(s@),
{
    unicode_width::UnicodeWidthStr::width(s)
}

/// How an entry is shown, the `index`-th of the conversation.
pub open spec fn entry_lines(
    entry: types::EntryView,
    index: int,
    tick: int,
    theme: Theme,
    width: nat,
) -> Option<Seq<Seq<style::SpanView>>> {
    match entry {
        types::EntryView::UserInput(t) => if index > 0 {
            Some(seq![style::empty_line()] + blocks::user_lines(t, theme))
        } else {
            Some(blocks::user_lines(t, theme))
        },
        types::EntryView::AssistantText(t) => Some(
            seq![style::empty_line()] + markdown::rendered(markdown::markdown_events(t)),
        ),
        types::EntryView::ToolCall {
            tool_name,
            input_summary,
            status,
            result_summary,
            expanded,
        } => (blocks::CallBlock {
            tool_name,
            input_summary,
            status,
            result_summary,
            expanded,
            tick,
            theme,
            width,
        }).lines(),
        types::EntryView::PermissionPrompt { tool_name, capabilities, input_summary } => {
            match blocks::permission_lines(
                tool_name,
                capabilities,
                input_summary,
                width,
                "[y/n/a]"@,
            ) {
                Some(lines) => Some(seq![style::empty_line()] + lines),
                None => None,
            }
        },
        types::EntryView::Info(t) => Some(seq![blocks::info_line(t)]),
        types::EntryView::Error(t) => Some(seq![blocks::error_line(t)]),
    }
}

/// How the first `n` entries are shown, where each can be.
pub open spec fn conversation_lines(app: app::AppView, n: nat, width: nat) -> Option<
    Seq<Seq<style::SpanView>>,
>
    decreases n,
{
    if n == 0 {
        Some(Seq::empty())
    } else {
        match (
            conversation_lines(app, (n - 1) as nat, width),
            entry_lines(
                app.entries[n - 1],
                n - 1,
                app.spinner_tick as int,
                app.theme,
                width,
            ),
        ) {
            (Some(before), Some(lines)) => Some(before + lines),
            _ => None,
        }
    }
}

fn after_gap(lines: Vec<Line>) -> (r: Vec<Line>)
    ensures
        r.deep_view() == seq![style::empty_line()] + lines.deep_view(),
{
    let ghost all = lines.deep_view();
    let mut r = lines;
    r.insert(0, Line::empty());
    assert(r.deep_view() =~= seq![style::empty_line()] + all);
    r
}

fn render_entry(
    entry: &ConversationEntry,
    index: usize,
    tick: usize,
    theme: &Theme,
    width: usize,
) -> (r: Option<Vec<Line>>)
    ensures
        blocks::lines_view(r) == entry_lines(
            entry.deep_view(),
            index as int,
            tick as int,
            *theme,
            width as nat,
        ),
{
    match entry {
        ConversationEntry::UserInput(t) => {
            let lines = render_user(t.as_str(), theme);
            if index > 0 {
                Some(after_gap(lines))
            } else {
                Some(lines)
            }
        },
        ConversationEntry::AssistantText(t) => Some(after_gap(render_assistant(t.as_str()))),
        ConversationEntry::ToolCall {
            tool_name,
            input_summary,
            status,
            result_summary,
            expanded,
        } => {
            let ctx = RenderCtx {
                tool_name: tool_name.as_str(),
                input_summary: input_summary.as_str(),
                status,
                result_summary,
                expanded: *expanded,
                spinner_tick: tick,
                theme,
                inner_width: width,
            };
            render_tool_call(&ctx)
        },
        ConversationEntry::PermissionPrompt { tool_name, capabilities, input_summary } => {
            match render_permission(
                tool_name.as_str(),
                capabilities,
                input_summary.as_str(),
                width,
                "[y/n/a]",
            ) {
                Some(lines) => Some(after_gap(lines)),
                None => None,
            }
        },
        ConversationEntry::Info(t) => {
            let line = render_info(t.as_str());
            let ghost view = line.deep_view();
            let lines = push_line(Vec::new(), line);
            assert(lines.deep_view() =~= seq![view]);
            Some(lines)
        },
        ConversationEntry::Error(t) => {
            let line = render_error(t.as_str());
            let ghost view = line.deep_view();
            let lines = push_line(Vec::new(), line);
            assert(lines.deep_view() =~= seq![view]);
            Some(lines)
        },
    }
}

proof fn lemma_not_shown(app: app::AppView, n: nat, m: nat, width: nat)
    requires
        n <= m,
        conversation_lines(app, n, width) is None,
    ensures
        conversation_lines(app, m, width) is None,
    decreases m,
{
    if n < m {
        lemma_not_shown(app, n, (m - 1) as nat, width);
    }
}

/// How the conversation is shown. There is no way where a text in it cannot be
/// cut off at the width of the screen.
pub fn render_conversation(app: &App, width: usize) -> (r: Option<Vec<Line>>)
    ensures
        blocks::lines_view(r) == conversation_lines(app@, app@.entries.len(), width as nat),
{
    let ghost n = app@.entries.len();
    assert(n == app.entries@.len());
    let mut lines: Vec<Line> = Vec::new();
    let mut i: usize = 0;
    assert(lines.deep_view() =~= Seq::empty());
    while i < app.entries.len()
        invariant
            n == app@.entries.len() == app.entries@.len(),
            i <= n,
            conversation_lines(app@, i as nat, width as nat) == Some(lines.deep_view()),
        decreases n - i,
    {
        let ghost before = lines.deep_view();
        match render_entry(&app.entries[i], i, app.spinner_tick, &app.theme, width) {
            Some(more) => {
                let ghost added = more.deep_view();
                let mut more = more;
                lines.append(&mut more);
                assert(lines.deep_view() =~= before + added);
            },
            None => {
                proof {
                    lemma_not_shown(app@, (i + 1) as nat, n, width as nat);
                }
                return None;
            },
        }
        i += 1;
    }
    Some(lines)
}

// ---------------------------------------------------------------------------
// Layout
// ---------------------------------------------------------------------------

/// The columns that a line takes.
pub open spec fn line_width(line: Seq<style::SpanView>) -> nat
    decreases line.len(),
{
    if line.len() == 0 {
        0
    } else {
        line_width(line.drop_last()) + text_width(line.last().text)
    }
}

/// The rows that a line takes on a screen of the given width, with what does
/// not fit in the next row: one at least.
pub open spec fn line_rows(line: Seq<style::SpanView>, width: nat) -> nat {
    let columns = line_width(line);
    if columns == 0 {
        1
    } else {
        ((columns + width - 1) / width as int) as nat
    }
}

/// The rows that some lines take.
pub open spec fn total_rows(lines: Seq<Seq<style::SpanView>>, width: nat) -> nat
    decreases lines.len(),
{
    if lines.len() == 0 {
        0
    } else {
        total_rows(lines.drop_last(), width) + line_rows(lines.last(), width)
    }
}

/// `n`, or the most rows that the interface counts.
pub open spec fn capped_rows(n: nat) -> u16 {
    if n < 65535 {
        n as u16
    } else {
        65535
    }
}

fn rows_of_line(line: &Line, width: usize) -> (n: usize)
    requires
        width > 0,
    ensures
        capped_rows(n as nat) == capped_rows(line_rows(line.deep_view(), width as nat)),
        n <= 65535,
{
    let ghost all = line.deep_view();
    let mut columns: u128 = 0;
    let mut i: usize = 0;
    assert(all.take(0) =~= Seq::empty());
    while i < line.spans.len()
        invariant
            all == line.deep_view(),
            i <= line.spans@.len() == all.len(),
            columns == line_width(all.take(i as int)),
            columns <= i * usize::MAX,
        decreases line.spans@.len() - i,
    {
        assert(all.take(i + 1).drop_last() =~= all.take(i as int));
        assert(all.take(i + 1).last() == all[i as int]);
        let w: usize = width_of(line.spans[i].text.as_str());
        assert((i + 1) * usize::MAX == i * usize::MAX + usize::MAX) by (nonlinear_arith);
        assert(i * usize::MAX <= usize::MAX * usize::MAX) by (nonlinear_arith)
            requires
                i <= usize::MAX,
        ;
        assert(usize::MAX * usize::MAX + usize::MAX <= u128::MAX) by (nonlinear_arith)
            requires
                usize::MAX <= 0xffff_ffff_ffff_ffff,
        ;
        columns = columns + w as u128;
        i += 1;
    }
    assert(all.take(i as int) =~= all);
    if columns == 0 {
        return 1;
    }
    let rows: u128 = (columns - 1) / width as u128 + 1;
    proof {
        lemma_div_ceil(columns as int, width as int);
    }
    if rows > 65535 {
        65535
    } else {
        rows as usize
    }
}

proof fn lemma_div_ceil(a: int, b: int)
    requires
        a > 0,
        b > 0,
    ensures
        (a + b - 1) / b == (a - 1) / b + 1,
{
    assert((a - 1 + b) / b == (a - 1) / b + 1) by (nonlinear_arith)
        requires
            a > 0,
            b > 0,
    ;
}

fn count_rows(lines: &Vec<Line>, width: usize) -> (n: u16)
    requires
        width > 0,
    ensures
        n == capped_rows(total_rows(lines.deep_view(), width as nat)),
{
    let ghost all = lines.deep_view();
    let mut n: usize = 0;
    let mut i: usize = 0;
    assert(all.take(0) =~= Seq::empty());
    while i < lines.len()
        invariant
            width > 0,
            all == lines.deep_view(),
            i <= lines@.len() == all.len(),
            n <= 65535,
            capped_rows(n as nat) == capped_rows(total_rows(all.take(i as int), width as nat)),
        decreases lines@.len() - i,
    {
        assert(all.take(i + 1).drop_last() =~= all.take(i as int));
        assert(all.take(i + 1).last() == all[i as int]);
        let rows: usize = rows_of_line(&lines[i], width);
        n = if rows > 65535 - n {
            65535
        } else {
            n + rows
        };
        i += 1;
    }
    assert(all.take(i as int) =~= all);
    n as u16
}

/// The interface once the conversation is laid out in a pane of the given size.
pub open spec fn laid_out(
    app: app::AppView,
    lines: Seq<Seq<style::SpanView>>,
    width: u16,
    height: u16,
) -> app::AppView {
    let columns: nat = if width > 1 {
        width as nat
    } else {
        1
    };
    let rows = capped_rows(total_rows(lines, columns));
    app::AppView {
        rendered_lines: rows,
        viewport_height: height,
        scroll: if app.follow {
            app::scroll_limit(rows, height) as u16
        } else {
            app.scroll
        },
        ..app
    }
}

/// The columns that a block may take in a pane of the given width.
pub open spec fn inner_width(width: u16) -> nat {
    blocks::less(width as nat, 2)
}

/// Lays out the conversation in a pane of the given size, and keeps its end in
/// view where it is to be. Returns its lines. Where a text in it cannot be cut
/// off at the width of the pane, nothing changes.
pub fn lay_out(app: &mut App, width: u16, height: u16) -> (r: Option<Vec<Line>>)
    ensures
        blocks::lines_view(r) == conversation_lines(
            old(app)@,
            old(app)@.entries.len(),
            inner_width(width),
        ),
        match r {
            Some(lines) => final(app)@ == laid_out(old(app)@, lines.deep_view(), width, height),
            None => final(app)@ == old(app)@,
        },
{
    let lines = match render_conversation(app, width.saturating_sub(2) as usize) {
        Some(lines) => lines,
        None => {
            return None;
        },
    };
    let columns: usize = if width > 1 {
        width as usize
    } else {
        1
    };
    let rows: u16 = count_rows(&lines, columns);
    app.rendered_lines = rows;
    app.viewport_height = height;
    if app.follow {
        app.scroll = rows.saturating_sub(height);
    }
    Some(lines)
}

// ---------------------------------------------------------------------------
// Laws
// ---------------------------------------------------------------------------

/// The entries of a conversation are shown in order, each as it is shown alone, one
/// behind the other.
pub proof fn law_entries_are_shown_in_order(app: app::AppView, n: nat, width: nat)
    requires
        n < app.entries.len(),
    ensures
        conversation_lines(app, 0, width) matches Some(none) && none.len() == 0,
        conversation_lines(app, n + 1, width) matches Some(lines) ==> {
            let before = conversation_lines(app, n, width);
            let own = entry_lines(
                app.entries[n as int],
                n as int,
                app.spinner_tick as int,
                app.theme,
                width,
            );
            before is Some && own is Some && lines == before->0 + own->0
        },
{
}

/// What an entry shows: input and answers behind an empty line, calls with all
/// that is known of them, questions with the keys that answer them, and notices and
/// errors as they are.
pub proof fn law_what_entries_show(
    t: Seq<char>,
    index: int,
    tick: int,
    theme: Theme,
    width: nat,
    tool_name: Seq<char>,
    input_summary: Seq<char>,
    status: types::StatusView,
    result_summary: Option<Seq<char>>,
    expanded: bool,
)
    ensures
        entry_lines(types::EntryView::UserInput(t), 0, tick, theme, width) == Some(
            blocks::user_lines(t, theme),
        ),
        index > 0 ==> entry_lines(types::EntryView::UserInput(t), index, tick, theme, width)
            == Some(seq![style::empty_line()] + blocks::user_lines(t, theme)),
        entry_lines(types::EntryView::AssistantText(t), index, tick, theme, width) == Some(
            seq![style::empty_line()] + markdown::rendered(markdown::markdown_events(t)),
        ),
        entry_lines(types::EntryView::Info(t), index, tick, theme, width) == Some(
            seq![blocks::info_line(t)],
        ),
        entry_lines(types::EntryView::Error(t), index, tick, theme, width) == Some(
            seq![blocks::error_line(t)],
        ),
        ({
            let entry = types::EntryView::ToolCall {
                tool_name,
                input_summary,
                status,
                result_summary,
                expanded,
            };
            let block = blocks::CallBlock {
                tool_name,
                input_summary,
                status,
                result_summary,
                expanded,
                tick,
                theme,
                width,
            };
            entry_lines(entry, index, tick, theme, width) == block.lines()
        }),
{
}

/// A line takes as many rows as its columns fill, and at least one; several lines
/// take the rows of all of them.
pub proof fn law_rows_hold_the_lines(
    line: Seq<style::SpanView>,
    width: nat,
    a: Seq<Seq<style::SpanView>>,
    b: Seq<Seq<style::SpanView>>,
)
    requires
        width > 0,
    ensures
        line_rows(line, width) >= 1,
        line_width(line) <= line_rows(line, width) * width,
        line_width(line) > 0 ==> line_width(line) > (line_rows(line, width) - 1) * width,
        total_rows(a + b, width) == total_rows(a, width) + total_rows(b, width),
        total_rows(seq![line], width) == line_rows(line, width),
    decreases b.len(),
{
    let columns = line_width(line);
    if columns > 0 {
        let rows = (columns + width - 1) / width as int;
        assert(rows >= 1 && columns <= rows * width && columns > (rows - 1) * width)
            by (nonlinear_arith)
            requires
                width > 0,
                columns > 0,
                rows == (columns + width - 1) / width as int,
        ;
    } else {
        assert(0 <= 1 * width);
    }
    reveal_with_fuel(total_rows, 2);
    assert(seq![line].drop_last() =~= Seq::empty());
    if b.len() == 0 {
        assert(a + b =~= a);
    } else {
        assert((a + b).drop_last() =~= a + b.drop_last());
        law_rows_hold_the_lines(line, width, a, b.drop_last());
    }
}

/// The width of a line is that of all its texts.
pub proof fn law_widths_add_up(line: Seq<style::SpanView>, more: style::SpanView)
    ensures
        line_width(line.push(more)) == line_width(line) + text_width(more.text),
        line_width(Seq::empty()) == 0,
{
    assert(line.push(more).drop_last() =~= line);
}

/// Laying out keeps the end in view where it is followed, and the view where it is
/// elsewhere; it changes nothing but what is known of the screen.
pub proof fn law_the_end_is_kept_in_view(
    app: app::AppView,
    lines: Seq<Seq<style::SpanView>>,
    width: u16,
    height: u16,
)
    ensures
        ({
            let now = laid_out(app, lines, width, height);
            &&& app.follow ==> now.scroll == app::scroll_limit(now.rendered_lines, height)
            &&& !app.follow ==> now.scroll == app.scroll
            &&& now.viewport_height == height
            &&& width > 1 && total_rows(lines, width as nat) < 65535 ==> now.rendered_lines
                == total_rows(lines, width as nat)
            &&& now == (app::AppView {
                rendered_lines: now.rendered_lines,
                viewport_height: now.viewport_height,
                scroll: now.scroll,
                ..app
            })
        }),
{
}

} // verus!
