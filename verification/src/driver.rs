//! What the terminal interface makes of events, and of what the user asks for.

use crate::frontend;
use crate::frontend::PermissionRequest;
use crate::policy;
use crate::policy::{prepend_allow_rule, Policy};
use crate::protocol;
use crate::protocol::{KernelEvent, KernelRequest, RequestId, TurnResultSummary};
use crate::proxy_frontend::PermissionResponse;
use crate::text;
use crate::text::{copy_texts, decimal_of, same};
use crate::tool_display;
use crate::tool_display::{format_tool_input, format_tool_result};
use crate::tui::app;
use crate::tui::app::App;
use crate::tui::types as tui_types;
use crate::tui::types::{ConversationEntry, Elapsed, InputAction, SlashCommand, ToolCallStatus};
use crate::types;
use crate::types::{Decision, SessionId};
use vstd::prelude::*;
use vstd::string::*;

verus! {

// ---------------------------------------------------------------------------
// Events
// ---------------------------------------------------------------------------

/// Whether an entry is a call of the given tool that runs.
pub open spec fn runs(entry: tui_types::EntryView, name: Seq<char>) -> bool {
    entry matches tui_types::EntryView::ToolCall { tool_name, status, .. } && tool_name == name
        && status is Running
}

/// Where the last of the first `n` entries stands that is a call of the given
/// tool that runs.
pub open spec fn last_running(
    entries: Seq<tui_types::EntryView>,
    name: Seq<char>,
    n: nat,
) -> Option<int>
    decreases n,
{
    if n == 0 {
        None
    } else if runs(entries[n - 1], name) {
        Some(n - 1)
    } else {
        last_running(entries, name, (n - 1) as nat)
    }
}

/// A call with more of its output.
pub open spec fn with_output(entry: tui_types::EntryView, data: Seq<char>) -> tui_types::EntryView {
    match entry {
        tui_types::EntryView::ToolCall {
            tool_name,
            input_summary,
            status,
            result_summary,
            expanded,
        } => tui_types::EntryView::ToolCall {
            tool_name,
            input_summary,
            status,
            result_summary: Some(
                match result_summary {
                    Some(before) => before + data,
                    None => data,
                },
            ),
            expanded,
        },
        _ => entry,
    }
}

/// How a call fares once it is over.
pub open spec fn done(status: tui_types::StatusView) -> tui_types::StatusView {
    match status {
        tui_types::StatusView::Running { elapsed, .. } => tui_types::StatusView::Success(elapsed),
        _ => status,
    }
}

/// A call that is over, with its result where there is one.
pub open spec fn completed(
    entry: tui_types::EntryView,
    summary: Option<Seq<char>>,
) -> tui_types::EntryView {
    match entry {
        tui_types::EntryView::ToolCall {
            tool_name,
            input_summary,
            status,
            result_summary,
            expanded,
        } => tui_types::EntryView::ToolCall {
            tool_name,
            input_summary,
            status: done(status),
            result_summary: match summary {
                Some(s) => Some(s),
                None => result_summary,
            },
            expanded,
        },
        _ => entry,
    }
}

/// The sum of two numbers, or the largest number where that is larger.
pub open spec fn plus(a: usize, b: usize) -> usize {
    if a + b > usize::MAX {
        usize::MAX
    } else {
        (a + b) as usize
    }
}

/// The entries after a text of the assistant, which goes on where another text
/// stands last.
pub open spec fn with_text(entries: Seq<tui_types::EntryView>, t: Seq<char>) -> Seq<
    tui_types::EntryView,
> {
    match entries.last() {
        tui_types::EntryView::AssistantText(before) if entries.len() > 0 => {
            entries.drop_last().push(
                tui_types::EntryView::AssistantText(before + "\n"@ + t),
            )
        },
        _ => entries.push(tui_types::EntryView::AssistantText(t)),
    }
}

/// A call starts.
pub open spec fn started(
    app: app::AppView,
    tool_name: Seq<char>,
    input_summary: Seq<char>,
) -> app::AppView {
    app::AppView {
        calls: if app.calls == u64::MAX {
            0
        } else {
            (app.calls + 1) as u64
        },
        ..app.with_entry(
            tui_types::EntryView::ToolCall {
                tool_name,
                input_summary,
                status: tui_types::StatusView::Running {
                    call: app.calls,
                    elapsed: tui_types::ElapsedView { millis: 0, seconds: "0.0"@ },
                },
                result_summary: None,
                expanded: false,
            },
        ).at_bottom()
    }
}

/// A call that runs has more output. That goes to the last call of the tool.
pub open spec fn outputted(
    app: app::AppView,
    tool_name: Seq<char>,
    data: Seq<char>,
) -> app::AppView {
    app::AppView {
        entries: match last_running(app.entries, tool_name, app.entries.len()) {
            Some(i) => app.entries.update(i, with_output(app.entries[i], data)),
            None => app.entries,
        },
        ..app.at_bottom()
    }
}

/// A call that runs is over. That is the last call of the tool.
pub open spec fn finished(
    app: app::AppView,
    tool_name: Seq<char>,
    summary: Seq<char>,
) -> app::AppView {
    app::AppView {
        entries: match last_running(app.entries, tool_name, app.entries.len()) {
            Some(i) => app.entries.update(i, completed(app.entries[i], Some(summary))),
            None => app.entries,
        },
        ..app.at_bottom()
    }
}

/// The user is asked for permission.
pub open spec fn asked(
    app: app::AppView,
    request_id: RequestId,
    request: frontend::PermissionRequestView,
) -> app::AppView {
    app::AppView {
        awaiting_permission: true,
        request_id: Some(request_id.0),
        capabilities: Some(request.capabilities),
        ..app.with_entry(
            tui_types::EntryView::PermissionPrompt {
                tool_name: request.tool_name,
                capabilities: request.capabilities,
                input_summary: request.input_summary,
            },
        ).at_bottom()
    }
}

/// A turn is over, and with it all calls that still run.
pub open spec fn turn_ended(app: app::AppView, result: TurnResultSummary) -> app::AppView {
    app::AppView {
        turn_active: false,
        turn_count: plus(app.turn_count, 1),
        total_input_tokens: plus(app.total_input_tokens, result.input_tokens),
        total_output_tokens: plus(app.total_output_tokens, result.output_tokens),
        entries: Seq::new(app.entries.len(), |i: int| completed(app.entries[i], None)),
        ..app
    }
}

/// What an event makes of the interface, where the context is used to `percent`
/// percent. There is nothing where the input or the result of a call cannot be
/// shown.
pub open spec fn applied(
    app: app::AppView,
    event: protocol::KernelEventView,
    percent: Seq<char>,
) -> Option<app::AppView> {
    match event {
        protocol::KernelEventView::SessionCreated { .. } => Some(
            app.with_entry(tui_types::EntryView::Info("Session created."@)),
        ),
        protocol::KernelEventView::TextOutput { text, .. } => Some(
            app::AppView { entries: with_text(app.entries, text), ..app.at_bottom() },
        ),
        protocol::KernelEventView::ToolCallStarted { tool_name, input, .. } => {
            match tool_display::input_summary(tool_name, input) {
                Some(input_summary) => Some(started(app, tool_name, input_summary)),
                None => None,
            }
        },
        protocol::KernelEventView::ToolOutputChunk { tool_name, data, .. } => Some(
            outputted(app, tool_name, data),
        ),
        protocol::KernelEventView::ToolCompleted { tool_name, result, .. } => {
            match tool_display::result_summary(tool_name, result) {
                Some(summary) => Some(finished(app, tool_name, summary)),
                None => None,
            }
        },
        protocol::KernelEventView::PermissionRequired { request_id, request, .. } => Some(
            asked(app, request_id, request),
        ),
        protocol::KernelEventView::TurnStarted { .. } => Some(
            app::AppView { turn_active: true, ..app },
        ),
        protocol::KernelEventView::TurnEnded { result, .. } => Some(turn_ended(app, result)),
        protocol::KernelEventView::CompactionHappened { summary, .. } => Some(
            app.with_entry(
                tui_types::EntryView::Info(
                    "Context compacted: freed "@ + text::decimal(summary.tokens_freed as nat)
                        + " tokens ("@ + text::decimal(summary.turns_before as nat) + " -> "@
                        + text::decimal(summary.turns_after as nat) + " turns)"@,
                ),
            ),
        ),
        protocol::KernelEventView::SessionStatus { tokens_used, turn_count, .. } => Some(
            app::AppView {
                context_tokens: tokens_used,
                ..app.with_entry(
                    tui_types::EntryView::Info(
                        "Session status: "@ + text::decimal(tokens_used as nat)
                            + " tokens used ("@ + percent + "% of context), "@ + text::decimal(
                            turn_count as nat,
                        ) + " turns"@,
                    ),
                ).at_bottom()
            },
        ),
        protocol::KernelEventView::Error { error, .. } => Some(
            app::AppView {
                turn_active: app.turn_active && error.recoverable,
                ..app.with_entry(tui_types::EntryView::Error(error.message))
            },
        ),
    }
}

fn running_position(entries: &Vec<ConversationEntry>, name: &str) -> (r: Option<usize>)
    ensures
        match r {
            Some(i) => i < entries@.len() && last_running(
                entries.deep_view(),
                name@,
                entries.deep_view().len(),
            ) == Some(i as int) && runs(entries.deep_view()[i as int], name@),
            None => last_running(
                entries.deep_view(),
                name@,
                entries.deep_view().len(),
            ) is None,
        },
{
    let ghost all = entries.deep_view();
    let mut n: usize = entries.len();
    while n > 0
        invariant
            all == entries.deep_view(),
            n <= entries@.len() == all.len(),
            last_running(all, name@, all.len()) == last_running(all, name@, n as nat),
        decreases n,
    {
        n -= 1;
        assert(all[n as int] == entries@[n as int].deep_view());
        match &entries[n] {
            ConversationEntry::ToolCall { tool_name, status, .. } => {
                let running = match status {
                    ToolCallStatus::Running { .. } => true,
                    _ => false,
                };
                if running && same(tool_name.as_str(), name) {
                    return Some(n);
                }
            },
            _ => {},
        }
    }
    None
}

fn done_of(status: ToolCallStatus) -> (r: ToolCallStatus)
    ensures
        r.deep_view() == done(status.deep_view()),
{
    match status {
        ToolCallStatus::Running { elapsed, .. } => ToolCallStatus::Success(elapsed),
        other => other,
    }
}

fn completed_of(entry: ConversationEntry, summary: Option<String>) -> (r: ConversationEntry)
    ensures
        r.deep_view() == completed(entry.deep_view(), summary.deep_view()),
{
    match entry {
        ConversationEntry::ToolCall {
            tool_name,
            input_summary,
            status,
            result_summary,
            expanded,
        } => ConversationEntry::ToolCall {
            tool_name,
            input_summary,
            status: done_of(status),
            result_summary: match summary {
                Some(s) => Some(s),
                None => result_summary,
            },
            expanded,
        },
        other => other,
    }
}

fn with_output_of(entry: ConversationEntry, data: &str) -> (r: ConversationEntry)
    ensures
        r.deep_view() == with_output(entry.deep_view(), data@),
{
    match entry {
        ConversationEntry::ToolCall {
            tool_name,
            input_summary,
            status,
            result_summary,
            expanded,
        } => {
            let more = match result_summary {
                Some(before) => {
                    let mut s = before;
                    s.push_str(data);
                    s
                },
                None => data.to_owned(),
            };
            ConversationEntry::ToolCall {
                tool_name,
                input_summary,
                status,
                result_summary: Some(more),
                expanded,
            }
        },
        other => other,
    }
}

/// Puts an entry in the place of another.
fn put(entries: &mut Vec<ConversationEntry>, i: usize, entry: ConversationEntry)
    requires
        i <= old(entries)@.len(),
    ensures
        final(entries).deep_view() == old(entries).deep_view().insert(i as int, entry.deep_view()),
{
    let ghost before = entries.deep_view();
    let ghost added = entry.deep_view();
    entries.insert(i, entry);
    assert(entries.deep_view() =~= before.insert(i as int, added));
}

fn take_out(entries: &mut Vec<ConversationEntry>, i: usize) -> (r: ConversationEntry)
    requires
        i < old(entries)@.len(),
    ensures
        r.deep_view() == old(entries).deep_view()[i as int],
        final(entries).deep_view() == old(entries).deep_view().remove(i as int),
        final(entries)@.len() == old(entries)@.len() - 1,
{
    let ghost before = entries.deep_view();
    let r = entries.remove(i);
    assert(entries.deep_view() =~= before.remove(i as int));
    r
}

fn complete_all(entries: Vec<ConversationEntry>) -> (r: Vec<ConversationEntry>)
    ensures
        r.deep_view() == Seq::new(
            entries.deep_view().len(),
            |i: int| completed(entries.deep_view()[i], None),
        ),
{
    let ghost all = entries.deep_view();
    let ghost want = Seq::new(all.len(), |i: int| completed(all[i], None));
    let mut left = entries;
    let mut r: Vec<ConversationEntry> = Vec::new();
    assert(left.deep_view() =~= all.skip(0));
    assert(r.deep_view() =~= want.take(0));
    while left.len() > 0
        invariant
            want == Seq::new(all.len(), |i: int| completed(all[i], None)),
            r@.len() + left@.len() == all.len(),
            left.deep_view() == all.skip(r@.len() as int),
            r.deep_view() == want.take(r@.len() as int),
        decreases left@.len(),
    {
        let ghost n = r@.len() as int;
        let ghost had = left.deep_view();
        let ghost before = r.deep_view();
        let entry = take_out(&mut left, 0);
        assert(had[0] == all[n]);
        let entry = completed_of(entry, None);
        r.push(entry);
        assert(r.deep_view() =~= before.push(want[n]));
        assert(want.take(n + 1) =~= before.push(want[n]));
        assert(left.deep_view() =~= all.skip(n + 1));
    }
    assert(want.take(r@.len() as int) =~= want);
    r
}

fn show_text(app: &mut App, text: &str)
    ensures
        final(app)@ == (app::AppView {
            entries: with_text(old(app)@.entries, text@),
            ..old(app)@.at_bottom()
        }),
{
    let ghost start = app@;
    let n: usize = app.entries.len();
    assert(n == start.entries.len());
    let goes_on = if n > 0 {
        assert(start.entries.last() == app.entries@[n - 1].deep_view());
        match &app.entries[n - 1] {
            ConversationEntry::AssistantText(_) => true,
            _ => false,
        }
    } else {
        false
    };
    if goes_on {
        let entry = take_out(&mut app.entries, n - 1);
        match entry {
            ConversationEntry::AssistantText(before) => {
                let mut s = before;
                s.push_str("\n");
                s.push_str(text);
                put(&mut app.entries, n - 1, ConversationEntry::AssistantText(s));
            },
            _ => {},
        }
        assert(app.entries.deep_view() =~= with_text(start.entries, text@));
    } else {
        app.push_entry(ConversationEntry::AssistantText(text.to_owned()));
        assert(app.entries.deep_view() =~= with_text(start.entries, text@));
    }
    app.scroll_to_bottom();
}

fn show_call(app: &mut App, tool_name: &str, input_summary: String)
    ensures
        final(app)@ == started(old(app)@, tool_name@, input_summary@),
{
    let elapsed = Elapsed { millis: 0, seconds: "0.0".to_owned() };
    let status = ToolCallStatus::Running { call: app.calls, elapsed };
    app.push_entry(
        ConversationEntry::ToolCall {
            tool_name: tool_name.to_owned(),
            input_summary,
            status,
            result_summary: None,
            expanded: false,
        },
    );
    app.calls = app.calls.wrapping_add(1);
    app.scroll_to_bottom();
}

fn show_output(app: &mut App, tool_name: &str, data: &str)
    ensures
        final(app)@ == outputted(old(app)@, tool_name@, data@),
{
    let ghost start = app@;
    match running_position(&app.entries, tool_name) {
        Some(i) => {
            let entry = take_out(&mut app.entries, i);
            let entry = with_output_of(entry, data);
            let ghost view = entry.deep_view();
            put(&mut app.entries, i, entry);
            assert(app.entries.deep_view() =~= start.entries.update(i as int, view));
        },
        None => {},
    }
    app.scroll_to_bottom();
}

fn show_result(app: &mut App, tool_name: &str, summary: String)
    ensures
        final(app)@ == finished(old(app)@, tool_name@, summary@),
{
    let ghost start = app@;
    match running_position(&app.entries, tool_name) {
        Some(i) => {
            let entry = take_out(&mut app.entries, i);
            let entry = completed_of(entry, Some(summary));
            let ghost view = entry.deep_view();
            put(&mut app.entries, i, entry);
            assert(app.entries.deep_view() =~= start.entries.update(i as int, view));
        },
        None => {},
    }
    app.scroll_to_bottom();
}

fn show_request(app: &mut App, request_id: RequestId, request: &PermissionRequest)
    ensures
        final(app)@ == asked(old(app)@, request_id, request.deep_view()),
{
    app.awaiting_permission = true;
    app.pending_permission_request_id = Some(request_id.0);
    app.pending_permission_capabilities = Some(copy_texts(&request.capabilities));
    app.push_entry(
        ConversationEntry::PermissionPrompt {
            tool_name: request.tool_name.clone(),
            capabilities: copy_texts(&request.capabilities),
            input_summary: request.input_summary.clone(),
        },
    );
    app.scroll_to_bottom();
}

fn show_turn_end(app: &mut App, result: &TurnResultSummary)
    ensures
        final(app)@ == turn_ended(old(app)@, *result),
{
    app.turn_active = false;
    app.turn_count = app.turn_count.saturating_add(1);
    app.total_input_tokens = app.total_input_tokens.saturating_add(result.input_tokens);
    app.total_output_tokens = app.total_output_tokens.saturating_add(result.output_tokens);
    let mut entries: Vec<ConversationEntry> = Vec::new();
    std::mem::swap(&mut entries, &mut app.entries);
    app.entries = complete_all(entries);
}

/// Has the interface show an event, where the context is used to `percent`
/// percent. Where the input or the result of a call cannot be shown, nothing
/// changes.
pub fn apply_event(app: &mut App, event: &KernelEvent, percent: &str) -> (shown: bool)
    ensures
        shown == (applied(old(app)@, event.deep_view(), percent@) is Some),
        shown ==> Some(final(app)@) == applied(old(app)@, event.deep_view(), percent@),
        !shown ==> final(app)@ == old(app)@,
{
    match event {
        KernelEvent::SessionCreated { .. } => {
            app.push_entry(ConversationEntry::Info("Session created.".to_owned()));
        },
        KernelEvent::TextOutput { text, .. } => {
            show_text(app, text.as_str());
        },
        KernelEvent::ToolCallStarted { tool_name, input, .. } => {
            match format_tool_input(tool_name.as_str(), input) {
                Some(summary) => show_call(app, tool_name.as_str(), summary),
                None => {
                    return false;
                },
            }
        },
        KernelEvent::ToolOutputChunk { tool_name, data, .. } => {
            show_output(app, tool_name.as_str(), data.as_str());
        },
        KernelEvent::ToolCompleted { tool_name, result, .. } => {
            match format_tool_result(tool_name.as_str(), result) {
                Some(summary) => show_result(app, tool_name.as_str(), summary),
                None => {
                    return false;
                },
            }
        },
        KernelEvent::PermissionRequired { request_id, request, .. } => {
            show_request(app, *request_id, request);
        },
        KernelEvent::TurnStarted { .. } => {
            app.turn_active = true;
        },
        KernelEvent::TurnEnded { result, .. } => {
            show_turn_end(app, result);
        },
        KernelEvent::CompactionHappened { summary, .. } => {
            let mut s = "Context compacted: freed ".to_owned();
            s.push_str(decimal_of(summary.tokens_freed as u64).as_str());
            s.push_str(" tokens (");
            s.push_str(decimal_of(summary.turns_before as u64).as_str());
            s.push_str(" -> ");
            s.push_str(decimal_of(summary.turns_after as u64).as_str());
            s.push_str(" turns)");
            app.push_entry(ConversationEntry::Info(s));
        },
        KernelEvent::SessionStatus { tokens_used, turn_count, .. } => {
            app.context_tokens = *tokens_used;
            let mut s = "Session status: ".to_owned();
            s.push_str(decimal_of(*tokens_used as u64).as_str());
            s.push_str(" tokens used (");
            s.push_str(percent);
            s.push_str("% of context), ");
            s.push_str(decimal_of(*turn_count as u64).as_str());
            s.push_str(" turns");
            app.push_entry(ConversationEntry::Info(s));
            app.scroll_to_bottom();
        },
        KernelEvent::Error { error, .. } => {
            app.push_entry(ConversationEntry::Error(error.message.clone()));
            if !error.recoverable {
                app.turn_active = false;
            }
        },
    }
    true
}

// ---------------------------------------------------------------------------
// Time
// ---------------------------------------------------------------------------

/// The entry with the time that the given call has run.
pub open spec fn timed(
    entry: tui_types::EntryView,
    number: u64,
    time: tui_types::ElapsedView,
) -> tui_types::EntryView {
    match entry {
        tui_types::EntryView::ToolCall {
            tool_name,
            input_summary,
            status: tui_types::StatusView::Running { call, elapsed },
            result_summary,
            expanded,
        } => if call == number {
            tui_types::EntryView::ToolCall {
                tool_name,
                input_summary,
                status: tui_types::StatusView::Running { call, elapsed: time },
                result_summary,
                expanded,
            }
        } else {
            entry
        },
        _ => entry,
    }
}

fn timed_of(entry: ConversationEntry, number: u64, time: &Elapsed) -> (r: ConversationEntry)
    ensures
        r.deep_view() == timed(entry.deep_view(), number, time.deep_view()),
{
    match entry {
        ConversationEntry::ToolCall {
            tool_name,
            input_summary,
            status: ToolCallStatus::Running { call, elapsed },
            result_summary,
            expanded,
        } => {
            let elapsed = if call == number {
                time.clone()
            } else {
                elapsed
            };
            ConversationEntry::ToolCall {
                tool_name,
                input_summary,
                status: ToolCallStatus::Running { call, elapsed },
                result_summary,
                expanded,
            }
        },
        other => other,
    }
}

/// Notes how long a call has run.
pub fn set_elapsed(app: &mut App, call: u64, elapsed: &Elapsed)
    ensures
        final(app)@ == (app::AppView {
            entries: Seq::new(
                old(app)@.entries.len(),
                |i: int| timed(old(app)@.entries[i], call, elapsed.deep_view()),
            ),
            ..old(app)@
        }),
{
    let ghost start = app@;
    let ghost want = Seq::new(
        start.entries.len(),
        |i: int| timed(start.entries[i], call, elapsed.deep_view()),
    );
    let mut left: Vec<ConversationEntry> = Vec::new();
    std::mem::swap(&mut left, &mut app.entries);
    let mut r: Vec<ConversationEntry> = Vec::new();
    assert(left.deep_view() =~= start.entries.skip(0));
    assert(r.deep_view() =~= want.take(0));
    while left.len() > 0
        invariant
            want == Seq::new(
                start.entries.len(),
                |i: int| timed(start.entries[i], call, elapsed.deep_view()),
            ),
            app@ == (app::AppView { entries: app@.entries, ..start }),
            r@.len() + left@.len() == start.entries.len(),
            left.deep_view() == start.entries.skip(r@.len() as int),
            r.deep_view() == want.take(r@.len() as int),
        decreases left@.len(),
    {
        let ghost n = r@.len() as int;
        let ghost had = left.deep_view();
        let ghost before = r.deep_view();
        let entry = take_out(&mut left, 0);
        assert(had[0] == start.entries[n]);
        r.push(timed_of(entry, call, elapsed));
        assert(r.deep_view() =~= before.push(want[n]));
        assert(want.take(n + 1) =~= before.push(want[n]));
        assert(left.deep_view() =~= start.entries.skip(n + 1));
    }
    assert(want.take(r@.len() as int) =~= want);
    app.entries = r;
}

/// The calls that run, by number.
pub open spec fn running_calls(entries: Seq<tui_types::EntryView>) -> Seq<u64>
    decreases entries.len(),
{
    if entries.len() == 0 {
        Seq::empty()
    } else {
        let rest = running_calls(entries.drop_last());
        match entries.last() {
            tui_types::EntryView::ToolCall {
                status: tui_types::StatusView::Running { call, .. },
                ..
            } => rest.push(call),
            _ => rest,
        }
    }
}

/// The calls that run, by number.
pub fn calls_running(app: &App) -> (r: Vec<u64>)
    ensures
        r@ == running_calls(app@.entries),
{
    let ghost all = app@.entries;
    let mut r: Vec<u64> = Vec::new();
    let mut i: usize = 0;
    assert(all.take(0) =~= Seq::empty());
    while i < app.entries.len()
        invariant
            all == app@.entries,
            i <= app.entries@.len() == all.len(),
            r@ == running_calls(all.take(i as int)),
        decreases all.len() - i,
    {
        assert(all.take(i + 1).drop_last() =~= all.take(i as int));
        assert(all.take(i + 1).last() == app.entries@[i as int].deep_view());
        match &app.entries[i] {
            ConversationEntry::ToolCall { status: ToolCallStatus::Running { call, .. }, .. } => {
                r.push(*call);
            },
            _ => {},
        }
        i += 1;
    }
    assert(all.take(i as int) =~= all);
    r
}

/// Moves the spinner on while a turn runs.
pub fn tick(app: &mut App)
    ensures
        final(app)@ == (if old(app)@.turn_active {
            app::AppView {
                spinner_tick: if old(app)@.spinner_tick == usize::MAX {
                    0
                } else {
                    (old(app)@.spinner_tick + 1) as usize
                },
                dirty: true,
                ..old(app)@
            }
        } else {
            old(app)@
        }),
{
    if app.turn_active {
        app.spinner_tick = app.spinner_tick.wrapping_add(1);
        app.dirty = true;
    }
}

// ---------------------------------------------------------------------------
// Actions
// ---------------------------------------------------------------------------

/// Something that the interface sends.
#[derive(Debug)]
pub enum UiSend {
    Request(KernelRequest),
    Permission(PermissionResponse),
}

#[verifier::ext_equal]
pub ghost enum UiSendView {
    Request(protocol::KernelRequestView),
    Permission { request_id: RequestId, decision: types::DecisionView },
}

impl DeepView for UiSend {
    type V = UiSendView;

    open spec fn deep_view(&self) -> UiSendView {
        match self {
            UiSend::Request(request) => UiSendView::Request(request.deep_view()),
            UiSend::Permission(response) => UiSendView::Permission {
                request_id: response.request_id,
                decision: response.decision.deep_view(),
            },
        }
    }
}

/// The entries that are no questions for permission.
pub open spec fn without_prompts(entries: Seq<tui_types::EntryView>) -> Seq<tui_types::EntryView>
    decreases entries.len(),
{
    if entries.len() == 0 {
        Seq::empty()
    } else {
        let rest = without_prompts(entries.drop_last());
        if entries.last() is PermissionPrompt {
            rest
        } else {
            rest.push(entries.last())
        }
    }
}

/// The question for permission is answered.
pub open spec fn answered(app: app::AppView) -> app::AppView {
    app::AppView {
        entries: without_prompts(app.entries),
        awaiting_permission: false,
        request_id: None,
        capabilities: None,
        ..app
    }
}

/// What an action comes to: the interface, the policy, what is sent, and whether
/// the interface is left.
#[verifier::ext_equal]
pub ghost struct Acted {
    pub app: app::AppView,
    pub policy: policy::PolicyView,
    pub sends: Seq<UiSendView>,
    pub quit: bool,
}

/// An action that only sends a request.
pub open spec fn sending(
    app: app::AppView,
    policy: policy::PolicyView,
    request: protocol::KernelRequestView,
) -> Acted {
    Acted { app, policy, sends: seq![UiSendView::Request(request)], quit: false }
}

/// A request that a command sends.
pub open spec fn requesting(request: protocol::KernelRequestView) -> Seq<UiSendView> {
    seq![UiSendView::Request(request)]
}

/// What a command comes to: the interface, what is sent, and whether the
/// interface is left.
pub open spec fn commanded(app: app::AppView, command: tui_types::CommandView) -> (
    app::AppView,
    Seq<UiSendView>,
    bool,
) {
    let session_id = SessionId(0);
    match command {
        tui_types::CommandView::Clear => (
            app::AppView { entries: Seq::empty(), ..app.at_bottom() },
            Seq::empty(),
            false,
        ),
        tui_types::CommandView::Compact => (
            app,
            requesting(protocol::KernelRequestView::RequestCompaction { session_id }),
            false,
        ),
        tui_types::CommandView::Status => (
            app,
            requesting(protocol::KernelRequestView::QuerySession { session_id }),
            false,
        ),
        tui_types::CommandView::Tools => (app, Seq::empty(), false),
        tui_types::CommandView::Quit => (app, Seq::empty(), true),
        tui_types::CommandView::Unknown(name) => (
            app.with_entry(tui_types::EntryView::Error("unknown command: "@ + name)).at_bottom(),
            Seq::empty(),
            false,
        ),
    }
}

/// What an action comes to.
pub open spec fn acted(
    app: app::AppView,
    policy: policy::PolicyView,
    action: tui_types::ActionView,
) -> Acted {
    let app = app::AppView { dirty: true, ..app };
    let session_id = SessionId(0);
    let nothing = Acted { app, policy, sends: Seq::empty(), quit: false };
    match action {
        tui_types::ActionView::Submit(text) => sending(
            app::AppView {
                turn_active: true,
                ..app.with_entry(tui_types::EntryView::UserInput(text)).at_bottom()
            },
            policy,
            protocol::KernelRequestView::AddInput { session_id, text },
        ),
        tui_types::ActionView::PermissionDecision(allow) => match app.request_id {
            Some(id) => Acted {
                app: answered(app),
                policy,
                sends: seq![
                    UiSendView::Permission {
                        request_id: RequestId(id),
                        decision: if allow {
                            types::DecisionView::Allow
                        } else {
                            types::DecisionView::Deny("user denied"@)
                        },
                    },
                ],
                quit: false,
            },
            None => nothing,
        },
        tui_types::ActionView::PermissionAlwaysAllow => match (app.request_id, app.capabilities) {
            (Some(id), Some(capabilities)) => {
                let wider = policy::PolicyView {
                    rules: seq![policy::allow_rule(capabilities)] + policy.rules,
                    ..policy
                };
                Acted {
                    app: answered(app),
                    policy: wider,
                    sends: seq![
                        UiSendView::Request(
                            protocol::KernelRequestView::SetPolicy { session_id, policy: wider },
                        ),
                        UiSendView::Permission {
                            request_id: RequestId(id),
                            decision: types::DecisionView::Allow,
                        },
                    ],
                    quit: false,
                }
            },
            _ => Acted {
                app: app::AppView { request_id: None, capabilities: None, ..app },
                ..nothing
            },
        },
        tui_types::ActionView::Cancel => sending(
            app,
            policy,
            protocol::KernelRequestView::CancelTurn { session_id },
        ),
        tui_types::ActionView::SlashCommand(command) => {
            let done = commanded(app, command);
            Acted { app: done.0, policy, sends: done.1, quit: done.2 }
        },
        tui_types::ActionView::Quit => Acted { quit: true, ..nothing },
        tui_types::ActionView::Nothing => nothing,
    }
}

fn drop_prompts(entries: Vec<ConversationEntry>) -> (r: Vec<ConversationEntry>)
    ensures
        r.deep_view() == without_prompts(entries.deep_view()),
{
    let ghost all = entries.deep_view();
    let ghost mut i: int = 0;
    let mut left = entries;
    let mut r: Vec<ConversationEntry> = Vec::new();
    assert(left.deep_view() =~= all.skip(0));
    assert(all.take(0) =~= Seq::empty());
    assert(r.deep_view() =~= Seq::empty());
    while left.len() > 0
        invariant
            0 <= i <= all.len(),
            left@.len() == all.len() - i,
            left.deep_view() == all.skip(i),
            r.deep_view() == without_prompts(all.take(i)),
        decreases left@.len(),
    {
        let ghost had = left.deep_view();
        let ghost before = r.deep_view();
        let entry = take_out(&mut left, 0);
        assert(had[0] == all[i]);
        assert(all.take(i + 1).drop_last() =~= all.take(i));
        assert(all.take(i + 1).last() == all[i]);
        let prompt = match &entry {
            ConversationEntry::PermissionPrompt { .. } => true,
            _ => false,
        };
        if !prompt {
            r.push(entry);
            assert(r.deep_view() =~= before.push(all[i]));
        }
        proof {
            assert(left.deep_view() =~= all.skip(i + 1));
            i = i + 1;
        }
    }
    assert(all.take(i) =~= all);
    r
}

fn answer(app: &mut App)
    ensures
        final(app)@ == answered(old(app)@),
{
    let mut entries: Vec<ConversationEntry> = Vec::new();
    std::mem::swap(&mut entries, &mut app.entries);
    app.entries = drop_prompts(entries);
    app.awaiting_permission = false;
    app.pending_permission_request_id = None;
    app.pending_permission_capabilities = None;
}

fn one_send(send: UiSend) -> (r: Vec<UiSend>)
    ensures
        r.deep_view() == seq![send.deep_view()],
{
    let ghost view = send.deep_view();
    let mut r: Vec<UiSend> = Vec::new();
    r.push(send);
    assert(r.deep_view() =~= seq![view]);
    r
}

fn two_sends(first: UiSend, second: UiSend) -> (r: Vec<UiSend>)
    ensures
        r.deep_view() == seq![first.deep_view(), second.deep_view()],
{
    let ghost v = first.deep_view();
    let ghost w = second.deep_view();
    let mut r: Vec<UiSend> = Vec::new();
    r.push(first);
    r.push(second);
    assert(r.deep_view() =~= seq![v, w]);
    r
}

fn no_sends() -> (r: Vec<UiSend>)
    ensures
        r.deep_view() == Seq::<UiSendView>::empty(),
{
    let r: Vec<UiSend> = Vec::new();
    assert(r.deep_view() =~= Seq::empty());
    r
}

fn always_allow(app: &mut App, policy: &mut Policy) -> (r: Vec<UiSend>)
    ensures
        ({
            let done = acted(
                old(app)@,
                old(policy).deep_view(),
                tui_types::ActionView::PermissionAlwaysAllow,
            );
            &&& (app::AppView { dirty: true, ..final(app)@ }) == done.app
            &&& final(app)@.dirty == old(app)@.dirty
            &&& final(policy).deep_view() == done.policy
            &&& r.deep_view() == done.sends
        }),
{
    let id: Option<u64> = app.pending_permission_request_id;
    let mut capabilities: Option<Vec<String>> = None;
    std::mem::swap(&mut capabilities, &mut app.pending_permission_capabilities);
    app.pending_permission_request_id = None;
    match (id, capabilities) {
        (Some(id), Some(capabilities)) => {
            prepend_allow_rule(policy, capabilities);
            answer(app);
            let wider = policy.clone();
            let response = PermissionResponse {
                request_id: RequestId(id),
                decision: Decision::Allow,
            };
            two_sends(
                UiSend::Request(
                    KernelRequest::SetPolicy { session_id: SessionId(0), policy: wider },
                ),
                UiSend::Permission(response),
            )
        },
        _ => no_sends(),
    }
}

fn run_command(app: &mut App, command: SlashCommand) -> (r: (Vec<UiSend>, bool))
    ensures
        (final(app)@, r.0.deep_view(), r.1) == commanded(old(app)@, command.deep_view()),
{
    let session_id = SessionId(0);
    match command {
        SlashCommand::Clear => {
            app.entries = Vec::new();
            assert(app.entries.deep_view() =~= Seq::empty());
            app.scroll_to_bottom();
            (no_sends(), false)
        },
        SlashCommand::Compact => (
            one_send(UiSend::Request(KernelRequest::RequestCompaction { session_id })),
            false,
        ),
        SlashCommand::Status => (
            one_send(UiSend::Request(KernelRequest::QuerySession { session_id })),
            false,
        ),
        SlashCommand::Tools => (no_sends(), false),
        SlashCommand::Quit => (no_sends(), true),
        SlashCommand::Unknown(name) => {
            let mut s = "unknown command: ".to_owned();
            s.push_str(name.as_str());
            app.push_entry(ConversationEntry::Error(s));
            app.scroll_to_bottom();
            (no_sends(), false)
        },
    }
}

/// Does what the user asks for. Returns what is to be sent, and whether the
/// interface is left.
pub fn act(app: &mut App, policy: &mut Policy, action: InputAction) -> (r: (Vec<UiSend>, bool))
    ensures
        ({
            let done = acted(old(app)@, old(policy).deep_view(), action.deep_view());
            &&& final(app)@ == done.app
            &&& final(policy).deep_view() == done.policy
            &&& r.0.deep_view() == done.sends
            &&& r.1 == done.quit
        }),
{
    app.dirty = true;
    let session_id = SessionId(0);
    match action {
        InputAction::Submit(text) => {
            app.push_entry(ConversationEntry::UserInput(text.clone()));
            app.scroll_to_bottom();
            app.turn_active = true;
            (
                one_send(UiSend::Request(KernelRequest::AddInput { session_id, text })),
                false,
            )
        },
        InputAction::PermissionDecision(allow) => {
            match app.pending_permission_request_id {
                Some(id) => {
                    let decision = if allow {
                        Decision::Allow
                    } else {
                        Decision::Deny("user denied".to_owned())
                    };
                    answer(app);
                    let response = PermissionResponse { request_id: RequestId(id), decision };
                    (one_send(UiSend::Permission(response)), false)
                },
                None => (no_sends(), false),
            }
        },
        InputAction::PermissionAlwaysAllow => (always_allow(app, policy), false),
        InputAction::Cancel => (
            one_send(UiSend::Request(KernelRequest::CancelTurn { session_id })),
            false,
        ),
        InputAction::SlashCommand(command) => run_command(app, command),
        InputAction::Quit => (no_sends(), true),
        InputAction::Nothing => (no_sends(), false),
    }
}

/// What is sent once some events are shown: where a turn ended, the status of
/// the session is asked for.
pub fn after_events(turn_ended: bool) -> (r: Vec<UiSend>)
    ensures
        r.deep_view() == (if turn_ended {
            seq![
                UiSendView::Request(
                    protocol::KernelRequestView::QuerySession { session_id: SessionId(0) },
                ),
            ]
        } else {
            Seq::empty()
        }),
{
    if turn_ended {
        one_send(UiSend::Request(KernelRequest::QuerySession { session_id: SessionId(0) }))
    } else {
        no_sends()
    }
}

// ---------------------------------------------------------------------------
// Laws
// ---------------------------------------------------------------------------

/// A question for permission is answered once: the answer goes to the request
/// that was asked, and another answer then goes nowhere.
pub proof fn law_a_question_is_answered_once(
    app: app::AppView,
    policy: policy::PolicyView,
    request_id: RequestId,
    request: frontend::PermissionRequestView,
    first: bool,
    second: bool,
)
    ensures
        ({
            let open = asked(app, request_id, request);
            let once = acted(open, policy, tui_types::ActionView::PermissionDecision(first));
            let twice = acted(
                once.app,
                policy,
                tui_types::ActionView::PermissionDecision(second),
            );
            &&& open.awaiting_permission
            &&& once.sends.len() == 1
            &&& once.sends[0] matches UiSendView::Permission { request_id: to, .. } && to
                == request_id
            &&& !once.app.awaiting_permission
            &&& twice.sends.len() == 0
        }),
{
}

/// Allowing always allows what was asked for from then on: the policy that is
/// sent allows every capability under the request's.
pub proof fn law_always_allow_is_lasting(
    app: app::AppView,
    policy: policy::PolicyView,
    request_id: RequestId,
    request: frontend::PermissionRequestView,
    cap: Seq<char>,
)
    requires
        policy::allow_rule(request.capabilities).matches(cap),
    ensures
        ({
            let done = acted(
                asked(app, request_id, request),
                policy,
                tui_types::ActionView::PermissionAlwaysAllow,
            );
            &&& done.policy.decide(cap) == types::DecisionView::Allow
            &&& done.sends[0] == UiSendView::Request(
                protocol::KernelRequestView::SetPolicy {
                    session_id: SessionId(0),
                    policy: done.policy,
                },
            )
            &&& done.sends[1] == (UiSendView::Permission {
                request_id,
                decision: types::DecisionView::Allow,
            })
        }),
{
    policy::law_prepended_allow(policy, request.capabilities, cap);
}

/// Once a turn has ended, no call is shown as running.
pub proof fn law_no_call_outlives_its_turn(
    app: app::AppView,
    result: TurnResultSummary,
    name: Seq<char>,
    i: int,
)
    requires
        0 <= i < app.entries.len(),
    ensures
        !runs(turn_ended(app, result).entries[i], name),
{
}

/// The last call of a tool that runs is the one that output and results go to: it
/// runs, has that name, and no later one does.
pub proof fn law_the_last_running_call_is_meant(
    entries: Seq<tui_types::EntryView>,
    name: Seq<char>,
    n: nat,
)
    requires
        n <= entries.len(),
    ensures
        last_running(entries, name, n) matches Some(i) ==> 0 <= i < n && runs(entries[i], name)
            && forall|k: int| i < k < n ==> !runs(#[trigger] entries[k], name),
        last_running(entries, name, n) is None ==> forall|k: int|
            0 <= k < n ==> !runs(#[trigger] entries[k], name),
    decreases n,
{
    if n > 0 {
        law_the_last_running_call_is_meant(entries, name, (n - 1) as nat);
    }
}

/// A call is shown from its start to its end: it starts as the last entry, with
/// its name and what its input shows, and runs; output is added to it in order; its
/// result is then shown in its place, and it no longer runs.
pub proof fn law_a_call_is_shown_to_its_end(
    app: app::AppView,
    name: Seq<char>,
    shown: Seq<char>,
    a: Seq<char>,
    b: Seq<char>,
    summary: Seq<char>,
)
    ensures
        ({
            let start = started(app, name, shown);
            let more = outputted(outputted(start, name, a), name, b);
            let end = finished(more, name, summary);
            let n = app.entries.len() as int;
            &&& start.entries.len() == n + 1 && start.entries.drop_last() == app.entries
            &&& runs(start.entries[n], name)
            &&& start.entries[n] matches tui_types::EntryView::ToolCall { input_summary, .. }
                && input_summary == shown
            &&& start.calls == (if app.calls == u64::MAX {
                0
            } else {
                (app.calls + 1) as u64
            })
            &&& more.entries.len() == n + 1 && runs(more.entries[n], name)
            &&& more.entries[n] matches tui_types::EntryView::ToolCall { result_summary, .. }
                && result_summary == Some(a + b)
            &&& end.entries.len() == n + 1
            &&& end.entries[n] matches tui_types::EntryView::ToolCall {
                tool_name,
                input_summary,
                status,
                result_summary,
                ..
            } && tool_name == name && input_summary == shown && status is Success && result_summary
                == Some(summary)
            &&& end.entries.drop_last() == app.entries
            &&& start.follow && more.follow && end.follow
        }),
{
    let start = started(app, name, shown);
    let n = app.entries.len() as int;
    assert(start.entries.drop_last() =~= app.entries);
    law_the_last_running_call_is_meant(start.entries, name, start.entries.len());
    let one = outputted(start, name, a);
    assert(one.entries.drop_last() =~= app.entries);
    law_the_last_running_call_is_meant(one.entries, name, one.entries.len());
    let more = outputted(one, name, b);
    assert(more.entries.drop_last() =~= app.entries);
    law_the_last_running_call_is_meant(more.entries, name, more.entries.len());
    let end = finished(more, name, summary);
    assert(end.entries.drop_last() =~= app.entries);
}

/// What the model says is shown behind everything else, as one entry where it goes
/// on, on a line of its own.
pub proof fn law_what_is_said_is_shown(
    app: app::AppView,
    session_id: SessionId,
    t: Seq<char>,
    percent: Seq<char>,
)
    ensures
        ({
            let event = protocol::KernelEventView::TextOutput { session_id, text: t };
            applied(app, event, percent) matches Some(now) && now.follow && now.entries.len() > 0
                && (if app.entries.len() > 0 && app.entries.last() is AssistantText {
                now.entries.len() == app.entries.len() && now.entries.drop_last()
                    == app.entries.drop_last() && now.entries.last()
                    == tui_types::EntryView::AssistantText(
                    app.entries.last()->AssistantText_0 + "\n"@ + t,
                )
            } else {
                now.entries == app.entries.push(tui_types::EntryView::AssistantText(t))
            })
        }),
{
    if app.entries.len() > 0 && app.entries.last() is AssistantText {
        let now = with_text(app.entries, t);
        assert(now.drop_last() =~= app.entries.drop_last());
    }
}

/// What events do to the interface: a request for permission opens a question that
/// shows what is asked; a turn is counted, with its tokens, when it ends; an error
/// is shown, and ends the turn where it cannot be recovered from.
pub proof fn law_events_are_applied(
    app: app::AppView,
    session_id: SessionId,
    turn_id: types::TurnId,
    request_id: RequestId,
    request: frontend::PermissionRequestView,
    error: frontend::KernelErrorView,
    result: TurnResultSummary,
    percent: Seq<char>,
)
    ensures
        applied(
            app,
            protocol::KernelEventView::PermissionRequired { session_id, request_id, request },
            percent,
        ) matches Some(now) && now.awaiting_permission && now.request_id == Some(request_id.0)
            && now.capabilities == Some(request.capabilities) && now.entries == app.entries.push(
            tui_types::EntryView::PermissionPrompt {
                tool_name: request.tool_name,
                capabilities: request.capabilities,
                input_summary: request.input_summary,
            },
        ),
        applied(
            app,
            protocol::KernelEventView::Error { session_id: Some(session_id), error },
            percent,
        ) matches Some(now) && now.entries == app.entries.push(
            tui_types::EntryView::Error(error.message),
        ) && now.turn_active == (app.turn_active && error.recoverable),
        applied(
            app,
            protocol::KernelEventView::TurnEnded { session_id, turn_id, result },
            percent,
        ) matches Some(now) && !now.turn_active && now.entries.len() == app.entries.len() && (
        app.turn_count < usize::MAX ==> now.turn_count == app.turn_count + 1) && (
        app.total_input_tokens + result.input_tokens <= usize::MAX ==> now.total_input_tokens
            == app.total_input_tokens + result.input_tokens) && (app.total_output_tokens
            + result.output_tokens <= usize::MAX ==> now.total_output_tokens
            == app.total_output_tokens + result.output_tokens),
        applied(
            app,
            protocol::KernelEventView::TurnStarted { session_id, turn_id },
            percent,
        ) matches Some(now) && now == (app::AppView { turn_active: true, ..app }),
{
}

/// What the user does is sent: input as input, a cancellation as one, the commands
/// as what they ask for. What is submitted is shown.
pub proof fn law_actions_are_sent(app: app::AppView, policy: policy::PolicyView, t: Seq<char>)
    ensures
        ({
            let done = acted(app, policy, tui_types::ActionView::Submit(t));
            &&& done.sends == seq![
                UiSendView::Request(
                    protocol::KernelRequestView::AddInput { session_id: SessionId(0), text: t },
                ),
            ]
            &&& done.app.entries == app.entries.push(tui_types::EntryView::UserInput(t))
            &&& done.app.turn_active && done.app.follow && done.app.dirty && !done.quit
            &&& done.policy == policy
        }),
        acted(app, policy, tui_types::ActionView::Cancel).sends == seq![
            UiSendView::Request(
                protocol::KernelRequestView::CancelTurn { session_id: SessionId(0) },
            ),
        ],
        acted(app, policy, tui_types::ActionView::Quit).quit,
        acted(app, policy, tui_types::ActionView::Quit).sends.len() == 0,
        acted(
            app,
            policy,
            tui_types::ActionView::SlashCommand(tui_types::CommandView::Compact),
        ).sends == seq![
            UiSendView::Request(
                protocol::KernelRequestView::RequestCompaction { session_id: SessionId(0) },
            ),
        ],
        acted(
            app,
            policy,
            tui_types::ActionView::SlashCommand(tui_types::CommandView::Status),
        ).sends == seq![
            UiSendView::Request(
                protocol::KernelRequestView::QuerySession { session_id: SessionId(0) },
            ),
        ],
        acted(
            app,
            policy,
            tui_types::ActionView::SlashCommand(tui_types::CommandView::Clear),
        ).app.entries.len() == 0,
        acted(
            app,
            policy,
            tui_types::ActionView::SlashCommand(tui_types::CommandView::Quit),
        ).quit,
        acted(
            app,
            policy,
            tui_types::ActionView::SlashCommand(tui_types::CommandView::Unknown(t)),
        ).app.entries == app.entries.push(tui_types::EntryView::Error("unknown command: "@ + t)),
        acted(app, policy, tui_types::ActionView::Nothing).sends.len() == 0,
{
}

/// An answer carries the user's decision to the request that was asked, and takes
/// the question, and nothing else, off the screen.
pub proof fn law_answers_decide(app: app::AppView, policy: policy::PolicyView, id: u64, i: int)
    requires
        app.request_id == Some(id),
        0 <= i < app.entries.len(),
    ensures
        acted(app, policy, tui_types::ActionView::PermissionDecision(true)).sends == seq![
            UiSendView::Permission {
                request_id: RequestId(id),
                decision: types::DecisionView::Allow,
            },
        ],
        acted(app, policy, tui_types::ActionView::PermissionDecision(false)).sends == seq![
            UiSendView::Permission {
                request_id: RequestId(id),
                decision: types::DecisionView::Deny("user denied"@),
            },
        ],
        acted(app, policy, tui_types::ActionView::PermissionDecision(true)).app.entries
            == without_prompts(app.entries),
        without_prompts(app.entries).contains(app.entries[i]) <==> !(
        app.entries[i] is PermissionPrompt),
{
    lemma_without_prompts(app.entries, app.entries[i]);
    assert(app.entries.contains(app.entries[i]));
}

proof fn lemma_without_prompts(entries: Seq<tui_types::EntryView>, e: tui_types::EntryView)
    ensures
        without_prompts(entries).contains(e) <==> entries.contains(e) && !(e is PermissionPrompt),
    decreases entries.len(),
{
    if entries.len() > 0 {
        let rest = entries.drop_last();
        lemma_without_prompts(rest, e);
        let kept = without_prompts(entries);
        if entries.contains(e) && !(e is PermissionPrompt) {
            let k = choose|k: int| 0 <= k < entries.len() && entries[k] == e;
            if k < rest.len() {
                assert(rest[k] == e);
                let j = choose|j: int|
                    0 <= j < without_prompts(rest).len() && without_prompts(rest)[j] == e;
                assert(kept[j] == e);
            } else {
                assert(kept[kept.len() - 1] == e);
            }
        }
        if kept.contains(e) {
            let k = choose|k: int| 0 <= k < kept.len() && kept[k] == e;
            if k < without_prompts(rest).len() {
                assert(without_prompts(rest)[k] == e);
                let j = choose|j: int| 0 <= j < rest.len() && rest[j] == e;
                assert(entries[j] == e);
            } else {
                assert(entries[entries.len() - 1] == e);
            }
        }
    }
}

/// The calls that run are numbered as they were started, and a time goes to the
/// call of its number alone.
pub proof fn law_times_go_to_their_call(
    entries: Seq<tui_types::EntryView>,
    more: tui_types::EntryView,
    number: u64,
    time: tui_types::ElapsedView,
)
    ensures
        running_calls(entries.push(more)) == (match more {
            tui_types::EntryView::ToolCall {
                status: tui_types::StatusView::Running { call, .. },
                ..
            } => running_calls(entries).push(call),
            _ => running_calls(entries),
        }),
        more matches tui_types::EntryView::ToolCall {
            status: tui_types::StatusView::Running { call, .. },
            ..
        } && call == number ==> (timed(more, number, time) matches tui_types::EntryView::ToolCall {
            status: tui_types::StatusView::Running { call: c, elapsed },
            ..
        } && c == number && elapsed == time),
        !(more matches tui_types::EntryView::ToolCall {
            status: tui_types::StatusView::Running { call, .. },
            ..
        } && call == number) ==> timed(more, number, time) == more,
{
    assert(entries.push(more).drop_last() =~= entries);
}

} // verus!
