//! The line-based interface.

use crate::frontend;
use crate::frontend::PermissionRequest;
use crate::json;
use crate::protocol;
use crate::protocol::{KernelEvent, KernelRequest, RequestId, TurnResultSummary};
use crate::text;
use crate::text::{ascii_lower_of, decimal_of, joined, same, trimmed, trimmed_end};
use crate::tool_display;
use crate::tool_display::{format_tool_input, format_tool_result};
use crate::types;
use crate::types::{Decision, SessionId};
use vstd::prelude::*;
use vstd::string::*;

verus! {

/// What an event has the interface do.
#[derive(Debug)]
pub enum ReplOutput {
    /// Nothing.
    Silent,
    /// Print a line of what the model said.
    Say(String),
    /// Print a line of what happens.
    Note(String),
    /// Ask for permission, on a line that the answer ends.
    Ask { request_id: RequestId, question: String },
    /// Nothing can be shown: a text in it cannot be cut off.
    Unprintable,
}

#[verifier::ext_equal]
pub ghost enum ReplOutputView {
    Silent,
    Say(Seq<char>),
    Note(Seq<char>),
    Ask { request_id: RequestId, question: Seq<char> },
    Unprintable,
}

impl DeepView for ReplOutput {
    type V = ReplOutputView;

    open spec fn deep_view(&self) -> ReplOutputView {
        match self {
            ReplOutput::Silent => ReplOutputView::Silent,
            ReplOutput::Say(t) => ReplOutputView::Say(t@),
            ReplOutput::Note(t) => ReplOutputView::Note(t@),
            ReplOutput::Ask { request_id, question } => ReplOutputView::Ask {
                request_id: *request_id,
                question: question@,
            },
            ReplOutput::Unprintable => ReplOutputView::Unprintable,
        }
    }
}

/// The question for permission.
pub open spec fn question(request: frontend::PermissionRequestView) -> Seq<char> {
    "  [permission] "@ + request.tool_name + " requires ["@ + text::join(
        request.capabilities,
        ", "@,
    ) + "]. Allow? (y/n) "@
}

/// The question for permission.
pub fn question_of(request: &PermissionRequest) -> (r: String)
    ensures
        r@ == question(request.deep_view()),
{
    let mut r = "  [permission] ".to_owned();
    r.push_str(request.tool_name.as_str());
    r.push_str(" requires [");
    r.push_str(joined(&request.capabilities, ", ").as_str());
    r.push_str("]. Allow? (y/n) ");
    r
}

/// What a turn took, where it took anything.
pub open spec fn tokens_note(result: TurnResultSummary) -> ReplOutputView {
    if result.cache_read_input_tokens > 0 || result.cache_creation_input_tokens > 0 {
        ReplOutputView::Note(
            "  [tokens] in="@ + text::decimal(result.input_tokens as nat) + " out="@
                + text::decimal(result.output_tokens as nat) + " cache_read="@ + text::decimal(
                result.cache_read_input_tokens as nat,
            ) + " cache_write="@ + text::decimal(result.cache_creation_input_tokens as nat),
        )
    } else if result.input_tokens > 0 {
        ReplOutputView::Note(
            "  [tokens] in="@ + text::decimal(result.input_tokens as nat) + " out="@
                + text::decimal(result.output_tokens as nat),
        )
    } else {
        ReplOutputView::Silent
    }
}

/// What an event has the interface do.
pub open spec fn output(event: protocol::KernelEventView) -> ReplOutputView {
    match event {
        protocol::KernelEventView::SessionCreated { session_id } => ReplOutputView::Note(
            "Session SessionId("@ + text::decimal(session_id.0 as nat) + ") created"@,
        ),
        protocol::KernelEventView::ToolCallStarted { tool_name, input, .. } => {
            match tool_display::input_summary(tool_name, input) {
                Some(summary) => ReplOutputView::Note(
                    "  [tool] "@ + tool_name + "("@ + summary + ")"@,
                ),
                None => ReplOutputView::Unprintable,
            }
        },
        protocol::KernelEventView::ToolCompleted { tool_name, result, .. } => {
            match tool_display::result_summary(tool_name, result) {
                Some(summary) => ReplOutputView::Note(
                    "  [result] "@ + tool_name + " -> "@ + summary,
                ),
                None => ReplOutputView::Unprintable,
            }
        },
        protocol::KernelEventView::ToolOutputChunk { tool_name, data, .. } => {
            ReplOutputView::Note("  [tool] "@ + tool_name + ": "@ + text::trim_end(data))
        },
        protocol::KernelEventView::PermissionRequired { request_id, request, .. } => {
            ReplOutputView::Ask { request_id, question: question(request) }
        },
        protocol::KernelEventView::TextOutput { text, .. } => ReplOutputView::Say(text),
        protocol::KernelEventView::TurnStarted { .. } => ReplOutputView::Silent,
        protocol::KernelEventView::TurnEnded { result, .. } => tokens_note(result),
        protocol::KernelEventView::CompactionHappened { summary, .. } => ReplOutputView::Note(
            "  [compaction] freed "@ + text::decimal(summary.tokens_freed as nat) + " tokens"@,
        ),
        protocol::KernelEventView::SessionStatus { .. } => ReplOutputView::Silent,
        protocol::KernelEventView::Error { error, .. } => ReplOutputView::Note(
            "  [error] "@ + error.message,
        ),
    }
}

fn tokens_note_of(result: &TurnResultSummary) -> (r: ReplOutput)
    ensures
        r.deep_view() == tokens_note(*result),
{
    let mut s = "  [tokens] in=".to_owned();
    s.push_str(decimal_of(result.input_tokens as u64).as_str());
    s.push_str(" out=");
    s.push_str(decimal_of(result.output_tokens as u64).as_str());
    if result.cache_read_input_tokens > 0 || result.cache_creation_input_tokens > 0 {
        s.push_str(" cache_read=");
        s.push_str(decimal_of(result.cache_read_input_tokens as u64).as_str());
        s.push_str(" cache_write=");
        s.push_str(decimal_of(result.cache_creation_input_tokens as u64).as_str());
        ReplOutput::Note(s)
    } else if result.input_tokens > 0 {
        ReplOutput::Note(s)
    } else {
        ReplOutput::Silent
    }
}

/// What an event has the interface do.
pub fn output_of(event: &KernelEvent) -> (r: ReplOutput)
    ensures
        r.deep_view() == output(event.deep_view()),
{
    match event {
        KernelEvent::SessionCreated { session_id } => {
            let mut s = "Session SessionId(".to_owned();
            s.push_str(decimal_of(session_id.0).as_str());
            s.push_str(") created");
            ReplOutput::Note(s)
        },
        KernelEvent::ToolCallStarted { tool_name, input, .. } => {
            match format_tool_input(tool_name.as_str(), input) {
                Some(summary) => {
                    let mut s = "  [tool] ".to_owned();
                    s.push_str(tool_name.as_str());
                    s.push_str("(");
                    s.push_str(summary.as_str());
                    s.push_str(")");
                    ReplOutput::Note(s)
                },
                None => ReplOutput::Unprintable,
            }
        },
        KernelEvent::ToolCompleted { tool_name, result, .. } => {
            match format_tool_result(tool_name.as_str(), result) {
                Some(summary) => {
                    let mut s = "  [result] ".to_owned();
                    s.push_str(tool_name.as_str());
                    s.push_str(" -> ");
                    s.push_str(summary.as_str());
                    ReplOutput::Note(s)
                },
                None => ReplOutput::Unprintable,
            }
        },
        KernelEvent::ToolOutputChunk { tool_name, data, .. } => {
            let mut s = "  [tool] ".to_owned();
            s.push_str(tool_name.as_str());
            s.push_str(": ");
            s.push_str(trimmed_end(data.as_str()).as_str());
            ReplOutput::Note(s)
        },
        KernelEvent::PermissionRequired { request_id, request, .. } => ReplOutput::Ask {
            request_id: *request_id,
            question: question_of(request),
        },
        KernelEvent::TextOutput { text, .. } => ReplOutput::Say(text.clone()),
        KernelEvent::TurnStarted { .. } => ReplOutput::Silent,
        KernelEvent::TurnEnded { result, .. } => tokens_note_of(result),
        KernelEvent::CompactionHappened { summary, .. } => {
            let mut s = "  [compaction] freed ".to_owned();
            s.push_str(decimal_of(summary.tokens_freed as u64).as_str());
            s.push_str(" tokens");
            ReplOutput::Note(s)
        },
        KernelEvent::SessionStatus { .. } => ReplOutput::Silent,
        KernelEvent::Error { error, .. } => {
            let mut s = "  [error] ".to_owned();
            s.push_str(error.message.as_str());
            ReplOutput::Note(s)
        },
    }
}

// ---------------------------------------------------------------------------
// Answers
// ---------------------------------------------------------------------------

/// Whether an answer allows: it is yes, in capitals or not, but for white space.
pub open spec fn allows(answer: Seq<char>) -> bool {
    let said = text::ascii_lower(text::trim(answer));
    said == "y"@ || said == "yes"@
}

/// What an answer decides. Without one, because of `unread`, the call is denied.
pub open spec fn answer_decision(answer: Option<Seq<char>>, unread: Seq<char>) -> types::DecisionView {
    match answer {
        Some(line) => if allows(line) {
            types::DecisionView::Allow
        } else {
            types::DecisionView::Deny("user denied"@)
        },
        None => types::DecisionView::Deny(unread),
    }
}

/// What an answer decides. Without one, because of `unread`, the call is denied.
pub fn decision_of(answer: Option<String>, unread: &str) -> (r: Decision)
    ensures
        r.deep_view() == answer_decision(answer.deep_view(), unread@),
{
    match answer {
        Some(line) => {
            let said = ascii_lower_of(trimmed(line.as_str()).as_str());
            if same(said.as_str(), "y") || same(said.as_str(), "yes") {
                Decision::Allow
            } else {
                Decision::Deny("user denied".to_owned())
            }
        },
        None => Decision::Deny(unread.to_owned()),
    }
}

// ---------------------------------------------------------------------------
// Input
// ---------------------------------------------------------------------------

/// What a line of input asks for.
#[derive(Debug)]
pub enum ReplInput {
    /// Nothing: the line is blank.
    Again,
    Quit,
    Send(KernelRequest),
}

#[verifier::ext_equal]
pub ghost enum ReplInputView {
    Again,
    Quit,
    Send(protocol::KernelRequestView),
}

impl DeepView for ReplInput {
    type V = ReplInputView;

    open spec fn deep_view(&self) -> ReplInputView {
        match self {
            ReplInput::Again => ReplInputView::Again,
            ReplInput::Quit => ReplInputView::Quit,
            ReplInput::Send(request) => ReplInputView::Send(request.deep_view()),
        }
    }
}

/// What a line of input asks for.
pub open spec fn input(line: Seq<char>) -> ReplInputView {
    let said = text::trim(line);
    if said.len() == 0 {
        ReplInputView::Again
    } else if said == "/quit"@ || said == "/exit"@ {
        ReplInputView::Quit
    } else {
        ReplInputView::Send(
            protocol::KernelRequestView::AddInput { session_id: SessionId(0), text: said },
        )
    }
}

/// What a line of input asks for.
pub fn input_of(line: &str) -> (r: ReplInput)
    ensures
        r.deep_view() == input(line@),
{
    let said = trimmed(line);
    if said.as_str().unicode_len() == 0 {
        ReplInput::Again
    } else if same(said.as_str(), "/quit") || same(said.as_str(), "/exit") {
        ReplInput::Quit
    } else {
        ReplInput::Send(KernelRequest::AddInput { session_id: SessionId(0), text: said })
    }
}

// ---------------------------------------------------------------------------
// Laws
// ---------------------------------------------------------------------------

/// Yes allows, in capitals or not and with whatever white space around it, and
/// nothing else does. Without an answer nothing is allowed.
pub proof fn law_only_yes_allows(answer: Seq<char>, unread: Seq<char>)
    ensures
        answer_decision(Some(answer), unread) is Allow <==> text::ascii_lower(text::trim(answer))
            == "y"@ || text::ascii_lower(text::trim(answer)) == "yes"@,
        !(answer_decision(Some(answer), unread) is Allow) ==> answer_decision(
            Some(answer),
            unread,
        ) == types::DecisionView::Deny("user denied"@),
        answer_decision(None, unread) == types::DecisionView::Deny(unread),
{
}

/// A line is sent as input without the white space around it, a blank one is
/// passed over, and the two commands to leave are not sent.
pub proof fn law_lines_are_sent(line: Seq<char>)
    ensures
        text::trim(line).len() == 0 <==> input(line) is Again,
        input(line) is Quit <==> text::trim(line).len() > 0 && (text::trim(line) == "/quit"@
            || text::trim(line) == "/exit"@),
        input(line) matches ReplInputView::Send(request) ==> request == (
        protocol::KernelRequestView::AddInput {
            session_id: SessionId(0),
            text: text::trim(line),
        }),
{
}

/// What the model says is said as it is; calls, results, output and errors are
/// noted with the tool and what is shown of them; a request for permission is put
/// as a question that names the tool and everything that it requires.
pub proof fn law_events_are_shown(
    session_id: SessionId,
    t: Seq<char>,
    name: Seq<char>,
    doc: json::JsonView,
    request_id: RequestId,
    request: frontend::PermissionRequestView,
    error: frontend::KernelErrorView,
)
    ensures
        output(protocol::KernelEventView::TextOutput { session_id, text: t })
            == ReplOutputView::Say(t),
        tool_display::input_summary(name, doc) matches Some(shown) ==> output(
            protocol::KernelEventView::ToolCallStarted { session_id, tool_name: name, input: doc },
        ) == ReplOutputView::Note("  [tool] "@ + name + "("@ + shown + ")"@),
        tool_display::result_summary(name, doc) matches Some(shown) ==> output(
            protocol::KernelEventView::ToolCompleted { session_id, tool_name: name, result: doc },
        ) == ReplOutputView::Note("  [result] "@ + name + " -> "@ + shown),
        output(protocol::KernelEventView::Error { session_id: Some(session_id), error })
            == ReplOutputView::Note("  [error] "@ + error.message),
        output(
            protocol::KernelEventView::PermissionRequired { session_id, request_id, request },
        ) matches ReplOutputView::Ask { request_id: asked, question } && asked == request_id
            && text::contains_text(question, request.tool_name) && forall|k: int|
            0 <= k < request.capabilities.len() ==> text::contains_text(
                question,
                #[trigger] request.capabilities[k],
            ),
{
    let caps = text::join(request.capabilities, ", "@);
    let whole = question(request);
    let start = "  [permission] "@;
    let mid = " requires ["@;
    let end = "]. Allow? (y/n) "@;
    text::lemma_contained_between(start, request.tool_name, mid + caps + end);
    assert(whole =~= start + request.tool_name + (mid + caps + end));
    text::lemma_contained_between(start + request.tool_name + mid, caps, end);
    assert forall|k: int| 0 <= k < request.capabilities.len() implies text::contains_text(
        whole,
        #[trigger] request.capabilities[k],
    ) by {
        text::law_joined_texts_hold_their_parts(request.capabilities, ", "@, k);
        text::lemma_contained_in_part(whole, caps, request.capabilities[k]);
    }
}

/// What a turn took is noted, with what came from the cache where anything did.
pub proof fn law_tokens_are_noted(result: TurnResultSummary)
    ensures
        tokens_note(result) is Silent <==> result.input_tokens == 0
            && result.cache_read_input_tokens == 0 && result.cache_creation_input_tokens == 0,
        tokens_note(result) matches ReplOutputView::Note(t) ==> text::begins_with(
            t,
            "  [tokens] in="@ + text::decimal(result.input_tokens as nat) + " out="@
                + text::decimal(result.output_tokens as nat),
        ),
        (result.cache_read_input_tokens > 0 || result.cache_creation_input_tokens > 0)
            ==> tokens_note(result) == ReplOutputView::Note(
            "  [tokens] in="@ + text::decimal(result.input_tokens as nat) + " out="@
                + text::decimal(result.output_tokens as nat) + " cache_read="@ + text::decimal(
                result.cache_read_input_tokens as nat,
            ) + " cache_write="@ + text::decimal(result.cache_creation_input_tokens as nat),
        ),
{
    let start = "  [tokens] in="@ + text::decimal(result.input_tokens as nat) + " out="@
        + text::decimal(result.output_tokens as nat);
    if let ReplOutputView::Note(t) = tokens_note(result) {
        assert(t.subrange(0, start.len() as int) =~= start);
    }
}

} // verus!
