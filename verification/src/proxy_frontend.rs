//! A frontend that turns what a turn tells into events, and asks for
//! permission through them.

use crate::frontend::PermissionRequest;
use crate::protocol;
use crate::protocol::{KernelEvent, RequestId, TurnResultSummary};
use crate::proxy_tool::next_request_id;
use crate::tool::ToolChunkStream;
use crate::turn_loop;
use crate::turn_loop::TurnNotice;
use crate::types;
use crate::types::{Decision, SessionId};
use vstd::prelude::*;
use vstd::string::*;

verus! {

/// The response to a permission request.
#[derive(Debug)]
pub struct PermissionResponse {
    pub request_id: RequestId,
    pub decision: Decision,
}

/// The event that tells a notice.
pub open spec fn notice_event(
    session_id: SessionId,
    notice: turn_loop::NoticeView,
) -> protocol::KernelEventView {
    match notice {
        turn_loop::NoticeView::Started(turn_id) => protocol::KernelEventView::TurnStarted {
            session_id,
            turn_id,
        },
        turn_loop::NoticeView::Compacted(summary) =>
        protocol::KernelEventView::CompactionHappened { session_id, summary },
        turn_loop::NoticeView::Text(text) => protocol::KernelEventView::TextOutput {
            session_id,
            text,
        },
        turn_loop::NoticeView::ToolCall { tool_name, input } =>
        protocol::KernelEventView::ToolCallStarted { session_id, tool_name, input },
        turn_loop::NoticeView::ToolResult { tool_name, output } =>
        protocol::KernelEventView::ToolCompleted { session_id, tool_name, result: output.result },
        turn_loop::NoticeView::Error(error) => protocol::KernelEventView::Error {
            session_id: Some(session_id),
            error,
        },
        turn_loop::NoticeView::Ended(turn_id) => protocol::KernelEventView::TurnEnded {
            session_id,
            turn_id,
            result: protocol::empty_summary(),
        },
    }
}

/// The events that tell some notices.
pub open spec fn notice_events(
    session_id: SessionId,
    notices: Seq<turn_loop::NoticeView>,
) -> Seq<protocol::KernelEventView> {
    Seq::new(notices.len(), |i: int| notice_event(session_id, notices[i]))
}

/// What is decided where the answer is `answer`: without one, the call is
/// denied.
pub open spec fn decision_on(answer: Option<types::DecisionView>) -> types::DecisionView {
    match answer {
        Some(decision) => decision,
        None => types::DecisionView::Deny("permission request timed out"@),
    }
}

/// The decision in an answer, if there is one.
pub open spec fn answer_view(answer: Option<PermissionResponse>) -> Option<types::DecisionView> {
    match answer {
        Some(response) => Some(response.decision.deep_view()),
        None => None,
    }
}

/// A frontend that turns everything into events.
#[derive(Debug)]
pub struct ProxyFrontend {
    session_id: SessionId,
    next_request_id: u64,
}

impl ProxyFrontend {
    pub closed spec fn id(&self) -> SessionId {
        self.session_id
    }

    /// The id of the next permission request.
    pub closed spec fn next_id(&self) -> u64 {
        self.next_request_id
    }

    pub fn new(session_id: SessionId) -> (r: Self)
        ensures
            r.id() == session_id,
            r.next_id() == 0,
    {
        ProxyFrontend { session_id, next_request_id: 0 }
    }

    /// The session whose turns it tells of.
    pub fn session_id(&self) -> (r: SessionId)
        ensures
            r == self.id(),
    {
        self.session_id
    }

    fn next_request_id(&mut self) -> (r: RequestId)
        ensures
            r == RequestId(old(self).next_id()),
            final(self).id() == old(self).id(),
            final(self).next_id() == (if old(self).next_id() == u64::MAX {
                0
            } else {
                old(self).next_id() + 1
            }),
    {
        next_request_id(&mut self.next_request_id)
    }

    /// The event that tells a notice.
    pub fn event_of(&self, notice: TurnNotice) -> (r: KernelEvent)
        ensures
            r.deep_view() == notice_event(self.id(), notice.deep_view()),
    {
        let session_id = self.session_id;
        match notice {
            TurnNotice::Started(turn_id) => KernelEvent::TurnStarted { session_id, turn_id },
            TurnNotice::Compacted(summary) => KernelEvent::CompactionHappened {
                session_id,
                summary,
            },
            TurnNotice::Text(text) => KernelEvent::TextOutput { session_id, text },
            TurnNotice::ToolCall { tool_name, input } => KernelEvent::ToolCallStarted {
                session_id,
                tool_name,
                input,
            },
            TurnNotice::ToolResult { tool_name, output } => KernelEvent::ToolCompleted {
                session_id,
                tool_name,
                result: output.result,
            },
            TurnNotice::Error(error) => KernelEvent::Error { session_id: Some(session_id), error },
            TurnNotice::Ended(turn_id) => KernelEvent::TurnEnded {
                session_id,
                turn_id,
                result: TurnResultSummary::empty(),
            },
        }
    }

    /// The events that tell some notices.
    pub fn events_of(&self, notices: Vec<TurnNotice>) -> (r: Vec<KernelEvent>)
        ensures
            r.deep_view() == notice_events(self.id(), notices.deep_view()),
    {
        let ghost all = notice_events(self.id(), notices.deep_view());
        let mut left = notices;
        let mut r: Vec<KernelEvent> = Vec::new();
        assert(left.deep_view() =~= notices.deep_view().skip(0));
        assert(r.deep_view() =~= all.take(0));
        while left.len() > 0
            invariant
                all == notice_events(self.id(), notices.deep_view()),
                r@.len() + left@.len() == all.len() == notices.deep_view().len(),
                r.deep_view() == all.take(r@.len() as int),
                left.deep_view() == notices.deep_view().skip(r@.len() as int),
            decreases left@.len(),
        {
            let ghost before = r.deep_view();
            let ghost had = left.deep_view();
            let ghost n = r@.len() as int;
            let notice = left.remove(0);
            assert(notice.deep_view() == had[0]);
            assert(had[0] == notices.deep_view()[n]);
            r.push(self.event_of(notice));
            assert(r.deep_view() =~= before.push(all[n]));
            assert(all.take(n + 1) =~= before.push(all[n]));
            assert(left.deep_view() =~= had.skip(1));
            assert(notices.deep_view().skip(n + 1) =~= had.skip(1));
        }
        assert(all.take(r@.len() as int) =~= all);
        r
    }

    /// The event for a piece of output from a tool that still runs.
    pub fn chunk_event(
        &self,
        tool_name: &str,
        stream: ToolChunkStream,
        data: &str,
    ) -> (r: KernelEvent)
        ensures
            r.deep_view() == (protocol::KernelEventView::ToolOutputChunk {
                session_id: self.id(),
                tool_name: tool_name@,
                stream,
                data: data@,
            }),
    {
        KernelEvent::ToolOutputChunk {
            session_id: self.session_id,
            tool_name: tool_name.to_owned(),
            stream,
            data: data.to_owned(),
        }
    }

    /// The event that asks for permission, under a fresh request id.
    pub fn permission_event(&mut self, request: PermissionRequest) -> (r: KernelEvent)
        ensures
            r.deep_view() == (protocol::KernelEventView::PermissionRequired {
                session_id: old(self).id(),
                request_id: RequestId(old(self).next_id()),
                request: request.deep_view(),
            }),
            final(self).id() == old(self).id(),
            final(self).next_id() == (if old(self).next_id() == u64::MAX {
                0
            } else {
                old(self).next_id() + 1
            }),
    {
        let request_id = self.next_request_id();
        KernelEvent::PermissionRequired { session_id: self.session_id, request_id, request }
    }

    /// The decision in the answer to a permission request. Where no answer
    /// came, in time or ever, the call is denied.
    pub fn decision(answer: Option<PermissionResponse>) -> (r: Decision)
        ensures
            r.deep_view() == decision_on(answer_view(answer)),
    {
        match answer {
            Some(response) => response.decision,
            None => Decision::Deny("permission request timed out".to_owned()),
        }
    }
}

// ---------------------------------------------------------------------------
// Laws
// ---------------------------------------------------------------------------

/// Everything that a turn tells reaches the frontend, in order, as an event of the
/// session, with all that it says.
pub proof fn law_notices_become_events(
    session_id: SessionId,
    notices: Seq<turn_loop::NoticeView>,
    i: int,
)
    requires
        0 <= i < notices.len(),
    ensures
        ({
            let events = notice_events(session_id, notices);
            let event = events[i];
            &&& events.len() == notices.len()
            &&& match notices[i] {
                turn_loop::NoticeView::Started(id) => event
                    matches protocol::KernelEventView::TurnStarted { session_id: s, turn_id } && s
                    == session_id && turn_id == id,
                turn_loop::NoticeView::Compacted(told) => event
                    matches protocol::KernelEventView::CompactionHappened {
                    session_id: s,
                    summary,
                } && s == session_id && summary == told,
                turn_loop::NoticeView::Text(t) => event
                    matches protocol::KernelEventView::TextOutput { session_id: s, text } && s
                    == session_id && text == t,
                turn_loop::NoticeView::ToolCall { tool_name: n, input: x } => event
                    matches protocol::KernelEventView::ToolCallStarted {
                    session_id: s,
                    tool_name,
                    input,
                } && s == session_id && tool_name == n && input == x,
                turn_loop::NoticeView::ToolResult { tool_name: n, output } => event
                    matches protocol::KernelEventView::ToolCompleted {
                    session_id: s,
                    tool_name,
                    result,
                } && s == session_id && tool_name == n && result == output.result,
                turn_loop::NoticeView::Error(e) => event matches protocol::KernelEventView::Error {
                    session_id: s,
                    error,
                } && s == Some(session_id) && error == e,
                turn_loop::NoticeView::Ended(id) => event
                    matches protocol::KernelEventView::TurnEnded { session_id: s, turn_id, .. } && s
                    == session_id && turn_id == id,
            }
        }),
{
}

/// An answer decides as it says. Without one nothing is allowed, and the reason is
/// told.
pub proof fn law_no_answer_is_a_denial(answer: types::DecisionView)
    ensures
        decision_on(Some(answer)) == answer,
        decision_on(None) == types::DecisionView::Deny("permission request timed out"@),
{
}

} // verus!
