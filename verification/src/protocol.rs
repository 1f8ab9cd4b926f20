//! Messages between the kernel and its frontends.
//!
//! Tools are dispatched by the kernel alone: a frontend does not register
//! tools, run them, or see their input and output but through these events.

use crate::context::Utilization;
use crate::frontend;
use crate::frontend::{CompactionSummary, KernelError, PermissionRequest};
use crate::json;
use crate::json::Json;
use crate::policy;
use crate::policy::Policy;
use crate::tool::ToolChunkStream;
use crate::turn_loop::TurnResult;
use crate::types;
use crate::types::{CompletionConfig, Decision, ResourceBudget, SessionId, SessionMode, TurnId};
use vstd::prelude::*;
use vstd::string::*;

verus! {

/// Correlates requests with their responses.
#[derive(Debug, Clone, Copy, PartialEq, Eq, Structural)]
pub struct RequestId(pub u64);

/// An event from an external source (webhook, chat, cron, file watcher).
#[derive(Debug)]
pub struct ExternalEvent {
    /// Source identifier, such as "github-webhook".
    pub source: String,
    /// Event type, such as "pull_request.opened".
    pub event_type: String,
    /// Raw event data.
    pub payload: Json,
}

#[verifier::ext_equal]
pub ghost struct ExternalEventView {
    pub source: Seq<char>,
    pub event_type: Seq<char>,
    pub payload: json::JsonView,
}

impl DeepView for ExternalEvent {
    type V = ExternalEventView;

    open spec fn deep_view(&self) -> ExternalEventView {
        ExternalEventView {
            source: self.source@,
            event_type: self.event_type@,
            payload: self.payload.deep_view(),
        }
    }
}

/// Configuration for creating a new session. It names neither the provider nor
/// the tools: the kernel owns both.
#[derive(Debug)]
pub struct SessionCreateConfig {
    pub mode: SessionMode,
    pub system_prompt: String,
    pub completion_config: CompletionConfig,
    pub policy: Policy,
    pub resource_budget: ResourceBudget,
    pub workspace: String,
}

#[verifier::ext_equal]
pub ghost struct SessionCreateView {
    pub mode: SessionMode,
    pub system_prompt: Seq<char>,
    pub completion_config: types::CompletionConfigView,
    pub policy: policy::PolicyView,
    pub resource_budget: ResourceBudget,
    pub workspace: Seq<char>,
}

impl DeepView for SessionCreateConfig {
    type V = SessionCreateView;

    open spec fn deep_view(&self) -> SessionCreateView {
        SessionCreateView {
            mode: self.mode,
            system_prompt: self.system_prompt@,
            completion_config: self.completion_config.deep_view(),
            policy: self.policy.deep_view(),
            resource_budget: self.resource_budget,
            workspace: self.workspace@,
        }
    }
}

/// Summary of a completed turn.
#[derive(Debug, Clone, Copy, PartialEq, Eq, Structural)]
pub struct TurnResultSummary {
    pub tool_calls_dispatched: usize,
    pub tool_calls_denied: usize,
    pub was_cancelled: bool,
    pub input_tokens: usize,
    pub output_tokens: usize,
    pub cache_creation_input_tokens: usize,
    pub cache_read_input_tokens: usize,
}

/// The summary of a turn that came to nothing.
pub open spec fn empty_summary() -> TurnResultSummary {
    TurnResultSummary {
        tool_calls_dispatched: 0,
        tool_calls_denied: 0,
        was_cancelled: false,
        input_tokens: 0,
        output_tokens: 0,
        cache_creation_input_tokens: 0,
        cache_read_input_tokens: 0,
    }
}

/// The summary of a turn's result.
pub open spec fn summary_of(result: TurnResult) -> TurnResultSummary {
    TurnResultSummary {
        tool_calls_dispatched: result.tool_calls_dispatched,
        tool_calls_denied: result.tool_calls_denied,
        was_cancelled: result.was_cancelled,
        input_tokens: result.usage.input_tokens,
        output_tokens: result.usage.output_tokens,
        cache_creation_input_tokens: result.usage.cache_creation_input_tokens,
        cache_read_input_tokens: result.usage.cache_read_input_tokens,
    }
}

impl TurnResultSummary {
    /// The summary of a turn that came to nothing.
    pub fn empty() -> (r: Self)
        ensures
            r == empty_summary(),
    {
        TurnResultSummary {
            tool_calls_dispatched: 0,
            tool_calls_denied: 0,
            was_cancelled: false,
            input_tokens: 0,
            output_tokens: 0,
            cache_creation_input_tokens: 0,
            cache_read_input_tokens: 0,
        }
    }

    /// The summary of a turn's result.
    pub fn of(result: &TurnResult) -> (r: Self)
        ensures
            r == summary_of(*result),
    {
        TurnResultSummary {
            tool_calls_dispatched: result.tool_calls_dispatched,
            tool_calls_denied: result.tool_calls_denied,
            was_cancelled: result.was_cancelled,
            input_tokens: result.usage.input_tokens,
            output_tokens: result.usage.output_tokens,
            cache_creation_input_tokens: result.usage.cache_creation_input_tokens,
            cache_read_input_tokens: result.usage.cache_read_input_tokens,
        }
    }
}

// ---------------------------------------------------------------------------
// Frontend to kernel
// ---------------------------------------------------------------------------

/// Messages from the frontend to the kernel.
#[derive(Debug)]
pub enum KernelRequest {
    /// Create a new session with the given configuration.
    CreateSession { config: SessionCreateConfig },
    /// Feed input into a session.
    AddInput { session_id: SessionId, text: String },
    /// Deliver an external event to a session.
    DeliverEvent { session_id: SessionId, event: ExternalEvent },
    /// Respond to a permission request.
    PermissionResponse { request_id: RequestId, decision: Decision },
    /// Cancel the current turn of a session.
    CancelTurn { session_id: SessionId },
    /// Compact the context of a session.
    RequestCompaction { session_id: SessionId },
    /// Swap the policy of a session.
    SetPolicy { session_id: SessionId, policy: Policy },
    /// Ask for the status of a session.
    QuerySession { session_id: SessionId },
    /// Shut down.
    Shutdown,
}

#[verifier::ext_equal]
pub ghost enum KernelRequestView {
    CreateSession { config: SessionCreateView },
    AddInput { session_id: SessionId, text: Seq<char> },
    DeliverEvent { session_id: SessionId, event: ExternalEventView },
    PermissionResponse { request_id: RequestId, decision: types::DecisionView },
    CancelTurn { session_id: SessionId },
    RequestCompaction { session_id: SessionId },
    SetPolicy { session_id: SessionId, policy: policy::PolicyView },
    QuerySession { session_id: SessionId },
    Shutdown,
}

impl DeepView for KernelRequest {
    type V = KernelRequestView;

    open spec fn deep_view(&self) -> KernelRequestView {
        match self {
            KernelRequest::CreateSession { config } => KernelRequestView::CreateSession {
                config: config.deep_view(),
            },
            KernelRequest::AddInput { session_id, text } => KernelRequestView::AddInput {
                session_id: *session_id,
                text: text@,
            },
            KernelRequest::DeliverEvent { session_id, event } => KernelRequestView::DeliverEvent {
                session_id: *session_id,
                event: event.deep_view(),
            },
            KernelRequest::PermissionResponse { request_id, decision } =>
            KernelRequestView::PermissionResponse {
                request_id: *request_id,
                decision: decision.deep_view(),
            },
            KernelRequest::CancelTurn { session_id } => KernelRequestView::CancelTurn {
                session_id: *session_id,
            },
            KernelRequest::RequestCompaction { session_id } =>
            KernelRequestView::RequestCompaction { session_id: *session_id },
            KernelRequest::SetPolicy { session_id, policy } => KernelRequestView::SetPolicy {
                session_id: *session_id,
                policy: policy.deep_view(),
            },
            KernelRequest::QuerySession { session_id } => KernelRequestView::QuerySession {
                session_id: *session_id,
            },
            KernelRequest::Shutdown => KernelRequestView::Shutdown,
        }
    }
}

// ---------------------------------------------------------------------------
// Kernel to frontend
// ---------------------------------------------------------------------------

/// Messages from the kernel to the frontend.
#[allow(inconsistent_fields)]
#[derive(Debug)]
pub enum KernelEvent {
    /// A new session was created.
    SessionCreated { session_id: SessionId },
    /// The kernel needs a decision from the user, and waits for a
    /// `PermissionResponse`.
    PermissionRequired {
        session_id: SessionId,
        request_id: RequestId,
        request: PermissionRequest,
    },
    /// The model produced text.
    TextOutput { session_id: SessionId, text: String },
    /// A tool is about to run.
    ToolCallStarted { session_id: SessionId, tool_name: String, input: Json },
    /// A tool finished, with the result that the model sees.
    ToolCompleted { session_id: SessionId, tool_name: String, result: Json },
    /// A piece of output from a tool that still runs. The model sees a single
    /// result when the call ends.
    ToolOutputChunk {
        session_id: SessionId,
        tool_name: String,
        stream: ToolChunkStream,
        data: String,
    },
    /// A turn started.
    TurnStarted { session_id: SessionId, turn_id: TurnId },
    /// A turn ended.
    TurnEnded { session_id: SessionId, turn_id: TurnId, result: TurnResultSummary },
    /// The context was compacted.
    CompactionHappened { session_id: SessionId, summary: CompactionSummary },
    /// The status of a session.
    SessionStatus {
        session_id: SessionId,
        tokens_used: usize,
        utilization: Utilization,
        turn_count: usize,
    },
    /// An error occurred.
    Error { session_id: Option<SessionId>, error: KernelError },
}

#[allow(inconsistent_fields)]
#[verifier::ext_equal]
pub ghost enum KernelEventView {
    SessionCreated { session_id: SessionId },
    PermissionRequired {
        session_id: SessionId,
        request_id: RequestId,
        request: frontend::PermissionRequestView,
    },
    TextOutput { session_id: SessionId, text: Seq<char> },
    ToolCallStarted { session_id: SessionId, tool_name: Seq<char>, input: json::JsonView },
    ToolCompleted { session_id: SessionId, tool_name: Seq<char>, result: json::JsonView },
    ToolOutputChunk {
        session_id: SessionId,
        tool_name: Seq<char>,
        stream: ToolChunkStream,
        data: Seq<char>,
    },
    TurnStarted { session_id: SessionId, turn_id: TurnId },
    TurnEnded { session_id: SessionId, turn_id: TurnId, result: TurnResultSummary },
    CompactionHappened { session_id: SessionId, summary: CompactionSummary },
    SessionStatus {
        session_id: SessionId,
        tokens_used: usize,
        utilization: Utilization,
        turn_count: usize,
    },
    Error { session_id: Option<SessionId>, error: frontend::KernelErrorView },
}

impl DeepView for KernelEvent {
    type V = KernelEventView;

    open spec fn deep_view(&self) -> KernelEventView {
        match self {
            KernelEvent::SessionCreated { session_id } => KernelEventView::SessionCreated {
                session_id: *session_id,
            },
            KernelEvent::PermissionRequired { session_id, request_id, request } =>
            KernelEventView::PermissionRequired {
                session_id: *session_id,
                request_id: *request_id,
                request: request.deep_view(),
            },
            KernelEvent::TextOutput { session_id, text } => KernelEventView::TextOutput {
                session_id: *session_id,
                text: text@,
            },
            KernelEvent::ToolCallStarted { session_id, tool_name, input } =>
            KernelEventView::ToolCallStarted {
                session_id: *session_id,
                tool_name: tool_name@,
                input: input.deep_view(),
            },
            KernelEvent::ToolCompleted { session_id, tool_name, result } =>
            KernelEventView::ToolCompleted {
                session_id: *session_id,
                tool_name: tool_name@,
                result: result.deep_view(),
            },
            KernelEvent::ToolOutputChunk { session_id, tool_name, stream, data } =>
            KernelEventView::ToolOutputChunk {
                session_id: *session_id,
                tool_name: tool_name@,
                stream: *stream,
                data: data@,
            },
            KernelEvent::TurnStarted { session_id, turn_id } => KernelEventView::TurnStarted {
                session_id: *session_id,
                turn_id: *turn_id,
            },
            KernelEvent::TurnEnded { session_id, turn_id, result } => KernelEventView::TurnEnded {
                session_id: *session_id,
                turn_id: *turn_id,
                result: *result,
            },
            KernelEvent::CompactionHappened { session_id, summary } =>
            KernelEventView::CompactionHappened { session_id: *session_id, summary: *summary },
            KernelEvent::SessionStatus { session_id, tokens_used, utilization, turn_count } =>
            KernelEventView::SessionStatus {
                session_id: *session_id,
                tokens_used: *tokens_used,
                utilization: *utilization,
                turn_count: *turn_count,
            },
            KernelEvent::Error { session_id, error } => KernelEventView::Error {
                session_id: *session_id,
                error: error.deep_view(),
            },
        }
    }
}

// ---------------------------------------------------------------------------
// Laws
// ---------------------------------------------------------------------------

/// The summary of a turn tells its counts and its tokens, each as the result has
/// it.
pub proof fn law_summaries_tell_the_result(result: TurnResult)
    ensures
        summary_of(result).tool_calls_dispatched == result.tool_calls_dispatched,
        summary_of(result).tool_calls_denied == result.tool_calls_denied,
        summary_of(result).was_cancelled == result.was_cancelled,
        summary_of(result).input_tokens == result.usage.input_tokens,
        summary_of(result).output_tokens == result.usage.output_tokens,
        summary_of(result).cache_creation_input_tokens == result.usage.cache_creation_input_tokens,
        summary_of(result).cache_read_input_tokens == result.usage.cache_read_input_tokens,
{
}

} // verus!
