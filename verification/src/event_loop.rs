//! The outer loop that drives a session: it takes requests, runs turns until
//! the model yields, and tells what happens as events.
//!
//! The loop asks its host for the work that only the host can do, and is handed
//! what came of it.

use crate::context;
use crate::context::{ContextConfig, ContextManager};
use crate::context_store::InMemoryContextStore;
use crate::frontend;
use crate::frontend::{CompactionSummary, KernelError};
use crate::json;
use crate::json::Json;
use crate::permission::PermissionEvaluator;
use crate::policy;
use crate::protocol;
use crate::protocol::{KernelEvent, KernelRequest, RequestId, SessionCreateConfig, TurnResultSummary};
use crate::provider::{ProviderError, Response};
use crate::proxy_frontend;
use crate::proxy_frontend::{PermissionResponse, ProxyFrontend};
use crate::session;
use crate::session::{PendingResult, Session};
use crate::session_events;
use crate::session_events::{SessionEventSink, WorkspaceFingerprint};
use crate::tool::{ToolError, ToolOutput, ToolSchema};
use crate::turn_loop;
use crate::turn_loop::{TurnLoop, TurnNext, TurnPhase, TurnRun, TurnStep};
use crate::types;
use crate::types::{CompletionConfig, Prompt, Role, SessionId, TurnId};
use vstd::prelude::*;
use vstd::string::*;

verus! {

/// What the loop needs next.
#[derive(Debug)]
pub enum LoopNext {
    /// A request.
    Receive,
    /// To be told to start the next turn.
    StartTurn,
    /// A completion of the prompt.
    Complete(Prompt),
    /// To be told to go on with the turn, after any cancellation.
    CheckCancel,
    /// An execution of the tool at this position.
    Execute { tool: usize, tool_name: String, input: Json },
    /// The answer to the permission request.
    AwaitDecision,
    /// Nothing: the loop is over.
    Stop,
}

#[verifier::ext_equal]
pub ghost enum LoopNextView {
    Receive,
    StartTurn,
    Complete(types::PromptView),
    CheckCancel,
    Execute { tool: usize, tool_name: Seq<char>, input: json::JsonView },
    AwaitDecision,
    Stop,
}

impl DeepView for LoopNext {
    type V = LoopNextView;

    open spec fn deep_view(&self) -> LoopNextView {
        match self {
            LoopNext::Receive => LoopNextView::Receive,
            LoopNext::StartTurn => LoopNextView::StartTurn,
            LoopNext::Complete(prompt) => LoopNextView::Complete(prompt.deep_view()),
            LoopNext::CheckCancel => LoopNextView::CheckCancel,
            LoopNext::Execute { tool, tool_name, input } => LoopNextView::Execute {
                tool: *tool,
                tool_name: tool_name@,
                input: input.deep_view(),
            },
            LoopNext::AwaitDecision => LoopNextView::AwaitDecision,
            LoopNext::Stop => LoopNextView::Stop,
        }
    }
}

/// One step of the loop: the events to send, and what is needed next.
#[derive(Debug)]
pub struct LoopStep {
    pub events: Vec<KernelEvent>,
    pub next: LoopNext,
}

#[verifier::ext_equal]
pub ghost struct LoopStepView {
    pub events: Seq<protocol::KernelEventView>,
    pub next: LoopNextView,
}

impl DeepView for LoopStep {
    type V = LoopStepView;

    open spec fn deep_view(&self) -> LoopStepView {
        LoopStepView { events: self.events.deep_view(), next: self.next.deep_view() }
    }
}

/// What the loop does with a step of a turn, where the next permission request
/// has the id `request`.
pub open spec fn followed(
    session_id: SessionId,
    request: u64,
    step: turn_loop::StepView,
) -> LoopStepView {
    let told = proxy_frontend::notice_events(session_id, step.notices);
    match step.next {
        turn_loop::NextView::Complete(prompt) => LoopStepView {
            events: told,
            next: LoopNextView::Complete(prompt),
        },
        turn_loop::NextView::CheckCancel => LoopStepView {
            events: told,
            next: LoopNextView::CheckCancel,
        },
        turn_loop::NextView::Execute { tool, tool_name, input } => LoopStepView {
            events: told,
            next: LoopNextView::Execute { tool, tool_name, input },
        },
        turn_loop::NextView::Ask(asked) => LoopStepView {
            events: told.push(
                protocol::KernelEventView::PermissionRequired {
                    session_id,
                    request_id: RequestId(request),
                    request: asked,
                },
            ),
            next: LoopNextView::AwaitDecision,
        },
        turn_loop::NextView::Done(result) => if result.continues {
            LoopStepView { events: told, next: LoopNextView::StartTurn }
        } else {
            LoopStepView {
                events: told.push(
                    protocol::KernelEventView::TurnEnded {
                        session_id,
                        turn_id: result.turn_id,
                        result: protocol::summary_of(result),
                    },
                ),
                next: LoopNextView::Receive,
            }
        },
        turn_loop::NextView::Failed(e) => LoopStepView {
            events: told.push(
                protocol::KernelEventView::Error {
                    session_id: Some(session_id),
                    error: frontend::KernelErrorView { message: e.message(), recoverable: true },
                },
            ).push(
                protocol::KernelEventView::TurnEnded {
                    session_id,
                    turn_id: TurnId(0),
                    result: protocol::empty_summary(),
                },
            ),
            next: LoopNextView::Receive,
        },
    }
}

/// The id of the next permission request after a step of a turn.
pub open spec fn request_after(request: u64, step: turn_loop::StepView) -> u64 {
    if !(step.next is Ask) {
        request
    } else if request == u64::MAX {
        0
    } else {
        (request + 1) as u64
    }
}

/// The event loop of a session.
pub struct EventLoop<E: SessionEventSink> {
    session: Session<InMemoryContextStore, E>,
    frontend: ProxyFrontend,
    run: TurnRun,
}

#[verifier::ext_equal]
pub ghost struct LoopView {
    pub session: session::SessionView,
    /// The session that the events name.
    pub session_id: SessionId,
    /// The id of the next permission request.
    pub request: u64,
    /// The turn under way, or the last one.
    pub run: turn_loop::RunView,
}

impl<E: SessionEventSink> View for EventLoop<E> {
    type V = LoopView;

    closed spec fn view(&self) -> LoopView {
        LoopView {
            session: self.session@,
            session_id: self.frontend.id(),
            request: self.frontend.next_id(),
            run: self.run@,
        }
    }
}

fn push_event(events: Vec<KernelEvent>, event: KernelEvent) -> (r: Vec<KernelEvent>)
    ensures
        r.deep_view() == events.deep_view().push(event.deep_view()),
{
    let ghost before = events.deep_view();
    let ghost added = event.deep_view();
    let mut r = events;
    r.push(event);
    assert(r.deep_view() =~= before.push(added));
    r
}

fn silently(next: LoopNext) -> (r: LoopStep)
    ensures
        r.deep_view() == (LoopStepView { events: Seq::empty(), next: next.deep_view() }),
{
    let events: Vec<KernelEvent> = Vec::new();
    assert(events.deep_view() =~= Seq::empty());
    LoopStep { events, next }
}

fn answering(event: KernelEvent) -> (r: LoopStep)
    ensures
        r.deep_view() == (LoopStepView {
            events: seq![event.deep_view()],
            next: LoopNextView::Receive,
        }),
{
    let ghost said = event.deep_view();
    let events: Vec<KernelEvent> = Vec::new();
    let events = push_event(events, event);
    assert(events.deep_view() =~= seq![said]);
    LoopStep { events, next: LoopNext::Receive }
}

/// The session that a loop starts with.
pub open spec fn created_session(
    session_id: SessionId,
    create: protocol::SessionCreateView,
    tools: Seq<ToolSchema>,
    config: ContextConfig,
) -> session::SessionView {
    session::SessionView {
        id: session_id,
        mode: create.mode,
        workspace: create.workspace,
        state: context::initial_state(config, create.system_prompt, Seq::empty()),
        policy: create.policy,
        next_turn: 0,
        max_calls: create.resource_budget.max_tool_invocations_per_turn as nat,
        completion: create.completion_config,
        tools,
        pending: Seq::empty(),
        cancelled: false,
        max_tokens: create.resource_budget.max_tokens_per_session,
    }
}

impl<E: SessionEventSink> EventLoop<E> {
    /// The events recorded so far.
    pub closed spec fn log(&self) -> Seq<session_events::EventView> {
        self.session.log()
    }

    /// A loop for a new session, whose start is recorded.
    pub fn new(
        session_id: SessionId,
        create: SessionCreateConfig,
        tools: Vec<ToolSchema>,
        events: E,
        fingerprint: WorkspaceFingerprint,
    ) -> (r: Self)
        ensures
            context::is_default_config(r@.session.state.config),
            r@.session == created_session(
                session_id,
                create.deep_view(),
                tools@,
                r@.session.state.config,
            ),
            r@.session_id == session_id,
            r@.request == 0,
            r@.run.phase is Over,
            context::recorded(
                events.log(),
                r.log(),
                0,
                session_events::Happening::SessionStarted {
                    workspace: create.workspace@,
                    system_prompt: create.system_prompt@,
                    policy_name: create.policy.name@,
                    fingerprint: Some(fingerprint.deep_view()),
                },
            ),
    {
        let config = ContextConfig::default();
        let mut context = ContextManager::with_event_sink(config, create.system_prompt, events);
        context.record_session_start(
            create.workspace.clone(),
            create.policy.name.clone(),
            Some(fingerprint),
        );
        let session = Session::new(
            session_id,
            create.mode,
            create.workspace,
            context,
            PermissionEvaluator::new(create.policy),
            TurnLoop::new(
                create.completion_config,
                create.resource_budget.max_tool_invocations_per_turn,
            ),
            tools,
            create.resource_budget.max_tokens_per_session,
        );
        EventLoop { session, frontend: ProxyFrontend::new(session_id), run: TurnRun::idle() }
    }

    /// The session.
    pub fn session(&self) -> (r: &Session<InMemoryContextStore, E>)
        ensures
            r@ == self@.session,
            r.log() == self.log(),
    {
        &self.session
    }

    /// What the turn under way waits for.
    pub fn phase(&self) -> (r: TurnPhase)
        ensures
            r == self@.run.phase,
    {
        self.run.phase()
    }

    /// What the provider is told of every completion.
    pub fn completion_config(&self) -> (r: &CompletionConfig)
        ensures
            r.deep_view() == self@.session.completion,
    {
        self.session.completion_config()
    }

    /// The frontend, which tells of output from a tool that still runs.
    pub fn frontend(&self) -> (r: &ProxyFrontend)
        ensures
            r.id() == self@.session_id,
            r.next_id() == self@.request,
    {
        &self.frontend
    }

    /// Turns a step of a turn into a step of the loop.
    fn follow(&mut self, step: TurnStep) -> (r: LoopStep)
        ensures
            final(self)@ == (LoopView {
                request: request_after(old(self)@.request, step.deep_view()),
                ..old(self)@
            }),
            final(self).log() == old(self).log(),
            r.deep_view() == followed(
                old(self)@.session_id,
                old(self)@.request,
                step.deep_view(),
            ),
    {
        let session_id = self.frontend.session_id();
        let events = self.frontend.events_of(step.notices);
        match step.next {
            TurnNext::Complete(prompt) => LoopStep { events, next: LoopNext::Complete(prompt) },
            TurnNext::CheckCancel => LoopStep { events, next: LoopNext::CheckCancel },
            TurnNext::Execute { tool, tool_name, input } => LoopStep {
                events,
                next: LoopNext::Execute { tool, tool_name, input },
            },
            TurnNext::Ask(request) => {
                let event = self.frontend.permission_event(request);
                LoopStep { events: push_event(events, event), next: LoopNext::AwaitDecision }
            },
            TurnNext::Done(result) => {
                if result.continues {
                    LoopStep { events, next: LoopNext::StartTurn }
                } else {
                    let event = KernelEvent::TurnEnded {
                        session_id,
                        turn_id: result.turn_id,
                        result: TurnResultSummary::of(&result),
                    };
                    LoopStep { events: push_event(events, event), next: LoopNext::Receive }
                }
            },
            TurnNext::Failed(e) => {
                let error = KernelError { message: e.message(), recoverable: true };
                let failed = KernelEvent::Error { session_id: Some(session_id), error };
                let ended = KernelEvent::TurnEnded {
                    session_id,
                    turn_id: TurnId(0),
                    result: TurnResultSummary::empty(),
                };
                LoopStep {
                    events: push_event(push_event(events, failed), ended),
                    next: LoopNext::Receive,
                }
            },
        }
    }
}

/// Where the loop is after a request; compaction and the status answer with an
/// event, which the request does not fix alone.
pub open spec fn after_request(
    before: session::SessionView,
    request: protocol::KernelRequestView,
) -> session::SessionView {
    match request {
        protocol::KernelRequestView::AddInput { text, .. } => session::SessionView {
            state: before.state.after_turn_start(Role::User, text),
            ..before
        },
        protocol::KernelRequestView::DeliverEvent { event, .. } => session::SessionView {
            pending: before.pending.push(
                session::PendingView::ExternalEvent {
                    source: event.source,
                    event_type: event.event_type,
                    summary: json::json_text(event.payload),
                },
            ),
            ..before
        },
        protocol::KernelRequestView::CancelTurn { .. } => session::SessionView {
            cancelled: true,
            ..before
        },
        protocol::KernelRequestView::SetPolicy { policy, .. } => session::SessionView {
            policy,
            ..before
        },
        _ => before,
    }
}

/// The step that answers a request other than one for compaction.
pub open spec fn request_step(
    before: LoopView,
    request: protocol::KernelRequestView,
) -> LoopStepView {
    match request {
        protocol::KernelRequestView::AddInput { .. } => LoopStepView {
            events: Seq::empty(),
            next: LoopNextView::StartTurn,
        },
        protocol::KernelRequestView::QuerySession { .. } => LoopStepView {
            events: seq![
                protocol::KernelEventView::SessionStatus {
                    session_id: before.session_id,
                    tokens_used: before.session.state.tokens_used as usize,
                    utilization: context::Utilization {
                        used: before.session.state.tokens_used as usize,
                        window: before.session.state.config.context_window,
                    },
                    turn_count: before.session.state.turns.len() as usize,
                },
            ],
            next: LoopNextView::Receive,
        },
        protocol::KernelRequestView::Shutdown => LoopStepView {
            events: Seq::empty(),
            next: LoopNextView::Stop,
        },
        _ => LoopStepView { events: Seq::empty(), next: LoopNextView::Receive },
    }
}

/// The event that tells of a compaction: of the tokens that it freed, or why
/// nothing was done.
pub open spec fn compaction_event(
    session_id: SessionId,
    before: context::ContextState,
    elapsed: Option<u64>,
) -> protocol::KernelEventView {
    match before.compaction_refusal(elapsed) {
        None => protocol::KernelEventView::CompactionHappened {
            session_id,
            summary: CompactionSummary {
                turns_before: before.turns.len() as usize,
                turns_after: before.turns.len() as usize,
                tokens_freed: before.compaction_frees() as usize,
            },
        },
        Some(why) => protocol::KernelEventView::Error {
            session_id: Some(session_id),
            error: frontend::KernelErrorView { message: why, recoverable: true },
        },
    }
}

impl<E: SessionEventSink> EventLoop<E> {
    /// Handles a request, between turns.
    pub fn handle(&mut self, request: KernelRequest) -> (r: LoopStep)
        ensures
            final(self)@ == (LoopView { session: final(self)@.session, ..old(self)@ }),
            !(request is RequestCompaction) ==> {
                &&& final(self)@.session == after_request(
                    old(self)@.session,
                    request.deep_view(),
                )
                &&& r.deep_view() == request_step(old(self)@, request.deep_view())
            },
            request is RequestCompaction ==> exists|elapsed: Option<u64>|
                {
                    let before = old(self)@.session;
                    &&& elapsed is Some == before.state.compacted
                    &&& final(self)@.session == (session::SessionView {
                        state: before.state.after_compaction(elapsed),
                        ..before
                    })
                    &&& r.deep_view() == (LoopStepView {
                        events: seq![
                            #[trigger] compaction_event(
                                old(self)@.session_id,
                                old(self)@.session.state,
                                elapsed,
                            ),
                        ],
                        next: LoopNextView::Receive,
                    })
                },
            match request {
                KernelRequest::AddInput { text, .. } => context::recorded(
                    old(self).log(),
                    final(self).log(),
                    old(self)@.session.state.turns.len(),
                    session_events::Happening::UserInput { text: text@ },
                ),
                _ => final(self).log() == old(self).log(),
            },
    {
        let session_id = self.frontend.session_id();
        match request {
            KernelRequest::AddInput { text, .. } => {
                self.session.add_user_input(text);
                silently(LoopNext::StartTurn)
            },
            KernelRequest::DeliverEvent { event, .. } => {
                let summary = event.payload.to_text();
                self.session.deliver(
                    PendingResult::ExternalEvent {
                        source: event.source,
                        event_type: event.event_type,
                        summary,
                    },
                );
                silently(LoopNext::Receive)
            },
            KernelRequest::CancelTurn { .. } => {
                self.session.cancel();
                silently(LoopNext::Receive)
            },
            KernelRequest::SetPolicy { policy, .. } => {
                self.session.set_policy(policy);
                silently(LoopNext::Receive)
            },
            KernelRequest::RequestCompaction { .. } => {
                let ghost before = self.session@;
                let result = self.session.request_compaction();
                let ghost elapsed = choose|elapsed: Option<u64>|
                    {
                        &&& elapsed is Some == before.state.compacted
                        &&& self.session@.state == #[trigger] before.state.after_compaction(elapsed)
                        &&& match result {
                            Ok(freed) => before.state.compaction_refusal(elapsed) is None && freed
                                == before.state.compaction_frees(),
                            Err(e) => before.state.compaction_refusal(elapsed) == Some(e@),
                        }
                    };
                let event = match result {
                    Ok(tokens_freed) => KernelEvent::CompactionHappened {
                        session_id,
                        summary: CompactionSummary {
                            turns_before: self.session.turn_count(),
                            turns_after: self.session.turn_count(),
                            tokens_freed,
                        },
                    },
                    Err(message) => KernelEvent::Error {
                        session_id: Some(session_id),
                        error: KernelError { message, recoverable: true },
                    },
                };
                assert(event.deep_view() == compaction_event(session_id, before.state, elapsed));
                answering(event)
            },
            KernelRequest::QuerySession { .. } => {
                answering(
                    KernelEvent::SessionStatus {
                        session_id,
                        tokens_used: self.session.tokens_used(),
                        utilization: self.session.context_utilization(),
                        turn_count: self.session.turn_count(),
                    },
                )
            },
            KernelRequest::Shutdown => silently(LoopNext::Stop),
            _ => silently(LoopNext::Receive),
        }
    }

    /// Starts the next turn.
    pub fn start_turn(&mut self) -> (r: LoopStep)
        ensures
            ({
                let before = old(self)@.session;
                let drained = session::after_pending(before.state, before.pending);
                let started = |compaction: Option<Result<nat, Seq<char>>>|
                    turn_loop::started(
                        TurnId(before.next_turn),
                        before.max_calls,
                        final(self)@.session.state,
                        before.tools,
                        compaction,
                    );
                &&& final(self)@ == (LoopView {
                    session: session::SessionView {
                        state: final(self)@.session.state,
                        pending: Seq::empty(),
                        cancelled: false,
                        next_turn: final(self)@.session.next_turn,
                        ..before
                    },
                    run: final(self)@.run,
                    ..old(self)@
                })
                &&& final(self)@.session.next_turn == (if before.next_turn == u64::MAX {
                    0
                } else {
                    before.next_turn + 1
                })
                &&& !drained.compaction_due() ==> {
                    &&& final(self)@.session.state == drained
                    &&& final(self)@.run == started(None).0
                    &&& r.deep_view() == followed(
                        old(self)@.session_id,
                        old(self)@.request,
                        started(None).1,
                    )
                }
                &&& drained.compaction_due() ==> exists|elapsed: Option<u64>|
                    {
                        let compaction = Some(
                            match drained.compaction_refusal(elapsed) {
                                None => Ok(drained.compaction_frees()),
                                Some(why) => Err(why),
                            },
                        );
                        &&& elapsed is Some == drained.compacted
                        &&& final(self)@.session.state == #[trigger] session::after_pending(
                            old(self)@.session.state,
                            old(self)@.session.pending,
                        ).after_compaction(elapsed)
                        &&& final(self)@.run == started(compaction).0
                        &&& r.deep_view() == followed(
                            old(self)@.session_id,
                            old(self)@.request,
                            started(compaction).1,
                        )
                    }
            }),
            session::pending_recorded(
                old(self).log(),
                final(self).log(),
                old(self)@.session.state.turns.len(),
                old(self)@.session.pending,
            ),
    {
        let (run, step) = self.session.start_turn();
        self.run = run;
        self.follow(step)
    }

    /// Hands the turn under way the completion of its prompt, or why there is
    /// none.
    pub fn respond(&mut self, completion: Result<Response, ProviderError>) -> (r: LoopStep)
        requires
            old(self)@.run.phase is Completing,
        ensures
            final(self)@ == (LoopView {
                session: session::SessionView {
                    state: final(self)@.session.state,
                    ..old(self)@.session
                },
                run: final(self)@.run,
                ..old(self)@
            }),
            match completion {
                Err(e) => {
                    &&& final(self)@.run == (turn_loop::RunView {
                        phase: TurnPhase::Over,
                        ..old(self)@.run
                    })
                    &&& final(self)@.session == old(self)@.session
                    &&& final(self).log() == old(self).log()
                    &&& r.deep_view() == followed(
                        old(self)@.session_id,
                        old(self)@.request,
                        turn_loop::StepView {
                            notices: Seq::empty(),
                            next: turn_loop::NextView::Failed(
                                turn_loop::TurnErrorView::Provider(e.deep_view()),
                            ),
                        },
                    )
                },
                Ok(response) => {
                    let texts = turn_loop::response_texts(response.deep_view().content);
                    let said = turn_loop::said_text(response.deep_view().content);
                    let state = old(self)@.session.state;
                    &&& final(self)@.run == old(self)@.run.responded(response.deep_view())
                    &&& r.deep_view().events == proxy_frontend::notice_events(
                        old(self)@.session_id,
                        turn_loop::told_of(response.deep_view().content),
                    )
                    &&& final(self)@.session.state == turn_loop::after_completion(
                        state,
                        response.deep_view().content,
                    )
                    &&& texts.len() == 0 ==> {
                        &&& final(self)@.session.state == state
                        &&& final(self).log() == old(self).log()
                        &&& r.deep_view() == (LoopStepView {
                            events: Seq::empty(),
                            next: LoopNextView::CheckCancel,
                        })
                    }
                    &&& texts.len() > 0 ==> {
                        &&& final(self)@.session.state == state.after_response(said)
                        &&& context::recorded(
                            old(self).log(),
                            final(self).log(),
                            state.current_turn(),
                            session_events::Happening::AssistantResponse { text: said },
                        )
                        &&& r.deep_view() == (LoopStepView {
                            events: seq![
                                protocol::KernelEventView::TextOutput {
                                    session_id: old(self)@.session_id,
                                    text: said,
                                },
                            ],
                            next: LoopNextView::CheckCancel,
                        })
                    }
                },
            },
    {
        let ghost given = completion;
        let step = self.session.respond(&mut self.run, completion);
        let r = self.follow(step);
        proof {
            let sid = old(self)@.session_id;
            match given {
                Ok(response) => {
                    let texts = turn_loop::response_texts(response.deep_view().content);
                    let said = turn_loop::said_text(response.deep_view().content);
                    if texts.len() == 0 {
                        assert(r.deep_view().events =~= Seq::empty());
                    } else {
                        assert(r.deep_view().events =~= seq![
                            protocol::KernelEventView::TextOutput { session_id: sid, text: said },
                        ]);
                    }
                },
                Err(_) => {},
            }
        }
        r
    }

    /// Has the turn under way deal with its next call, or end.
    pub fn next_call(&mut self) -> (r: LoopStep)
        requires
            old(self)@.run.phase is Dispatching,
        ensures
            ({
                let before = old(self)@;
                let done = before.run.next_call(
                    before.session.cancelled,
                    before.session.policy,
                    before.session.tools,
                );
                &&& final(self)@ == (LoopView {
                    session: session::SessionView {
                        state: turn_loop::after_answer(before.session.state, done.answer),
                        ..before.session
                    },
                    run: done.run,
                    request: request_after(before.request, done.step),
                    ..before
                })
                &&& r.deep_view() == followed(before.session_id, before.request, done.step)
                &&& turn_loop::answer_recorded(
                    old(self).log(),
                    final(self).log(),
                    before.session.state.current_turn(),
                    done.answer,
                )
            }),
    {
        let step = self.session.next_call(&mut self.run);
        self.follow(step)
    }

    /// Hands the turn under way the answer to its permission request. Where no
    /// answer came, the call is denied.
    pub fn decide(&mut self, answer: Option<PermissionResponse>) -> (r: LoopStep)
        requires
            old(self)@.run.phase is Asking,
        ensures
            ({
                let before = old(self)@;
                let done = before.run.decided(
                    proxy_frontend::decision_on(proxy_frontend::answer_view(answer)),
                );
                &&& final(self)@ == (LoopView {
                    session: session::SessionView {
                        state: turn_loop::after_answer(before.session.state, done.answer),
                        ..before.session
                    },
                    run: done.run,
                    ..before
                })
                &&& r.deep_view() == followed(before.session_id, before.request, done.step)
                &&& turn_loop::answer_recorded(
                    old(self).log(),
                    final(self).log(),
                    before.session.state.current_turn(),
                    done.answer,
                )
            }),
    {
        let decision = ProxyFrontend::decision(answer);
        let step = self.session.decide(&mut self.run, decision);
        self.follow(step)
    }

    /// Hands the turn under way the outcome of executing its call.
    pub fn complete_call(&mut self, result: Result<ToolOutput, ToolError>) -> (r: LoopStep)
        requires
            old(self)@.run.phase is Executing,
        ensures
            ({
                let before = old(self)@;
                let done = before.run.executed(turn_loop::outcome(result));
                let stale = match result {
                    Ok(output) => output.deep_view().invalidations,
                    Err(_) => Seq::empty(),
                };
                let state = before.session.state.after_invalidations(stale);
                &&& final(self)@ == (LoopView {
                    session: session::SessionView {
                        state: turn_loop::after_answer(state, done.answer),
                        ..before.session
                    },
                    run: done.run,
                    ..before
                })
                &&& r.deep_view() == followed(before.session_id, before.request, done.step)
                &&& turn_loop::answer_recorded(
                    old(self).log(),
                    final(self).log(),
                    state.current_turn(),
                    done.answer,
                )
            }),
    {
        let step = self.session.complete_call(&mut self.run, result);
        self.follow(step)
    }
}

// ---------------------------------------------------------------------------
// Laws
// ---------------------------------------------------------------------------

/// Whenever the loop goes back to waiting for a request after a turn, the last
/// that it tells is that the turn ended: the frontend can take input again.
pub proof fn law_a_yield_is_told(session_id: SessionId, request: u64, step: turn_loop::StepView)
    ensures
        ({
            let told = followed(session_id, request, step);
            told.next is Receive ==> told.events.len() > 0 && told.events.last() is TurnEnded
        }),
{
}

/// A turn that fails is told as an error that can be recovered from, and then
/// as ended, and the loop goes on.
pub proof fn law_failures_do_not_end_the_loop(
    session_id: SessionId,
    request: u64,
    error: turn_loop::TurnErrorView,
)
    ensures
        ({
            let told = followed(
                session_id,
                request,
                turn_loop::StepView {
                    notices: Seq::empty(),
                    next: turn_loop::NextView::Failed(error),
                },
            );
            &&& told.next == LoopNextView::Receive
            &&& told.events.len() == 2
            &&& told.events[0] == (protocol::KernelEventView::Error {
                session_id: Some(session_id),
                error: frontend::KernelErrorView { message: error.message(), recoverable: true },
            })
            &&& told.events[1] is TurnEnded
        }),
{
}

/// Only a request to shut down ends the loop.
pub proof fn law_only_shutdown_ends_the_loop(
    before: LoopView,
    request: protocol::KernelRequestView,
)
    ensures
        request_step(before, request).next is Stop <==> request is Shutdown,
{
}

/// All that a turn tells is sent, in order and before anything else, and what the
/// turn asks for is what the loop asks for.
pub proof fn law_steps_are_followed(
    session_id: SessionId,
    request: u64,
    step: turn_loop::StepView,
)
    ensures
        ({
            let told = followed(session_id, request, step);
            let n = step.notices.len() as int;
            &&& told.events.len() >= n
            &&& told.events.take(n) == proxy_frontend::notice_events(session_id, step.notices)
            &&& match step.next {
                turn_loop::NextView::Complete(prompt) => told.next == LoopNextView::Complete(prompt)
                    && told.events.len() == n,
                turn_loop::NextView::CheckCancel => told.next is CheckCancel && told.events.len()
                    == n,
                turn_loop::NextView::Execute { tool, tool_name, input } => told.next == (
                LoopNextView::Execute { tool, tool_name, input }) && told.events.len() == n,
                turn_loop::NextView::Ask(asked) => told.next is AwaitDecision && told.events.len()
                    == n + 1 && told.events[n] == (protocol::KernelEventView::PermissionRequired {
                    session_id,
                    request_id: RequestId(request),
                    request: asked,
                }),
                turn_loop::NextView::Done(result) => if result.continues {
                    told.next is StartTurn && told.events.len() == n
                } else {
                    told.next is Receive && told.events.len() == n + 1 && (
                    told.events[n] matches protocol::KernelEventView::TurnEnded {
                        session_id: s,
                        turn_id,
                        result: r,
                    } && s == session_id && turn_id == result.turn_id && r.tool_calls_dispatched
                        == result.tool_calls_dispatched && r.tool_calls_denied
                        == result.tool_calls_denied && r.was_cancelled == result.was_cancelled
                        && r.input_tokens == result.usage.input_tokens && r.output_tokens
                        == result.usage.output_tokens)
                },
                turn_loop::NextView::Failed(_) => told.next is Receive && told.events.len() == n
                    + 2,
            }
        }),
{
    let told = followed(session_id, request, step);
    let n = step.notices.len() as int;
    assert(told.events.take(n) =~= proxy_frontend::notice_events(session_id, step.notices));
}

/// Every permission request has an id of its own, as long as the ids last.
pub proof fn law_requests_have_new_ids(request: u64, step: turn_loop::StepView)
    ensures
        step.next is Ask && request < u64::MAX ==> request_after(request, step) == request + 1,
        !(step.next is Ask) ==> request_after(request, step) == request,
{
}

/// What requests do to a session: input starts a turn, an event waits for the next
/// one, a cancellation holds until then, and a policy replaces the last. Each
/// leaves everything else as it was.
pub proof fn law_requests_change_the_session(
    before: session::SessionView,
    session_id: SessionId,
    text: Seq<char>,
    event: protocol::ExternalEventView,
    policy: policy::PolicyView,
)
    ensures
        ({
            let after = after_request(
                before,
                protocol::KernelRequestView::AddInput { session_id, text },
            );
            let said = after.state.turns.last();
            &&& after.state.turns.len() == before.state.turns.len() + 1
            &&& said.input.role == Role::User
            &&& said.input.content == seq![types::ContentView::Text(text)]
            &&& after == (session::SessionView { state: after.state, ..before })
        }),
        ({
            let after = after_request(
                before,
                protocol::KernelRequestView::DeliverEvent { session_id, event },
            );
            &&& after.pending.len() == before.pending.len() + 1
            &&& after.pending.drop_last() == before.pending
            &&& after.pending.last().message() == "["@ + event.source + "] "@ + event.event_type
                + ": "@ + json::json_text(event.payload)
            &&& after == (session::SessionView { pending: after.pending, ..before })
        }),
        after_request(before, protocol::KernelRequestView::CancelTurn { session_id }) == (
        session::SessionView { cancelled: true, ..before }),
        after_request(before, protocol::KernelRequestView::SetPolicy { session_id, policy }) == (
        session::SessionView { policy, ..before }),
        after_request(before, protocol::KernelRequestView::QuerySession { session_id }) == before,
        after_request(before, protocol::KernelRequestView::Shutdown) == before,
{
    let after = after_request(
        before,
        protocol::KernelRequestView::DeliverEvent { session_id, event },
    );
    assert(after.pending.drop_last() =~= before.pending);
}

/// Input starts a turn, a query is answered with the tokens, the window and the
/// turns of the session, and any other request leaves the loop waiting.
pub proof fn law_requests_are_answered(
    before: LoopView,
    session_id: SessionId,
    text: Seq<char>,
    request: protocol::KernelRequestView,
)
    ensures
        request_step(before, protocol::KernelRequestView::AddInput { session_id, text }).next
            is StartTurn,
        ({
            let step = request_step(
                before,
                protocol::KernelRequestView::QuerySession { session_id },
            );
            &&& step.next is Receive
            &&& step.events.len() == 1
            &&& step.events[0] matches protocol::KernelEventView::SessionStatus {
                session_id: s,
                tokens_used,
                utilization,
                turn_count,
            } && s == before.session_id && tokens_used == before.session.state.tokens_used as usize
                && utilization.used == tokens_used && utilization.window
                == before.session.state.config.context_window && turn_count
                == before.session.state.turns.len() as usize
        }),
        !(request is AddInput) && !(request is Shutdown) ==> request_step(before, request).next
            is Receive,
        !(request is QuerySession) ==> request_step(before, request).events.len() == 0,
{
}

/// A compaction is told with what it freed, or with why nothing was done.
pub proof fn law_compactions_are_told(
    session_id: SessionId,
    before: context::ContextState,
    elapsed: Option<u64>,
)
    ensures
        match before.compaction_refusal(elapsed) {
            None => compaction_event(
                session_id,
                before,
                elapsed,
            ) matches protocol::KernelEventView::CompactionHappened { session_id: s, summary } && s
                == session_id && summary.tokens_freed == before.compaction_frees() as usize
                && summary.turns_before == before.turns.len() as usize && summary.turns_after
                == before.after_compaction(elapsed).turns.len() as usize,
            Some(why) => compaction_event(
                session_id,
                before,
                elapsed,
            ) matches protocol::KernelEventView::Error { session_id: s, error } && s == Some(
                session_id,
            ) && error.message == why && error.recoverable,
        },
{
}

/// The session of a loop is the one that was asked for: fresh, and under the given
/// policy, in the given workspace, with the given tools and limits.
pub proof fn law_the_session_is_as_asked(
    session_id: SessionId,
    create: protocol::SessionCreateView,
    tools: Seq<ToolSchema>,
    config: ContextConfig,
)
    ensures
        ({
            let s = created_session(session_id, create, tools, config);
            &&& s.id == session_id && s.mode == create.mode && s.workspace == create.workspace
            &&& s.policy == create.policy && s.tools == tools
            &&& s.completion == create.completion_config
            &&& s.max_calls == create.resource_budget.max_tool_invocations_per_turn
            &&& s.max_tokens == create.resource_budget.max_tokens_per_session
            &&& s.next_turn == 0 && !s.cancelled && s.pending.len() == 0
            &&& s.state.turns.len() == 0
            &&& s.state.prompt().system == create.system_prompt
        }),
{
}

} // verus!
