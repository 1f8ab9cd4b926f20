//! Sessions: each owns its turn loop, its context, its permissions and its
//! tools. The session manager is the process table.

use crate::context;
use crate::context::{ContextConfig, ContextManager, Utilization};
use crate::context_store::{ContextStore, InMemoryContextStore};
use crate::permission::PermissionEvaluator;
use crate::policy;
use crate::policy::Policy;
use crate::provider::{ProviderError, Response};
use crate::session_events;
use crate::session_events::{NullSink, SessionEventSink};
use crate::tool::{ToolError, ToolOutput, ToolSchema};
use crate::turn_loop;
use crate::turn_loop::{TurnLoop, TurnPhase, TurnRun, TurnStep};
use crate::types;
use crate::types::{
    CompletionConfig, Decision, Invalidation, ResourceBudget, Role, SessionId, SessionMode, TurnId,
};
use vstd::prelude::*;
use vstd::string::*;

verus! {

/// Configuration for creating a new session.
#[derive(Debug)]
pub struct SessionConfig {
    pub mode: SessionMode,
    pub system_prompt: String,
    pub context_config: ContextConfig,
    pub completion_config: CompletionConfig,
    pub policy: Policy,
    pub resource_budget: ResourceBudget,
    pub workspace: String,
}

// ---------------------------------------------------------------------------
// Pending results
// ---------------------------------------------------------------------------

/// A pending result delivered to a session between turns.
#[derive(Debug)]
pub enum PendingResult {
    ChildCompleted { task: String, message: String, invalidations: Vec<Invalidation> },
    ExternalEvent { source: String, event_type: String, summary: String },
}

#[verifier::ext_equal]
pub ghost enum PendingView {
    ChildCompleted {
        task: Seq<char>,
        message: Seq<char>,
        invalidations: Seq<types::InvalidationView>,
    },
    ExternalEvent { source: Seq<char>, event_type: Seq<char>, summary: Seq<char> },
}

impl DeepView for PendingResult {
    type V = PendingView;

    open spec fn deep_view(&self) -> PendingView {
        match self {
            PendingResult::ChildCompleted { task, message, invalidations } =>
            PendingView::ChildCompleted {
                task: task@,
                message: message@,
                invalidations: invalidations.deep_view(),
            },
            PendingResult::ExternalEvent { source, event_type, summary } =>
            PendingView::ExternalEvent {
                source: source@,
                event_type: event_type@,
                summary: summary@,
            },
        }
    }
}

impl PendingView {
    /// What the model is told of the result.
    pub open spec fn message(self) -> Seq<char> {
        match self {
            PendingView::ChildCompleted { task, message, invalidations } => "Background agent '"@
                + task + "' completed: "@ + message,
            PendingView::ExternalEvent { source, event_type, summary } => "["@ + source + "] "@
                + event_type + ": "@ + summary,
        }
    }

    /// What the result made stale.
    pub open spec fn stale(self) -> Seq<types::InvalidationView> {
        match self {
            PendingView::ChildCompleted { invalidations, .. } => invalidations,
            PendingView::ExternalEvent { .. } => Seq::empty(),
        }
    }
}

impl PendingResult {
    /// What the model is told of the result.
    pub fn message(&self) -> (r: String)
        ensures
            r@ == self.deep_view().message(),
    {
        match self {
            PendingResult::ChildCompleted { task, message, .. } => {
                let mut r = "Background agent '".to_owned();
                r.push_str(task.as_str());
                r.push_str("' completed: ");
                r.push_str(message.as_str());
                r
            },
            PendingResult::ExternalEvent { source, event_type, summary } => {
                let mut r = "[".to_owned();
                r.push_str(source.as_str());
                r.push_str("] ");
                r.push_str(event_type.as_str());
                r.push_str(": ");
                r.push_str(summary.as_str());
                r
            },
        }
    }
}

/// The context after some pending results were taken in.
pub open spec fn after_pending(
    state: context::ContextState,
    pending: Seq<PendingView>,
) -> context::ContextState
    decreases pending.len(),
{
    if pending.len() == 0 {
        state
    } else {
        after_pending(state, pending.drop_last()).after_turn_start(
            Role::System,
            pending.last().message(),
        ).after_invalidations(pending.last().stale())
    }
}

/// Whether the log grew by one system message for each pending result.
pub open spec fn pending_recorded(
    before: Seq<session_events::EventView>,
    after: Seq<session_events::EventView>,
    turn: nat,
    pending: Seq<PendingView>,
) -> bool {
    &&& after.len() == before.len() + pending.len()
    &&& after.take(before.len() as int) == before
    &&& forall|i: int|
        0 <= i < pending.len() ==> (#[trigger] after[before.len() + i]).what
            == (session_events::Happening::SystemMessage { text: pending[i].message() })
            && after[before.len() + i].turn_index == turn + i
}

proof fn lemma_invalidations_keep_turns(
    state: context::ContextState,
    what: Seq<types::InvalidationView>,
)
    ensures
        state.after_invalidations(what).turns == state.turns,
    decreases what.len(),
{
    if what.len() > 0 {
        lemma_invalidations_keep_turns(state, what.drop_last());
    }
}

proof fn lemma_pending_turns(state: context::ContextState, pending: Seq<PendingView>)
    ensures
        after_pending(state, pending).turns.len() == state.turns.len() + pending.len(),
    decreases pending.len(),
{
    if pending.len() > 0 {
        lemma_pending_turns(state, pending.drop_last());
        lemma_invalidations_keep_turns(
            after_pending(state, pending.drop_last()).after_turn_start(
                Role::System,
                pending.last().message(),
            ),
            pending.last().stale(),
        );
    }
}

// ---------------------------------------------------------------------------
// Sessions
// ---------------------------------------------------------------------------

/// A single session.
pub struct Session<S: ContextStore, E: SessionEventSink> {
    pub id: SessionId,
    pub mode: SessionMode,
    pub workspace: String,
    pub(crate) context: ContextManager<S, E>,
    permission: PermissionEvaluator,
    turn_loop: TurnLoop,
    tools: Vec<ToolSchema>,
    pending_results: Vec<PendingResult>,
    /// Whether the turn under way is to stop dispatching tools.
    cancelled: bool,
    max_tokens: usize,
}

#[verifier::ext_equal]
pub ghost struct SessionView {
    pub id: SessionId,
    pub mode: SessionMode,
    pub workspace: Seq<char>,
    pub state: context::ContextState,
    pub policy: policy::PolicyView,
    /// The id of the next turn.
    pub next_turn: u64,
    /// The most calls that a turn may dispatch or deny.
    pub max_calls: nat,
    pub completion: types::CompletionConfigView,
    pub tools: Seq<ToolSchema>,
    pub pending: Seq<PendingView>,
    pub cancelled: bool,
    pub max_tokens: usize,
}

impl<S: ContextStore, E: SessionEventSink> View for Session<S, E> {
    type V = SessionView;

    closed spec fn view(&self) -> SessionView {
        SessionView {
            id: self.id,
            mode: self.mode,
            workspace: self.workspace@,
            state: self.context.state(),
            policy: self.permission@,
            next_turn: self.turn_loop.next_id(),
            max_calls: self.turn_loop.max_calls(),
            completion: self.turn_loop.completion(),
            tools: self.tools@,
            pending: self.pending_results.deep_view(),
            cancelled: self.cancelled,
            max_tokens: self.max_tokens,
        }
    }
}

impl<S: ContextStore, E: SessionEventSink> Session<S, E> {
    /// The events recorded so far.
    pub closed spec fn log(&self) -> Seq<session_events::EventView> {
        self.context.log()
    }

    pub fn new(
        id: SessionId,
        mode: SessionMode,
        workspace: String,
        context: ContextManager<S, E>,
        permission: PermissionEvaluator,
        turn_loop: TurnLoop,
        tools: Vec<ToolSchema>,
        max_tokens: usize,
    ) -> (r: Self)
        ensures
            r@ == (SessionView {
                id,
                mode,
                workspace: workspace@,
                state: context.state(),
                policy: permission@,
                next_turn: turn_loop.next_id(),
                max_calls: turn_loop.max_calls(),
                completion: turn_loop.completion(),
                tools: tools@,
                pending: Seq::empty(),
                cancelled: false,
                max_tokens,
            }),
            r.log() == context.log(),
    {
        let pending_results: Vec<PendingResult> = Vec::new();
        assert(pending_results.deep_view() =~= Seq::empty());
        Session {
            id,
            mode,
            workspace,
            context,
            permission,
            turn_loop,
            tools,
            pending_results,
            cancelled: false,
            max_tokens,
        }
    }

    /// Takes in the pending results, between turns and never within one.
    fn drain_pending(&mut self)
        ensures
            final(self)@ == (SessionView {
                state: after_pending(old(self)@.state, old(self)@.pending),
                pending: Seq::empty(),
                ..old(self)@
            }),
            pending_recorded(
                old(self).log(),
                final(self).log(),
                old(self)@.state.turns.len(),
                old(self)@.pending,
            ),
    {
        let ghost start = self@;
        let ghost log = self.log();
        let ghost all = self.pending_results.deep_view();
        let mut i: usize = 0;
        assert(all.take(0) =~= Seq::empty());
        assert(log.take(log.len() as int) =~= log);
        while i < self.pending_results.len()
            invariant
                all == start.pending,
                all == self.pending_results.deep_view(),
                i <= all.len() == self.pending_results@.len(),
                self@ == (SessionView {
                    state: after_pending(start.state, all.take(i as int)),
                    ..start
                }),
                pending_recorded(log, self.log(), start.state.turns.len(), all.take(i as int)),
            decreases all.len() - i,
        {
            let ghost before = self.log();
            let ghost state = self@.state;
            proof {
                lemma_pending_turns(start.state, all.take(i as int));
                assert(all.take(i + 1).drop_last() =~= all.take(i as int));
            }
            let message = self.pending_results[i].message();
            let ghost said = message@;
            self.context.append_system_message(message);
            match &self.pending_results[i] {
                PendingResult::ChildCompleted { invalidations, .. } => {
                    self.context.process_invalidations(invalidations);
                },
                PendingResult::ExternalEvent { .. } => {},
            }
            proof {
                let after = self.log();
                assert(after.drop_last() == before);
                assert(forall|k: int| 0 <= k < before.len() ==> after[k] == before[k]) by {
                    assert(forall|k: int|
                        0 <= k < before.len() ==> after.drop_last()[k] == after[k]);
                }
                assert(after.take(log.len() as int) =~= before.take(log.len() as int));
                assert(all.take(i + 1).last() == all[i as int]);
            }
            i += 1;
        }
        assert(all.take(i as int) =~= all);
        self.pending_results = Vec::new();
        assert(self.pending_results.deep_view() =~= Seq::empty());
    }

    /// Starts a turn: takes in the pending results, forgets an earlier
    /// cancellation, compacts the context where that is due, and assembles the
    /// prompt.
    pub fn start_turn(&mut self) -> (r: (TurnRun, TurnStep))
        ensures
            ({
                let drained = after_pending(old(self)@.state, old(self)@.pending);
                &&& final(self)@ == (SessionView {
                    state: final(self)@.state,
                    pending: Seq::empty(),
                    cancelled: false,
                    next_turn: final(self)@.next_turn,
                    ..old(self)@
                })
                &&& final(self)@.next_turn == (if old(self)@.next_turn == u64::MAX {
                    0
                } else {
                    old(self)@.next_turn + 1
                })
                &&& !drained.compaction_due() ==> {
                    &&& final(self)@.state == drained
                    &&& (r.0@, r.1.deep_view()) == turn_loop::started(
                        TurnId(old(self)@.next_turn),
                        old(self)@.max_calls,
                        final(self)@.state,
                        old(self)@.tools,
                        None,
                    )
                }
                &&& drained.compaction_due() ==> exists|elapsed: Option<u64>|
                    #![trigger after_pending(old(self)@.state, old(self)@.pending).after_compaction(elapsed)]
                    {
                        &&& elapsed is Some == drained.compacted
                        &&& final(self)@.state == drained.after_compaction(elapsed)
                        &&& (r.0@, r.1.deep_view()) == turn_loop::started(
                            TurnId(old(self)@.next_turn),
                            old(self)@.max_calls,
                            final(self)@.state,
                            old(self)@.tools,
                            Some(
                                match drained.compaction_refusal(elapsed) {
                                    None => Ok(drained.compaction_frees()),
                                    Some(why) => Err(why),
                                },
                            ),
                        )
                    }
            }),
            pending_recorded(
                old(self).log(),
                final(self).log(),
                old(self)@.state.turns.len(),
                old(self)@.pending,
            ),
    {
        self.drain_pending();
        self.cancelled = false;
        self.turn_loop.start_turn(&mut self.context, &self.tools)
    }

    /// Hands a turn the completion of its prompt, or why there is none.
    pub fn respond(
        &mut self,
        run: &mut TurnRun,
        completion: Result<Response, ProviderError>,
    ) -> (r: TurnStep)
        requires
            old(run)@.phase is Completing,
        ensures
            final(self)@ == (SessionView { state: final(self)@.state, ..old(self)@ }),
            match completion {
                Err(e) => {
                    &&& final(run)@ == (turn_loop::RunView {
                        phase: TurnPhase::Over,
                        ..old(run)@
                    })
                    &&& final(self)@.state == old(self)@.state
                    &&& final(self).log() == old(self).log()
                    &&& r.deep_view() == (turn_loop::StepView {
                        notices: Seq::empty(),
                        next: turn_loop::NextView::Failed(
                            turn_loop::TurnErrorView::Provider(e.deep_view()),
                        ),
                    })
                },
                Ok(response) => {
                    let texts = turn_loop::response_texts(response.deep_view().content);
                    let said = turn_loop::said_text(response.deep_view().content);
                    &&& final(run)@ == old(run)@.responded(response.deep_view())
                    &&& r.deep_view().notices == turn_loop::told_of(response.deep_view().content)
                    &&& final(self)@.state == turn_loop::after_completion(
                        old(self)@.state,
                        response.deep_view().content,
                    )
                    &&& texts.len() == 0 ==> {
                        &&& final(self)@.state == old(self)@.state
                        &&& final(self).log() == old(self).log()
                        &&& r.deep_view() == (turn_loop::StepView {
                            notices: Seq::empty(),
                            next: turn_loop::NextView::CheckCancel,
                        })
                    }
                    &&& texts.len() > 0 ==> {
                        &&& final(self)@.state == old(self)@.state.after_response(said)
                        &&& context::recorded(
                            old(self).log(),
                            final(self).log(),
                            old(self)@.state.current_turn(),
                            session_events::Happening::AssistantResponse { text: said },
                        )
                        &&& r.deep_view() == (turn_loop::StepView {
                            notices: seq![turn_loop::NoticeView::Text(said)],
                            next: turn_loop::NextView::CheckCancel,
                        })
                    }
                },
            },
    {
        run.respond(completion, &mut self.context)
    }

    /// Has a turn deal with its next call, or end.
    pub fn next_call(&mut self, run: &mut TurnRun) -> (r: TurnStep)
        requires
            old(run)@.phase is Dispatching,
        ensures
            ({
                let before = old(self)@;
                let done = old(run)@.next_call(before.cancelled, before.policy, before.tools);
                &&& final(run)@ == done.run
                &&& r.deep_view() == done.step
                &&& final(self)@ == (SessionView {
                    state: turn_loop::after_answer(before.state, done.answer),
                    ..before
                })
                &&& turn_loop::answer_recorded(
                    old(self).log(),
                    final(self).log(),
                    before.state.current_turn(),
                    done.answer,
                )
            }),
    {
        run.next_call(self.cancelled, &mut self.context, &self.permission, &self.tools)
    }

    /// Hands a turn the user's decision on the call at hand.
    pub fn decide(&mut self, run: &mut TurnRun, decision: Decision) -> (r: TurnStep)
        requires
            old(run)@.phase is Asking,
        ensures
            ({
                let before = old(self)@;
                let done = old(run)@.decided(decision.deep_view());
                &&& final(run)@ == done.run
                &&& r.deep_view() == done.step
                &&& final(self)@ == (SessionView {
                    state: turn_loop::after_answer(before.state, done.answer),
                    ..before
                })
                &&& turn_loop::answer_recorded(
                    old(self).log(),
                    final(self).log(),
                    before.state.current_turn(),
                    done.answer,
                )
            }),
    {
        run.decide(decision, &mut self.context)
    }

    /// Hands a turn the outcome of executing the call at hand.
    pub fn complete_call(
        &mut self,
        run: &mut TurnRun,
        result: Result<ToolOutput, ToolError>,
    ) -> (r: TurnStep)
        requires
            old(run)@.phase is Executing,
        ensures
            ({
                let before = old(self)@;
                let done = old(run)@.executed(turn_loop::outcome(result));
                let stale = match result {
                    Ok(output) => output.deep_view().invalidations,
                    Err(_) => Seq::empty(),
                };
                let state = before.state.after_invalidations(stale);
                &&& final(run)@ == done.run
                &&& r.deep_view() == done.step
                &&& final(self)@ == (SessionView {
                    state: turn_loop::after_answer(state, done.answer),
                    ..before
                })
                &&& turn_loop::answer_recorded(
                    old(self).log(),
                    final(self).log(),
                    state.current_turn(),
                    done.answer,
                )
            }),
    {
        run.complete_call(result, &mut self.context)
    }

    /// Adds user input, which starts a new turn.
    pub fn add_user_input(&mut self, text: String)
        ensures
            final(self)@ == (SessionView {
                state: old(self)@.state.after_turn_start(Role::User, text@),
                ..old(self)@
            }),
            context::recorded(
                old(self).log(),
                final(self).log(),
                old(self)@.state.turns.len(),
                session_events::Happening::UserInput { text: text@ },
            ),
    {
        self.context.append_user_input(text);
    }

    /// Delivers a result, which the session takes in before its next turn.
    pub fn deliver(&mut self, result: PendingResult)
        ensures
            final(self)@ == (SessionView {
                pending: old(self)@.pending.push(result.deep_view()),
                ..old(self)@
            }),
            final(self).log() == old(self).log(),
    {
        let ghost before = self.pending_results.deep_view();
        let ghost added = result.deep_view();
        self.pending_results.push(result);
        assert(self.pending_results.deep_view() =~= before.push(added));
    }

    /// How many results wait to be taken in.
    pub fn pending_count(&self) -> (n: usize)
        ensures
            n == self@.pending.len(),
    {
        self.pending_results.len()
    }

    /// The context manager.
    pub fn context(&self) -> (r: &ContextManager<S, E>)
        ensures
            r.state() == self@.state,
            r.log() == self.log(),
    {
        &self.context
    }

    /// The tools.
    pub fn tools(&self) -> (r: &Vec<ToolSchema>)
        ensures
            r@ == self@.tools,
    {
        &self.tools
    }

    /// What the provider is told of every completion.
    pub fn completion_config(&self) -> (r: &CompletionConfig)
        ensures
            r.deep_view() == self@.completion,
    {
        self.turn_loop.config()
    }

    /// Swaps the policy.
    pub fn set_policy(&mut self, policy: Policy)
        ensures
            final(self)@ == (SessionView { policy: policy.deep_view(), ..old(self)@ }),
            final(self).log() == old(self).log(),
    {
        self.permission.set_policy(policy);
    }

    /// The tokens in use.
    pub fn tokens_used(&self) -> (n: usize)
        ensures
            n == self@.state.tokens_used,
    {
        self.context.tokens_used()
    }

    /// How much of the context window is in use.
    pub fn context_utilization(&self) -> (r: Utilization)
        ensures
            r.used == self@.state.tokens_used,
            r.window == self@.state.config.context_window,
    {
        self.context.utilization()
    }

    /// The number of turns in the history.
    pub fn turn_count(&self) -> (n: usize)
        ensures
            n == self@.state.turns.len(),
    {
        self.context.turn_count()
    }

    /// Has the turn under way stop dispatching tools.
    pub fn cancel(&mut self)
        ensures
            final(self)@ == (SessionView { cancelled: true, ..old(self)@ }),
            final(self).log() == old(self).log(),
    {
        self.cancelled = true;
    }

    /// Compacts the context. Returns the tokens freed, or why nothing was done.
    pub fn request_compaction(&mut self) -> (r: Result<usize, String>)
        ensures
            final(self)@ == (SessionView { state: final(self)@.state, ..old(self)@ }),
            exists|elapsed: Option<u64>|
                {
                    &&& elapsed is Some == old(self)@.state.compacted
                    &&& final(self)@.state == #[trigger] old(self)@.state.after_compaction(elapsed)
                    &&& match r {
                        Ok(freed) => old(self)@.state.compaction_refusal(elapsed) is None && freed
                            == old(self)@.state.compaction_frees(),
                        Err(e) => old(self)@.state.compaction_refusal(elapsed) == Some(e@),
                    }
                },
            final(self).log() == old(self).log(),
    {
        let ghost before = self@.state;
        let r = self.context.compact();
        proof {
            let elapsed = choose|elapsed: Option<u64>|
                {
                    &&& elapsed is Some == before.compacted
                    &&& self.context.state() == #[trigger] before.after_compaction(elapsed)
                    &&& match r {
                        Ok(freed) => before.compaction_refusal(elapsed) is None && freed
                            == before.compaction_frees(),
                        Err(e) => before.compaction_refusal(elapsed) == Some(e@),
                    }
                };
            assert(self@.state == before.after_compaction(elapsed));
        }
        r
    }

    /// Takes in an invalidation that another session caused.
    pub fn process_invalidation(&mut self, invalidation: &Invalidation)
        ensures
            final(self)@ == (SessionView {
                state: old(self)@.state.after_invalidation(invalidation.deep_view()),
                ..old(self)@
            }),
            final(self).log() == old(self).log(),
    {
        self.context.process_invalidation(invalidation);
    }
}

// ---------------------------------------------------------------------------
// The session manager
// ---------------------------------------------------------------------------

/// The session manager: the process table, which owns all running sessions.
pub struct SessionManager<S: ContextStore, E: SessionEventSink> {
    sessions: Vec<Session<S, E>>,
    next_id: u64,
    global_budget: ResourceBudget,
}

/// Where the first session of the given id stands, from position `from` on.
pub open spec fn find_session(
    sessions: Seq<SessionView>,
    id: SessionId,
    from: int,
) -> int
    decreases sessions.len() - from,
{
    if from < 0 || from >= sessions.len() {
        -1
    } else if sessions[from].id == id {
        from
    } else {
        find_session(sessions, id, from + 1)
    }
}

/// A new session.
pub open spec fn new_session(
    id: SessionId,
    config: SessionConfig,
    tools: Seq<ToolSchema>,
) -> SessionView {
    SessionView {
        id,
        mode: config.mode,
        workspace: config.workspace@,
        state: context::initial_state(config.context_config, config.system_prompt@, Seq::empty()),
        policy: config.policy.deep_view(),
        next_turn: 0,
        max_calls: config.resource_budget.max_tool_invocations_per_turn as nat,
        completion: config.completion_config.deep_view(),
        tools,
        pending: Seq::empty(),
        cancelled: false,
        max_tokens: config.resource_budget.max_tokens_per_session,
    }
}

/// The sessions after an invalidation that one of them caused: all the others
/// took it in.
pub open spec fn after_propagation(
    sessions: Seq<SessionView>,
    source: SessionId,
    what: types::InvalidationView,
) -> Seq<SessionView> {
    Seq::new(
        sessions.len(),
        |i: int|
            if sessions[i].id == source {
                sessions[i]
            } else {
                SessionView {
                    state: sessions[i].state.after_invalidation(what),
                    ..sessions[i]
                }
            },
    )
}

impl<S: ContextStore, E: SessionEventSink> SessionManager<S, E> {
    /// The running sessions.
    pub closed spec fn list(&self) -> Seq<Session<S, E>> {
        self.sessions@
    }

    /// The id of the next session.
    pub closed spec fn next(&self) -> u64 {
        self.next_id
    }

    /// What the running sessions hold.
    pub open spec fn views(&self) -> Seq<SessionView> {
        Seq::new(self.list().len(), |i: int| self.list()[i]@)
    }

    /// Whether the ids count up from zero, in the order in which the sessions
    /// were started.
    pub open spec fn in_order(&self) -> bool {
        &&& self.next() == self.list().len()
        &&& forall|i: int|
            0 <= i < self.list().len() ==> (#[trigger] self.list()[i])@.id == SessionId(i as u64)
    }

    pub fn new(global_budget: ResourceBudget) -> (r: Self)
        ensures
            r.list().len() == 0,
            r.next() == 0,
            r.in_order(),
    {
        SessionManager { sessions: Vec::new(), next_id: 0, global_budget }
    }

    fn add_session(&mut self, session: Session<S, E>)
        requires
            session@.id == SessionId(old(self).next()),
        ensures
            final(self).list() == old(self).list().push(session),
            final(self).next() == (if old(self).next() == u64::MAX {
                0
            } else {
                old(self).next() + 1
            }),
            old(self).in_order() ==> final(self).in_order(),
    {
        let ghost before = *self;
        self.sessions.push(session);
        let count: usize = self.sessions.len();
        self.next_id = self.next_id.wrapping_add(1);
        assert(before.in_order() ==> self.in_order()) by {
            if before.in_order() {
                assert(count <= u64::MAX);
                assert forall|i: int| 0 <= i < self.list().len() implies (
                #[trigger] self.list()[i])@.id == SessionId(i as u64) by {
                    if i < before.list().len() {
                        assert(self.list()[i] == before.list()[i]);
                    }
                }
            }
        }
    }

    /// The session of the given id.
    pub fn get(&self, id: SessionId) -> (r: Option<&Session<S, E>>)
        ensures
            match r {
                Some(session) => {
                    let at = find_session(self.views(), id, 0);
                    0 <= at < self.list().len() && *session == self.list()[at]
                },
                None => find_session(self.views(), id, 0) == -1,
            },
    {
        match self.position(id) {
            Some(i) => Some(&self.sessions[i]),
            None => None,
        }
    }

    /// The session of the given id, to change.
    pub fn get_mut(&mut self, id: SessionId) -> (r: Option<&mut Session<S, E>>)
        ensures
            final(self).next() == old(self).next(),
            match r {
                Some(session) => {
                    let at = find_session(old(self).views(), id, 0);
                    &&& 0 <= at < old(self).list().len()
                    &&& *session == old(self).list()[at]
                    &&& final(self).list() == old(self).list().update(at, *final(session))
                },
                None => find_session(old(self).views(), id, 0) == -1 && final(self).list() == old(
                    self,
                ).list(),
            },
    {
        match self.position(id) {
            Some(i) => Some(&mut self.sessions[i]),
            None => None,
        }
    }

    fn position(&self, id: SessionId) -> (r: Option<usize>)
        ensures
            match r {
                Some(i) => find_session(self.views(), id, 0) == i && i < self.list().len(),
                None => find_session(self.views(), id, 0) == -1,
            },
    {
        let mut i: usize = 0;
        while i < self.sessions.len()
            invariant
                i <= self.list().len(),
                find_session(self.views(), id, 0) == find_session(self.views(), id, i as int),
            decreases self.list().len() - i,
        {
            assert(self.views()[i as int].id == self.sessions@[i as int].id);
            if self.sessions[i].id == id {
                return Some(i);
            }
            i += 1;
        }
        None
    }

    /// The number of running sessions.
    pub fn active_count(&self) -> (n: usize)
        ensures
            n == self.list().len(),
    {
        self.sessions.len()
    }

    /// Hands an invalidation that one session caused to all the others.
    pub fn propagate_invalidation(&mut self, source: SessionId, invalidation: &Invalidation)
        ensures
            final(self).views() == after_propagation(
                old(self).views(),
                source,
                invalidation.deep_view(),
            ),
            final(self).next() == old(self).next(),
            forall|i: int|
                0 <= i < old(self).list().len() ==> (#[trigger] final(self).list()[i]).log() == old(
                    self,
                ).list()[i].log(),
    {
        let ghost start = *self;
        let ghost done = after_propagation(start.views(), source, invalidation.deep_view());
        let mut i: usize = 0;
        while i < self.sessions.len()
            invariant
                i <= self.list().len() == start.list().len(),
                self.next() == start.next(),
                done == after_propagation(start.views(), source, invalidation.deep_view()),
                forall|k: int|
                    0 <= k < i ==> (#[trigger] self.list()[k])@ == done[k] && self.list()[k].log()
                        == start.list()[k].log(),
                forall|k: int|
                    i <= k < start.list().len() ==> #[trigger] self.list()[k] == start.list()[k],
            decreases self.list().len() - i,
        {
            let ghost before = *self;
            assert(self.list()[i as int] == start.list()[i as int]);
            assert(start.views()[i as int] == start.list()[i as int]@);
            if self.sessions[i].id != source {
                self.sessions[i].process_invalidation(invalidation);
            }
            assert(forall|k: int|
                0 <= k < self.list().len() && k != i ==> #[trigger] self.list()[k]
                    == before.list()[k]);
            i += 1;
        }
        assert(self.views() =~= done);
    }
}

impl SessionManager<InMemoryContextStore, NullSink> {
    /// Starts an interactive session that keeps no events.
    pub fn spawn_interactive(
        &mut self,
        config: SessionConfig,
        tools: Vec<ToolSchema>,
    ) -> (id: SessionId)
        ensures
            id == SessionId(old(self).next()),
            final(self).next() == (if old(self).next() == u64::MAX {
                0
            } else {
                old(self).next() + 1
            }),
            final(self).list().len() == old(self).list().len() + 1,
            final(self).list().drop_last() == old(self).list(),
            final(self).list().last()@ == new_session(id, config, tools@),
            old(self).in_order() ==> final(self).in_order(),
    {
        let id = SessionId(self.next_id);
        let context = ContextManager::new(config.context_config, config.system_prompt);
        let session = Session::new(
            id,
            config.mode,
            config.workspace,
            context,
            PermissionEvaluator::new(config.policy),
            TurnLoop::new(
                config.completion_config,
                config.resource_budget.max_tool_invocations_per_turn,
            ),
            tools,
            config.resource_budget.max_tokens_per_session,
        );
        let ghost before = self.list();
        self.add_session(session);
        assert(self.list().drop_last() =~= before);
        id
    }
}

impl<E: SessionEventSink> SessionManager<InMemoryContextStore, E> {
    /// Starts an interactive session with the given event sink, in which its
    /// start is recorded.
    pub fn spawn_interactive_with_events(
        &mut self,
        config: SessionConfig,
        tools: Vec<ToolSchema>,
        events: E,
    ) -> (id: SessionId)
        ensures
            id == SessionId(old(self).next()),
            final(self).next() == (if old(self).next() == u64::MAX {
                0
            } else {
                old(self).next() + 1
            }),
            final(self).list().len() == old(self).list().len() + 1,
            final(self).list().drop_last() == old(self).list(),
            final(self).list().last()@ == new_session(id, config, tools@),
            context::recorded(
                events.log(),
                final(self).list().last().log(),
                0,
                session_events::Happening::SessionStarted {
                    workspace: config.workspace@,
                    system_prompt: config.system_prompt@,
                    policy_name: config.policy.name@,
                    fingerprint: None,
                },
            ),
            old(self).in_order() ==> final(self).in_order(),
    {
        let id = SessionId(self.next_id);
        let policy_name = config.policy.name.clone();
        let workspace = config.workspace.clone();
        let mut context = ContextManager::with_event_sink(
            config.context_config,
            config.system_prompt,
            events,
        );
        context.record_session_started(workspace, policy_name);
        let session = Session::new(
            id,
            config.mode,
            config.workspace,
            context,
            PermissionEvaluator::new(config.policy),
            TurnLoop::new(
                config.completion_config,
                config.resource_budget.max_tool_invocations_per_turn,
            ),
            tools,
            config.resource_budget.max_tokens_per_session,
        );
        let ghost before = self.list();
        self.add_session(session);
        assert(self.list().drop_last() =~= before);
        id
    }
}

// ---------------------------------------------------------------------------
// Laws
// ---------------------------------------------------------------------------

/// As long as the ids count up, no two sessions have the same id, each is found
/// by its own, and the next to start gets one that none has.
pub proof fn law_session_ids_are_unique<S: ContextStore, E: SessionEventSink>(
    manager: SessionManager<S, E>,
    i: int,
    j: int,
)
    requires
        manager.in_order(),
        0 <= i < manager.list().len(),
        0 <= j < manager.list().len(),
    ensures
        manager.list()[i]@.id == manager.list()[j]@.id <==> i == j,
        find_session(manager.views(), manager.list()[i]@.id, 0) == i,
        manager.list()[i]@.id != SessionId(manager.next()),
{
    assert(manager.list()[i]@.id == SessionId(i as u64));
    assert(manager.list()[j]@.id == SessionId(j as u64));
    lemma_find_session(manager, i, 0);
}

proof fn lemma_find_session<S: ContextStore, E: SessionEventSink>(
    manager: SessionManager<S, E>,
    i: int,
    from: int,
)
    requires
        manager.in_order(),
        0 <= from <= i < manager.list().len(),
    ensures
        find_session(manager.views(), manager.list()[i]@.id, from) == i,
    decreases i - from,
{
    assert(manager.list()[i]@.id == SessionId(i as u64));
    assert(manager.list()[from]@.id == SessionId(from as u64));
    if from < i {
        lemma_find_session(manager, i, from + 1);
    }
}

/// An invalidation reaches every session but the one that caused it, and
/// touches nothing but what the sessions have cached.
pub proof fn law_invalidations_reach_all_others(
    sessions: Seq<SessionView>,
    source: SessionId,
    what: types::InvalidationView,
    i: int,
)
    requires
        0 <= i < sessions.len(),
    ensures
        ({
            let after = after_propagation(sessions, source, what);
            &&& after.len() == sessions.len()
            &&& after[i].id == sessions[i].id
            &&& sessions[i].id == source ==> after[i] == sessions[i]
            &&& sessions[i].id != source ==> after[i].state == sessions[i].state.after_invalidation(
                what,
            )
            &&& after[i].state.turns == sessions[i].state.turns
            &&& after[i].state.tokens_used == sessions[i].state.tokens_used
            &&& after[i].pending == sessions[i].pending
        }),
{
}

/// Results that were delivered are taken in one after the other. Each becomes a
/// turn of its own, with a system message that says where it came from and what it
/// came to, and what it made stale is forgotten.
pub proof fn law_results_are_taken_in_order(
    state: context::ContextState,
    a: Seq<PendingView>,
    b: Seq<PendingView>,
    one: PendingView,
)
    ensures
        after_pending(state, a + b) == after_pending(after_pending(state, a), b),
        after_pending(state, seq![one]) == state.after_turn_start(
            Role::System,
            one.message(),
        ).after_invalidations(one.stale()),
        after_pending(state, a).turns.len() == state.turns.len() + a.len(),
        after_pending(state, seq![one]).turns == state.turns.push(
            context::new_turn(Role::System, one.message()),
        ),
    decreases b.len(),
{
    reveal_with_fuel(after_pending, 2);
    assert(seq![one].drop_last() =~= Seq::empty());
    lemma_pending_turns(state, a);
    lemma_invalidations_keep_turns(
        state.after_turn_start(Role::System, one.message()),
        one.stale(),
    );
    if b.len() == 0 {
        assert(a + b =~= a);
    } else {
        assert((a + b).drop_last() =~= a + b.drop_last());
        law_results_are_taken_in_order(state, a, b.drop_last(), one);
    }
}

/// What the model is told of a result names the task, or the source and the type of
/// the event, and holds what came of it.
pub proof fn law_results_are_told(
    task: Seq<char>,
    message: Seq<char>,
    invalidations: Seq<types::InvalidationView>,
    source: Seq<char>,
    event_type: Seq<char>,
    summary: Seq<char>,
)
    ensures
        ({
            let child = PendingView::ChildCompleted { task, message, invalidations };
            &&& child.message() == "Background agent '"@ + task + "' completed: "@ + message
            &&& child.stale() == invalidations
        }),
        ({
            let event = PendingView::ExternalEvent { source, event_type, summary };
            &&& event.message() == "["@ + source + "] "@ + event_type + ": "@ + summary
            &&& event.stale().len() == 0
        }),
{
}

/// A new session has nothing behind it: no turn, no tool in context, nothing
/// pending, and the tokens of its system prompt. It works under the policy, in the
/// workspace and with the limits that it was given.
pub proof fn law_a_new_session_is_fresh(
    id: SessionId,
    config: SessionConfig,
    tools: Seq<ToolSchema>,
)
    ensures
        ({
            let s = new_session(id, config, tools);
            &&& s.id == id && s.mode == config.mode && s.workspace == config.workspace@
            &&& s.policy == config.policy.deep_view()
            &&& s.tools == tools
            &&& s.completion == config.completion_config.deep_view()
            &&& s.max_calls == config.resource_budget.max_tool_invocations_per_turn
            &&& s.max_tokens == config.resource_budget.max_tokens_per_session
            &&& s.next_turn == 0 && !s.cancelled && s.pending.len() == 0
            &&& s.state.turns.len() == 0 && s.state.tools.len() == 0
            &&& s.state.config == config.context_config
            &&& s.state.tokens_used == context::token_estimate(config.system_prompt@)
            &&& s.state.failures == 0 && !s.state.compacted
            &&& s.state.prompt().system == config.system_prompt@
            &&& s.state.prompt().messages.len() == 0
            &&& s.state.file_cache == Map::<Seq<char>, Seq<char>>::empty()
        }),
{
}

/// Every result that is taken in is recorded, in order, as a system message with
/// what the model is told of it, behind all that was recorded before.
pub proof fn law_results_are_recorded(
    before: Seq<session_events::EventView>,
    after: Seq<session_events::EventView>,
    turn: nat,
    pending: Seq<PendingView>,
    i: int,
)
    requires
        pending_recorded(before, after, turn, pending),
        0 <= i < pending.len(),
    ensures
        after.len() == before.len() + pending.len(),
        forall|k: int| 0 <= k < before.len() ==> #[trigger] after[k] == before[k],
        after[before.len() + i].what matches session_events::Happening::SystemMessage { text }
            && text == pending[i].message(),
        after[before.len() + i].turn_index == turn + i,
{
    assert forall|k: int| 0 <= k < before.len() implies #[trigger] after[k] == before[k] by {
        assert(after.take(before.len() as int)[k] == after[k]);
    }
}

} // verus!
