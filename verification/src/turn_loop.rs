//! The turn loop: one turn assembles a prompt, has the model complete it, and
//! passes every tool call that the model makes through the dispatch gate.
//!
//! A turn is a state machine. It asks for the work that only its host can do
//! (a completion, a tool execution, a user's decision) and is handed what came
//! of it.

use crate::context;
use crate::context::ContextManager;
use crate::context_store::ContextStore;
use crate::frontend;
use crate::frontend::{CompactionSummary, KernelError, PermissionRequest};
use crate::json;
use crate::json::Json;
use crate::permission;
use crate::permission::PermissionEvaluator;
use crate::policy;
use crate::provider;
use crate::provider::{ProviderError, Response, StopReason, Usage};
use crate::session_events;
use crate::session_events::SessionEventSink;
use crate::text;
use crate::text::{decimal_of, joined, same};
use crate::tool;
use crate::tool::{ToolError, ToolOutput, ToolSchema};
use crate::types;
use crate::types::{CompletionConfig, Content, Decision, Prompt, TurnId};
use vstd::prelude::*;
use vstd::string::*;

verus! {

// ---------------------------------------------------------------------------
// Results
// ---------------------------------------------------------------------------

/// The result of running a single turn.
#[derive(Debug, Clone, Copy, PartialEq, Eq, Structural)]
pub struct TurnResult {
    pub turn_id: TurnId,
    /// Whether the model wants to go on, or yielded to the user.
    pub continues: bool,
    /// Number of tool calls dispatched this turn.
    pub tool_calls_dispatched: usize,
    /// Number of tool calls denied.
    pub tool_calls_denied: usize,
    /// Whether the turn was cancelled.
    pub was_cancelled: bool,
    /// Tokens that the completion took.
    pub usage: Usage,
}

/// Errors that can end a turn.
#[derive(Debug)]
pub enum TurnError {
    /// The provider returned an error.
    Provider(ProviderError),
    /// Compaction was due but failed.
    CompactionFailed(String),
    /// Resource budget exceeded.
    BudgetExceeded(String),
}

pub ghost enum TurnErrorView {
    Provider(provider::ProviderErrorView),
    CompactionFailed(Seq<char>),
    BudgetExceeded(Seq<char>),
}

impl DeepView for TurnError {
    type V = TurnErrorView;

    open spec fn deep_view(&self) -> TurnErrorView {
        match self {
            TurnError::Provider(e) => TurnErrorView::Provider(e.deep_view()),
            TurnError::CompactionFailed(m) => TurnErrorView::CompactionFailed(m@),
            TurnError::BudgetExceeded(m) => TurnErrorView::BudgetExceeded(m@),
        }
    }
}

impl TurnErrorView {
    /// The message of the error.
    pub open spec fn message(self) -> Seq<char> {
        match self {
            TurnErrorView::Provider(e) => "provider error: "@ + e.message(),
            TurnErrorView::CompactionFailed(m) => "compaction failed: "@ + m,
            TurnErrorView::BudgetExceeded(m) => "budget exceeded: "@ + m,
        }
    }
}

impl TurnError {
    /// The message of the error.
    pub fn message(&self) -> (r: String)
        ensures
            r@ == self.deep_view().message(),
    {
        match self {
            TurnError::Provider(e) => {
                let mut r = "provider error: ".to_owned();
                r.push_str(e.message().as_str());
                r
            },
            TurnError::CompactionFailed(m) => {
                let mut r = "compaction failed: ".to_owned();
                r.push_str(m.as_str());
                r
            },
            TurnError::BudgetExceeded(m) => {
                let mut r = "budget exceeded: ".to_owned();
                r.push_str(m.as_str());
                r
            },
        }
    }
}

// ---------------------------------------------------------------------------
// Notices and steps
// ---------------------------------------------------------------------------

/// What the frontend is told in the course of a turn.
#[derive(Debug)]
pub enum TurnNotice {
    Started(TurnId),
    Compacted(CompactionSummary),
    Text(String),
    ToolCall { tool_name: String, input: Json },
    ToolResult { tool_name: String, output: ToolOutput },
    Error(KernelError),
    Ended(TurnId),
}

#[verifier::ext_equal]
pub ghost enum NoticeView {
    Started(TurnId),
    Compacted(CompactionSummary),
    Text(Seq<char>),
    ToolCall { tool_name: Seq<char>, input: json::JsonView },
    ToolResult { tool_name: Seq<char>, output: tool::ToolOutputView },
    Error(frontend::KernelErrorView),
    Ended(TurnId),
}

impl DeepView for TurnNotice {
    type V = NoticeView;

    open spec fn deep_view(&self) -> NoticeView {
        match self {
            TurnNotice::Started(id) => NoticeView::Started(*id),
            TurnNotice::Compacted(summary) => NoticeView::Compacted(*summary),
            TurnNotice::Text(t) => NoticeView::Text(t@),
            TurnNotice::ToolCall { tool_name, input } => NoticeView::ToolCall {
                tool_name: tool_name@,
                input: input.deep_view(),
            },
            TurnNotice::ToolResult { tool_name, output } => NoticeView::ToolResult {
                tool_name: tool_name@,
                output: output.deep_view(),
            },
            TurnNotice::Error(e) => NoticeView::Error(e.deep_view()),
            TurnNotice::Ended(id) => NoticeView::Ended(*id),
        }
    }
}

/// What a turn needs next.
#[derive(Debug)]
pub enum TurnNext {
    /// A completion of the prompt.
    Complete(Prompt),
    /// Whether the turn was cancelled meanwhile.
    CheckCancel,
    /// An execution of the tool at this position.
    Execute { tool: usize, tool_name: String, input: Json },
    /// The user's decision.
    Ask(PermissionRequest),
    /// Nothing: the turn is over.
    Done(TurnResult),
    /// Nothing: the turn failed.
    Failed(TurnError),
}

#[verifier::ext_equal]
pub ghost enum NextView {
    Complete(types::PromptView),
    CheckCancel,
    Execute { tool: usize, tool_name: Seq<char>, input: json::JsonView },
    Ask(frontend::PermissionRequestView),
    Done(TurnResult),
    Failed(TurnErrorView),
}

impl DeepView for TurnNext {
    type V = NextView;

    open spec fn deep_view(&self) -> NextView {
        match self {
            TurnNext::Complete(prompt) => NextView::Complete(prompt.deep_view()),
            TurnNext::CheckCancel => NextView::CheckCancel,
            TurnNext::Execute { tool, tool_name, input } => NextView::Execute {
                tool: *tool,
                tool_name: tool_name@,
                input: input.deep_view(),
            },
            TurnNext::Ask(request) => NextView::Ask(request.deep_view()),
            TurnNext::Done(result) => NextView::Done(*result),
            TurnNext::Failed(e) => NextView::Failed(e.deep_view()),
        }
    }
}

/// One step of a turn: what the frontend is told, and what is needed next.
#[derive(Debug)]
pub struct TurnStep {
    pub notices: Vec<TurnNotice>,
    pub next: TurnNext,
}

#[verifier::ext_equal]
pub ghost struct StepView {
    pub notices: Seq<NoticeView>,
    pub next: NextView,
}

impl DeepView for TurnStep {
    type V = StepView;

    open spec fn deep_view(&self) -> StepView {
        StepView { notices: self.notices.deep_view(), next: self.next.deep_view() }
    }
}

fn quiet(next: TurnNext) -> (r: TurnStep)
    ensures
        r.deep_view() == (StepView { notices: Seq::empty(), next: next.deep_view() }),
{
    let notices: Vec<TurnNotice> = Vec::new();
    assert(notices.deep_view() =~= Seq::empty());
    TurnStep { notices, next }
}

fn telling(notice: TurnNotice, next: TurnNext) -> (r: TurnStep)
    ensures
        r.deep_view() == (StepView {
            notices: seq![notice.deep_view()],
            next: next.deep_view(),
        }),
{
    let ghost said = notice.deep_view();
    let mut notices: Vec<TurnNotice> = Vec::new();
    notices.push(notice);
    assert(notices.deep_view() =~= seq![said]);
    TurnStep { notices, next }
}

// ---------------------------------------------------------------------------
// Calls
// ---------------------------------------------------------------------------

/// A tool call that the model made.
#[derive(Debug)]
pub struct ModelCall {
    pub name: String,
    pub input: Json,
}

#[verifier::ext_equal]
pub ghost struct CallView {
    pub name: Seq<char>,
    pub input: json::JsonView,
}

impl DeepView for ModelCall {
    type V = CallView;

    open spec fn deep_view(&self) -> CallView {
        CallView { name: self.name@, input: self.input.deep_view() }
    }
}

/// The texts of a response.
pub open spec fn response_texts(content: Seq<types::ContentView>) -> Seq<Seq<char>>
    decreases content.len(),
{
    if content.len() == 0 {
        Seq::empty()
    } else {
        let rest = response_texts(content.drop_last());
        match content.last() {
            types::ContentView::Text(t) => rest.push(t),
            _ => rest,
        }
    }
}

/// What a response says: its texts, put together.
pub open spec fn said_text(content: Seq<types::ContentView>) -> Seq<char> {
    text::join(response_texts(content), ""@)
}

/// What is told of a response: what it says, where it says anything.
pub open spec fn told_of(content: Seq<types::ContentView>) -> Seq<NoticeView> {
    if response_texts(content).len() == 0 {
        Seq::empty()
    } else {
        seq![NoticeView::Text(said_text(content))]
    }
}

/// The context after a response: what it says is kept, where it says anything.
pub open spec fn after_completion(
    state: context::ContextState,
    content: Seq<types::ContentView>,
) -> context::ContextState {
    if response_texts(content).len() == 0 {
        state
    } else {
        state.after_response(said_text(content))
    }
}

/// The tool calls of a response.
pub open spec fn response_calls(content: Seq<types::ContentView>) -> Seq<CallView>
    decreases content.len(),
{
    if content.len() == 0 {
        Seq::empty()
    } else {
        let rest = response_calls(content.drop_last());
        match content.last() {
            types::ContentView::ToolCall { id, name, input } => rest.push(CallView { name, input }),
            _ => rest,
        }
    }
}

/// The texts and the tool calls of a response.
pub fn parse_response(response: &Response) -> (r: (Vec<String>, Vec<ModelCall>))
    ensures
        r.0.deep_view() == response_texts(response.deep_view().content),
        r.1.deep_view() == response_calls(response.deep_view().content),
{
    let ghost content = response.deep_view().content;
    let mut texts: Vec<String> = Vec::new();
    let mut calls: Vec<ModelCall> = Vec::new();
    let mut i: usize = 0;
    assert(texts.deep_view() =~= Seq::empty());
    assert(calls.deep_view() =~= Seq::empty());
    while i < response.content.len()
        invariant
            content == response.deep_view().content,
            i <= content.len(),
            texts.deep_view() == response_texts(content.take(i as int)),
            calls.deep_view() == response_calls(content.take(i as int)),
        decreases content.len() - i,
    {
        let ghost texts_before = texts.deep_view();
        let ghost calls_before = calls.deep_view();
        assert(content.take(i + 1).drop_last() =~= content.take(i as int));
        match &response.content[i] {
            Content::Text(t) => {
                texts.push(t.clone());
                assert(texts.deep_view() =~= texts_before.push(t@));
            },
            Content::ToolCall { id, name, input } => {
                calls.push(ModelCall { name: name.clone(), input: input.clone() });
                assert(calls.deep_view() =~= calls_before.push(
                    CallView { name: name@, input: input.deep_view() },
                ));
            },
            Content::ToolResult { .. } => {},
        }
        i += 1;
    }
    assert(content.take(i as int) =~= content);
    (texts, calls)
}

/// Where the first tool of the given name stands, from position `from` on.
pub open spec fn find_tool(tools: Seq<ToolSchema>, name: Seq<char>, from: int) -> int
    decreases tools.len() - from,
{
    if from < 0 || from >= tools.len() {
        -1
    } else if tools[from].name@ == name {
        from
    } else {
        find_tool(tools, name, from + 1)
    }
}

/// Where the first tool of the given name stands.
pub fn tool_position(tools: &Vec<ToolSchema>, name: &str) -> (r: Option<usize>)
    ensures
        match r {
            Some(i) => find_tool(tools@, name@, 0) == i && i < tools@.len(),
            None => find_tool(tools@, name@, 0) == -1,
        },
{
    let mut i: usize = 0;
    while i < tools.len()
        invariant
            i <= tools@.len(),
            find_tool(tools@, name@, 0) == find_tool(tools@, name@, i as int),
        decreases tools@.len() - i,
    {
        if same(tools[i].name.as_str(), name) {
            return Some(i);
        }
        i += 1;
    }
    None
}

/// What the model is told where no tool has the name that it called.
pub open spec fn not_found_result(name: Seq<char>) -> json::JsonView {
    json::json_object().with("error"@, json::JsonView::Str("tool_not_found"@)).with(
        "name"@,
        json::JsonView::Str(name),
    )
}

/// What the model is told where it made more calls than a turn may have.
pub open spec fn budget_result(message: Seq<char>) -> json::JsonView {
    json::json_object().with("error"@, json::JsonView::Str("budget_exceeded"@)).with(
        "message"@,
        json::JsonView::Str(message),
    )
}

/// What the model is told where a tool failed.
pub open spec fn failed_result(message: Seq<char>) -> json::JsonView {
    json::json_object().with("error"@, json::JsonView::Str("execution_failed"@)).with(
        "message"@,
        json::JsonView::Str(message),
    )
}

/// The message that a turn had more calls than it may have.
pub open spec fn budget_message(max: nat) -> Seq<char> {
    "max tool invocations per turn ("@ + text::decimal(max) + ") exceeded"@
}

// ---------------------------------------------------------------------------
// A turn under way
// ---------------------------------------------------------------------------

/// What a turn under way waits for.
#[derive(Debug, Clone, Copy, PartialEq, Eq, Structural)]
pub enum TurnPhase {
    /// The completion of the prompt.
    Completing,
    /// Word whether the turn was cancelled.
    Dispatching,
    /// The user's decision on a call of the tool at this position.
    Asking(usize),
    /// The outcome of a tool execution.
    Executing,
    /// Nothing.
    Over,
}

/// A turn under way.
pub struct TurnRun {
    turn_id: TurnId,
    max: usize,
    calls: Vec<ModelCall>,
    stop_reason: StopReason,
    usage: Usage,
    progress: Progress,
}

/// How far a turn under way has come.
#[derive(Debug, Clone, Copy)]
struct Progress {
    at: usize,
    dispatched: usize,
    denied: usize,
    phase: TurnPhase,
}

#[verifier::ext_equal]
pub ghost struct RunView {
    pub turn_id: TurnId,
    /// The most calls that the turn may dispatch or deny.
    pub max: nat,
    /// The calls that the model made.
    pub calls: Seq<CallView>,
    /// How many of them are dealt with.
    pub at: nat,
    pub dispatched: nat,
    pub denied: nat,
    pub stop_reason: StopReason,
    pub usage: Usage,
    pub phase: TurnPhase,
}

/// A tool call with the result that the model is given.
#[verifier::ext_equal]
pub ghost struct Answer {
    pub name: Seq<char>,
    pub input: json::JsonView,
    pub result: json::JsonView,
}

/// One move of a turn: where the turn then is, the call that was answered, if
/// one was, and the step that is told.
#[verifier::ext_equal]
pub ghost struct Move {
    pub run: RunView,
    pub answer: Option<Answer>,
    pub step: StepView,
}

/// The outcome of a tool execution.
pub open spec fn outcome(r: Result<ToolOutput, ToolError>) -> Result<
    tool::ToolOutputView,
    tool::ToolErrorView,
> {
    match r {
        Ok(output) => Ok(output.deep_view()),
        Err(e) => Err(e.deep_view()),
    }
}

impl RunView {
    /// No more calls are dispatched or denied than may be, and the call that a
    /// decision or an outcome is awaited for is there and within the budget.
    pub open spec fn wf(self) -> bool {
        &&& self.at <= self.calls.len()
        &&& self.dispatched + self.denied <= self.max
        &&& self.dispatched + self.denied <= self.at
        &&& self.max <= usize::MAX
        &&& self.phase is Asking || self.phase is Executing ==> self.at < self.calls.len()
            && self.dispatched + self.denied < self.max
    }

    /// What the turn comes to if it ends here.
    pub open spec fn result(self, cancelled: bool) -> TurnResult {
        TurnResult {
            turn_id: self.turn_id,
            continues: !cancelled && self.stop_reason == StopReason::ToolUse && self.dispatched > 0,
            tool_calls_dispatched: self.dispatched as usize,
            tool_calls_denied: self.denied as usize,
            was_cancelled: cancelled,
            usage: self.usage,
        }
    }

    /// The end of the turn, after telling `notices`.
    pub open spec fn end(
        self,
        cancelled: bool,
        answer: Option<Answer>,
        notices: Seq<NoticeView>,
    ) -> Move {
        Move {
            run: RunView { phase: TurnPhase::Over, ..self },
            answer,
            step: StepView {
                notices: notices.push(NoticeView::Ended(self.turn_id)),
                next: NextView::Done(self.result(cancelled)),
            },
        }
    }

    /// The call at hand with its result.
    pub open spec fn answered(self, result: json::JsonView) -> Option<Answer> {
        let call = self.calls[self.at as int];
        Some(Answer { name: call.name, input: call.input, result })
    }

    /// The call at hand is denied, after telling `told`.
    pub open spec fn deny(self, reason: Seq<char>, told: Seq<NoticeView>) -> Move {
        Move {
            run: RunView {
                at: self.at + 1,
                denied: self.denied + 1,
                phase: TurnPhase::Dispatching,
                ..self
            },
            answer: self.answered(tool::denied_result(reason)),
            step: StepView { notices: told, next: NextView::CheckCancel },
        }
    }

    /// The call at hand is to be executed by the tool at position `tool`, after
    /// telling `told`.
    pub open spec fn execute(self, tool: usize, told: Seq<NoticeView>) -> Move {
        let call = self.calls[self.at as int];
        Move {
            run: RunView { phase: TurnPhase::Executing, ..self },
            answer: None,
            step: StepView {
                notices: told,
                next: NextView::Execute { tool, tool_name: call.name, input: call.input },
            },
        }
    }

    /// What becomes of the next call.
    pub open spec fn next_call(
        self,
        cancelled: bool,
        policy: policy::PolicyView,
        tools: Seq<ToolSchema>,
    ) -> Move {
        let call = self.calls[self.at as int];
        let found = find_tool(tools, call.name, 0);
        let told = seq![NoticeView::ToolCall { tool_name: call.name, input: call.input }];
        if self.at >= self.calls.len() {
            self.end(false, None, Seq::empty())
        } else if cancelled {
            self.end(true, None, Seq::empty())
        } else if self.dispatched + self.denied >= self.max {
            let message = budget_message(self.max);
            self.end(
                false,
                self.answered(budget_result(message)),
                seq![
                    NoticeView::Error(frontend::KernelErrorView { message, recoverable: true }),
                ],
            )
        } else if found < 0 {
            Move {
                run: RunView { at: self.at + 1, ..self },
                answer: self.answered(not_found_result(call.name)),
                step: StepView { notices: Seq::empty(), next: NextView::CheckCancel },
            }
        } else {
            match permission::gate(policy, tools[found].capabilities.list()) {
                types::DecisionView::Allow => self.execute(found as usize, told),
                types::DecisionView::Deny(reason) => self.deny(
                    reason,
                    told.push(
                        NoticeView::ToolResult {
                            tool_name: call.name,
                            output: tool::ToolOutputView {
                                result: tool::denied_result(reason),
                                invalidations: Seq::empty(),
                            },
                        },
                    ),
                ),
                types::DecisionView::Ask => Move {
                    run: RunView { phase: TurnPhase::Asking(found as usize), ..self },
                    answer: None,
                    step: StepView {
                        notices: told,
                        next: NextView::Ask(
                            frontend::PermissionRequestView {
                                tool_name: call.name,
                                capabilities: tools[found].capabilities.list(),
                                input_summary: json::json_text(call.input),
                            },
                        ),
                    },
                },
            }
        }
    }

    /// What becomes of the call at hand once the user has decided.
    pub open spec fn decided(self, decision: types::DecisionView) -> Move {
        match decision {
            types::DecisionView::Allow => self.execute(self.phase->Asking_0, Seq::empty()),
            types::DecisionView::Deny(reason) => self.deny(reason, Seq::empty()),
            types::DecisionView::Ask => self.deny("user did not decide"@, Seq::empty()),
        }
    }

    /// What becomes of the call at hand once the tool has run.
    pub open spec fn executed(
        self,
        outcome: Result<tool::ToolOutputView, tool::ToolErrorView>,
    ) -> Move {
        let call = self.calls[self.at as int];
        Move {
            run: RunView {
                at: self.at + 1,
                dispatched: self.dispatched + 1,
                phase: TurnPhase::Dispatching,
                ..self
            },
            answer: match outcome {
                Ok(output) => self.answered(output.result),
                Err(e) => self.answered(failed_result(e.message())),
            },
            step: StepView {
                notices: match outcome {
                    Ok(output) => seq![NoticeView::ToolResult { tool_name: call.name, output }],
                    Err(_) => Seq::empty(),
                },
                next: NextView::CheckCancel,
            },
        }
    }

    /// Where the turn is once the completion is there.
    pub open spec fn responded(self, response: provider::ResponseView) -> RunView {
        RunView {
            calls: response_calls(response.content),
            at: 0,
            dispatched: 0,
            denied: 0,
            stop_reason: response.stop_reason,
            usage: response.usage,
            phase: TurnPhase::Dispatching,
            ..self
        }
    }
}

/// The context after a call was answered, if one was.
pub open spec fn after_answer(
    state: context::ContextState,
    answer: Option<Answer>,
) -> context::ContextState {
    match answer {
        Some(a) => state.after_exchange(a.name, a.input, a.result),
        None => state,
    }
}

/// Whether the log grew by the call that was answered, if one was.
pub open spec fn answer_recorded(
    before: Seq<session_events::EventView>,
    after: Seq<session_events::EventView>,
    turn: nat,
    answer: Option<Answer>,
) -> bool {
    match answer {
        Some(a) => context::recorded(
            before,
            after,
            turn,
            session_events::Happening::ToolExchange {
                tool_name: a.name,
                input: a.input,
                result: a.result,
            },
        ),
        None => after == before,
    }
}

/// The prompt of a turn: the context's own, with the definitions of all tools
/// where the context has none.
pub open spec fn turn_prompt(
    state: context::ContextState,
    tools: Seq<ToolSchema>,
) -> types::PromptView {
    if state.tools.len() == 0 && tools.len() > 0 {
        types::PromptView {
            tool_definitions: Seq::new(tools.len(), |i: int| tools[i].definition_view()),
            ..state.prompt()
        }
    } else {
        state.prompt()
    }
}

/// The prompt of a turn.
pub fn prompt_for_turn<S: ContextStore, E: SessionEventSink>(
    context: &ContextManager<S, E>,
    tools: &Vec<ToolSchema>,
) -> (r: Prompt)
    ensures
        r.deep_view() == turn_prompt(context.state(), tools@),
{
    let mut prompt = context.assemble();
    assert(prompt.tool_definitions.deep_view().len() == context.state().tools.len());
    if prompt.tool_definitions.len() == 0 && tools.len() > 0 {
        let mut definitions: Vec<Json> = Vec::new();
        let ghost all = Seq::new(tools@.len(), |i: int| tools@[i].definition_view());
        let mut i: usize = 0;
        assert(definitions.deep_view() =~= all.take(0));
        while i < tools.len()
            invariant
                all == Seq::new(tools@.len(), |i: int| tools@[i].definition_view()),
                i <= tools@.len(),
                definitions.deep_view() == all.take(i as int),
            decreases tools@.len() - i,
        {
            let ghost before = definitions.deep_view();
            definitions.push(tools[i].definition());
            assert(definitions.deep_view() =~= before.push(all[i as int]));
            assert(all.take(i + 1) =~= all.take(i as int).push(all[i as int]));
            i += 1;
        }
        assert(all.take(i as int) =~= all);
        prompt.tool_definitions = definitions;
    }
    prompt
}

impl View for TurnRun {
    type V = RunView;

    closed spec fn view(&self) -> RunView {
        RunView {
            turn_id: self.turn_id,
            max: self.max as nat,
            calls: self.calls.deep_view(),
            at: self.progress.at as nat,
            dispatched: self.progress.dispatched as nat,
            denied: self.progress.denied as nat,
            stop_reason: self.stop_reason,
            usage: self.usage,
            phase: self.progress.phase,
        }
    }
}

impl TurnRun {
    #[verifier::type_invariant]
    spec fn inv(self) -> bool {
        self@.wf()
    }

    /// A turn that is over before it began.
    pub fn idle() -> (r: Self)
        ensures
            r@.phase is Over,
    {
        let r = TurnRun {
            turn_id: TurnId(0),
            max: 0,
            calls: Vec::new(),
            stop_reason: StopReason::EndTurn,
            usage: Usage::default(),
            progress: Progress { at: 0, dispatched: 0, denied: 0, phase: TurnPhase::Over },
        };
        r
    }

    /// The turn.
    pub fn turn_id(&self) -> (r: TurnId)
        ensures
            r == self@.turn_id,
    {
        self.turn_id
    }

    /// What the turn waits for.
    pub fn phase(&self) -> (r: TurnPhase)
        ensures
            r == self@.phase,
    {
        self.progress.phase
    }

    fn result(&self, was_cancelled: bool) -> (r: TurnResult)
        ensures
            r == self@.result(was_cancelled),
    {
        TurnResult {
            turn_id: self.turn_id,
            continues: !was_cancelled && self.stop_reason == StopReason::ToolUse && self.progress.dispatched
                > 0,
            tool_calls_dispatched: self.progress.dispatched,
            tool_calls_denied: self.progress.denied,
            was_cancelled,
            usage: self.usage,
        }
    }

    /// Takes in the completion of the prompt, or why there is none.
    pub fn respond<S: ContextStore, E: SessionEventSink>(
        &mut self,
        completion: Result<Response, ProviderError>,
        context: &mut ContextManager<S, E>,
    ) -> (r: TurnStep)
        requires
            old(self)@.phase is Completing,
        ensures
            match completion {
                Err(e) => {
                    &&& final(self)@ == (RunView { phase: TurnPhase::Over, ..old(self)@ })
                    &&& final(context).state() == old(context).state()
                    &&& final(context).log() == old(context).log()
                    &&& r.deep_view() == (StepView {
                        notices: Seq::empty(),
                        next: NextView::Failed(TurnErrorView::Provider(e.deep_view())),
                    })
                },
                Ok(response) => {
                    let texts = response_texts(response.deep_view().content);
                    let said = said_text(response.deep_view().content);
                    &&& final(self)@ == old(self)@.responded(response.deep_view())
                    &&& r.deep_view().notices == told_of(response.deep_view().content)
                    &&& final(context).state() == after_completion(
                        old(context).state(),
                        response.deep_view().content,
                    )
                    &&& texts.len() == 0 ==> {
                        &&& final(context).state() == old(context).state()
                        &&& final(context).log() == old(context).log()
                        &&& r.deep_view() == (StepView {
                            notices: Seq::empty(),
                            next: NextView::CheckCancel,
                        })
                    }
                    &&& texts.len() > 0 ==> {
                        &&& final(context).state() == old(context).state().after_response(said)
                        &&& context::recorded(
                            old(context).log(),
                            final(context).log(),
                            old(context).state().current_turn(),
                            session_events::Happening::AssistantResponse { text: said },
                        )
                        &&& r.deep_view() == (StepView {
                            notices: seq![NoticeView::Text(said)],
                            next: NextView::CheckCancel,
                        })
                    }
                },
            },
    {
        proof {
            use_type_invariant(&*self);
        }
        match completion {
            Err(e) => {
                self.progress.phase = TurnPhase::Over;
                quiet(TurnNext::Failed(TurnError::Provider(e)))
            },
            Ok(response) => {
                let (texts, calls) = parse_response(&response);
                assert(texts.deep_view().len() == texts@.len());
                *self = TurnRun {
                    turn_id: self.turn_id,
                    max: self.max,
                    calls,
                    stop_reason: response.stop_reason,
                    usage: response.usage,
                    progress: Progress {
                        at: 0,
                        dispatched: 0,
                        denied: 0,
                        phase: TurnPhase::Dispatching,
                    },
                };
                if texts.len() > 0 {
                    let said = joined(&texts, "");
                    context.append_assistant_response(said.clone());
                    telling(TurnNotice::Text(said), TurnNext::CheckCancel)
                } else {
                    quiet(TurnNext::CheckCancel)
                }
            },
        }
    }

    /// Deals with the next call, or ends the turn: because no call is left,
    /// because the turn was cancelled, or because its calls are used up.
    pub fn next_call<S: ContextStore, E: SessionEventSink>(
        &mut self,
        cancelled: bool,
        context: &mut ContextManager<S, E>,
        permission: &PermissionEvaluator,
        tools: &Vec<ToolSchema>,
    ) -> (r: TurnStep)
        requires
            old(self)@.phase is Dispatching,
        ensures
            ({
                let done = old(self)@.next_call(cancelled, permission@, tools@);
                &&& final(self)@ == done.run
                &&& r.deep_view() == done.step
                &&& final(context).state() == after_answer(old(context).state(), done.answer)
                &&& answer_recorded(
                    old(context).log(),
                    final(context).log(),
                    old(context).state().current_turn(),
                    done.answer,
                )
            }),
    {
        proof {
            use_type_invariant(&*self);
        }
        let ghost run = self@;
        assert(run.calls.len() == self.calls@.len());
        if self.progress.at >= self.calls.len() {
            self.progress.phase = TurnPhase::Over;
            let step = telling(
                TurnNotice::Ended(self.turn_id),
                TurnNext::Done(self.result(false)),
            );
            assert(step.deep_view().notices =~= Seq::empty().push(NoticeView::Ended(run.turn_id)));
            return step;
        }
        if cancelled {
            self.progress.phase = TurnPhase::Over;
            let step = telling(
                TurnNotice::Ended(self.turn_id),
                TurnNext::Done(self.result(true)),
            );
            assert(step.deep_view().notices =~= Seq::empty().push(NoticeView::Ended(run.turn_id)));
            return step;
        }
        let name: String = self.calls[self.progress.at].name.clone();
        let input: Json = self.calls[self.progress.at].input.clone();
        let ghost call = run.calls[run.at as int];
        assert(call.name == name@ && call.input == input.deep_view());
        if self.progress.dispatched + self.progress.denied >= self.max {
            let mut message = "max tool invocations per turn (".to_owned();
            message.push_str(decimal_of(self.max as u64).as_str());
            message.push_str(") exceeded");
            let result = Json::object().with("error", Json::text("budget_exceeded")).with(
                "message",
                Json::text(message.as_str()),
            );
            context.append_tool_exchange(name, input, result);
            self.progress.phase = TurnPhase::Over;
            let error = KernelError { message, recoverable: true };
            let ghost told = NoticeView::Error(error.deep_view());
            let mut notices: Vec<TurnNotice> = Vec::new();
            notices.push(TurnNotice::Error(error));
            notices.push(TurnNotice::Ended(self.turn_id));
            assert(notices.deep_view() =~= seq![told].push(NoticeView::Ended(run.turn_id)));
            return TurnStep { notices, next: TurnNext::Done(self.result(false)) };
        }
        match tool_position(tools, name.as_str()) {
            None => {
                let result = Json::object().with("error", Json::text("tool_not_found")).with(
                    "name",
                    Json::text(name.as_str()),
                );
                context.append_tool_exchange(name, input, result);
                self.progress.at = self.progress.at + 1;
                quiet(TurnNext::CheckCancel)
            },
            Some(i) => {
                let notice = TurnNotice::ToolCall { tool_name: name.clone(), input: input.clone() };
                match permission.evaluate(&tools[i]) {
                    Decision::Allow => {
                        self.progress.phase = TurnPhase::Executing;
                        telling(notice, TurnNext::Execute { tool: i, tool_name: name, input })
                    },
                    Decision::Deny(reason) => {
                        let output = ToolOutput::denied(reason.as_str());
                        let ghost said = output.deep_view();
                        let ghost told = notice.deep_view();
                        context.append_tool_exchange(name.clone(), input, output.result.clone());
                        let (at, denied) = (self.progress.at + 1, self.progress.denied + 1);
                        self.advance(at, self.progress.dispatched, denied);
                        let mut notices: Vec<TurnNotice> = Vec::new();
                        notices.push(notice);
                        notices.push(TurnNotice::ToolResult { tool_name: name, output });
                        assert(notices.deep_view() =~= seq![told].push(
                            NoticeView::ToolResult { tool_name: call.name, output: said },
                        ));
                        TurnStep { notices, next: TurnNext::CheckCancel }
                    },
                    Decision::Ask => {
                        let request = PermissionRequest {
                            tool_name: name,
                            capabilities: tools[i].capabilities.texts(),
                            input_summary: input.to_text(),
                        };
                        self.progress.phase = TurnPhase::Asking(i);
                        telling(notice, TurnNext::Ask(request))
                    },
                }
            },
        }
    }

    /// Takes in the user's decision on the call at hand.
    pub fn decide<S: ContextStore, E: SessionEventSink>(
        &mut self,
        decision: Decision,
        context: &mut ContextManager<S, E>,
    ) -> (r: TurnStep)
        requires
            old(self)@.phase is Asking,
        ensures
            ({
                let done = old(self)@.decided(decision.deep_view());
                &&& final(self)@ == done.run
                &&& r.deep_view() == done.step
                &&& final(context).state() == after_answer(old(context).state(), done.answer)
                &&& answer_recorded(
                    old(context).log(),
                    final(context).log(),
                    old(context).state().current_turn(),
                    done.answer,
                )
            }),
    {
        proof {
            use_type_invariant(&*self);
        }
        let ghost run = self@;
        let count: usize = self.calls.len();
        assert(run.at < count);
        let name: String = self.calls[self.progress.at].name.clone();
        let input: Json = self.calls[self.progress.at].input.clone();
        let ghost call = run.calls[run.at as int];
        assert(call.name == name@ && call.input == input.deep_view());
        let reason: String = match decision {
            Decision::Allow => {
                let tool: usize = match self.progress.phase {
                    TurnPhase::Asking(i) => i,
                    _ => 0,
                };
                self.progress.phase = TurnPhase::Executing;
                return quiet(TurnNext::Execute { tool, tool_name: name, input });
            },
            Decision::Deny(reason) => reason,
            Decision::Ask => "user did not decide".to_owned(),
        };
        context.append_tool_exchange(name, input, ToolOutput::denied(reason.as_str()).result);
        let (at, denied) = (self.progress.at + 1, self.progress.denied + 1);
        self.advance(at, self.progress.dispatched, denied);
        quiet(TurnNext::CheckCancel)
    }

    /// Takes in the outcome of executing the call at hand.
    pub fn complete_call<S: ContextStore, E: SessionEventSink>(
        &mut self,
        result: Result<ToolOutput, ToolError>,
        context: &mut ContextManager<S, E>,
    ) -> (r: TurnStep)
        requires
            old(self)@.phase is Executing,
        ensures
            ({
                let done = old(self)@.executed(outcome(result));
                let stale = match result {
                    Ok(output) => output.deep_view().invalidations,
                    Err(_) => Seq::empty(),
                };
                let state = old(context).state().after_invalidations(stale);
                &&& final(self)@ == done.run
                &&& r.deep_view() == done.step
                &&& final(context).state() == after_answer(state, done.answer)
                &&& answer_recorded(
                    old(context).log(),
                    final(context).log(),
                    state.current_turn(),
                    done.answer,
                )
            }),
    {
        proof {
            use_type_invariant(&*self);
        }
        let ghost run = self@;
        let count: usize = self.calls.len();
        assert(run.at < count);
        let name: String = self.calls[self.progress.at].name.clone();
        let input: Json = self.calls[self.progress.at].input.clone();
        let ghost call = run.calls[run.at as int];
        assert(call.name == name@ && call.input == input.deep_view());
        let (at, dispatched) = (self.progress.at + 1, self.progress.dispatched + 1);
        self.advance(at, dispatched, self.progress.denied);
        match result {
            Ok(output) => {
                context.process_invalidations(&output.invalidations);
                context.append_tool_exchange(name.clone(), input, output.result.clone());
                telling(TurnNotice::ToolResult { tool_name: name, output }, TurnNext::CheckCancel)
            },
            Err(e) => {
                let message = e.message();
                let failed = Json::object().with("error", Json::text("execution_failed")).with(
                    "message",
                    Json::text(message.as_str()),
                );
                context.append_tool_exchange(name, input, failed);
                quiet(TurnNext::CheckCancel)
            },
        }
    }

    fn advance(&mut self, at: usize, dispatched: usize, denied: usize)
        requires
            (RunView {
                at: at as nat,
                dispatched: dispatched as nat,
                denied: denied as nat,
                phase: TurnPhase::Dispatching,
                ..old(self)@
            }).wf(),
        ensures
            final(self)@ == (RunView {
                at: at as nat,
                dispatched: dispatched as nat,
                denied: denied as nat,
                phase: TurnPhase::Dispatching,
                ..old(self)@
            }),
    {
        self.progress = Progress { at, dispatched, denied, phase: TurnPhase::Dispatching };
    }
}

// ---------------------------------------------------------------------------
// The loop
// ---------------------------------------------------------------------------

/// The turn loop: the heartbeat that every other subsystem serves. There is
/// one for each session, and it runs one turn at a time.
pub struct TurnLoop {
    next_turn_id: u64,
    config: CompletionConfig,
    max_tool_invocations_per_turn: usize,
}

impl TurnLoop {
    /// The id of the next turn.
    pub closed spec fn next_id(&self) -> u64 {
        self.next_turn_id
    }

    /// The most calls that a turn may dispatch or deny.
    pub closed spec fn max_calls(&self) -> nat {
        self.max_tool_invocations_per_turn as nat
    }

    /// What the provider is told of every completion.
    pub closed spec fn completion(&self) -> types::CompletionConfigView {
        self.config.deep_view()
    }

    pub fn new(config: CompletionConfig, max_tool_invocations_per_turn: usize) -> (r: Self)
        ensures
            r.next_id() == 0,
            r.max_calls() == max_tool_invocations_per_turn,
            r.completion() == config.deep_view(),
    {
        TurnLoop { next_turn_id: 0, config, max_tool_invocations_per_turn }
    }

    /// What the provider is told of every completion.
    pub fn config(&self) -> (r: &CompletionConfig)
        ensures
            r.deep_view() == self.completion(),
    {
        &self.config
    }

    /// Starts a turn: compacts the context where that is due, and assembles
    /// the prompt. Turn ids count up, and wrap around after the last.
    pub fn start_turn<S: ContextStore, E: SessionEventSink>(
        &mut self,
        context: &mut ContextManager<S, E>,
        tools: &Vec<ToolSchema>,
    ) -> (r: (TurnRun, TurnStep))
        ensures
            final(self).next_id() == (if old(self).next_id() == u64::MAX {
                0
            } else {
                old(self).next_id() + 1
            }),
            final(self).max_calls() == old(self).max_calls(),
            final(self).completion() == old(self).completion(),
            final(context).log() == old(context).log(),
            !old(context).state().compaction_due() ==> {
                &&& final(context).state() == old(context).state()
                &&& (r.0@, r.1.deep_view()) == started(
                    TurnId(old(self).next_id()),
                    old(self).max_calls(),
                    final(context).state(),
                    tools@,
                    None,
                )
            },
            old(context).state().compaction_due() ==> exists|elapsed: Option<u64>|
                #![trigger old(context).state().after_compaction(elapsed)]
                {
                    let before = old(context).state();
                    &&& elapsed is Some == before.compacted
                    &&& final(context).state() == before.after_compaction(elapsed)
                    &&& (r.0@, r.1.deep_view()) == started(
                        TurnId(old(self).next_id()),
                        old(self).max_calls(),
                        final(context).state(),
                        tools@,
                        Some(
                            match before.compaction_refusal(elapsed) {
                                None => Ok(before.compaction_frees()),
                                Some(why) => Err(why),
                            },
                        ),
                    )
                },
    {
        let turn_id = TurnId(self.next_turn_id);
        self.next_turn_id = self.next_turn_id.wrapping_add(1);
        let ghost before = context.state();
        let mut notices: Vec<TurnNotice> = Vec::new();
        notices.push(TurnNotice::Started(turn_id));
        let ghost told = seq![NoticeView::Started(turn_id)];
        assert(notices.deep_view() =~= told);
        let mut run = TurnRun {
            turn_id,
            max: self.max_tool_invocations_per_turn,
            calls: Vec::new(),
            stop_reason: StopReason::EndTurn,
            usage: Usage::default(),
            progress: Progress {
                at: 0,
                dispatched: 0,
                denied: 0,
                phase: TurnPhase::Completing,
            },
        };
        assert(run@.calls =~= Seq::empty());
        if context.should_compact() {
            match context.compact() {
                Ok(freed) => {
                    let summary = CompactionSummary {
                        turns_before: context.turn_count(),
                        turns_after: context.turn_count(),
                        tokens_freed: freed,
                    };
                    notices.push(TurnNotice::Compacted(summary));
                    assert(notices.deep_view() =~= told.push(NoticeView::Compacted(summary)));
                },
                Err(why) => {
                    run.progress.phase = TurnPhase::Over;
                    let next = TurnNext::Failed(TurnError::CompactionFailed(why));
                    return (run, TurnStep { notices, next });
                },
            }
        }
        let prompt = prompt_for_turn(context, tools);
        (run, TurnStep { notices, next: TurnNext::Complete(prompt) })
    }
}

/// A turn as it starts, with what is told then. Where compaction was due,
/// `compaction` holds the tokens that it freed, or why it was refused.
pub open spec fn started(
    turn_id: TurnId,
    max: nat,
    state: context::ContextState,
    tools: Seq<ToolSchema>,
    compaction: Option<Result<nat, Seq<char>>>,
) -> (RunView, StepView) {
    let run = RunView {
        turn_id,
        max,
        calls: Seq::empty(),
        at: 0,
        dispatched: 0,
        denied: 0,
        stop_reason: StopReason::EndTurn,
        usage: provider::no_usage(),
        phase: TurnPhase::Completing,
    };
    let told = seq![NoticeView::Started(turn_id)];
    let next = NextView::Complete(turn_prompt(state, tools));
    match compaction {
        None => (run, StepView { notices: told, next }),
        Some(Ok(freed)) => (
            run,
            StepView {
                notices: told.push(
                    NoticeView::Compacted(
                        CompactionSummary {
                            turns_before: state.turns.len() as usize,
                            turns_after: state.turns.len() as usize,
                            tokens_freed: freed as usize,
                        },
                    ),
                ),
                next,
            },
        ),
        Some(Err(why)) => (
            RunView { phase: TurnPhase::Over, ..run },
            StepView {
                notices: told,
                next: NextView::Failed(TurnErrorView::CompactionFailed(why)),
            },
        ),
    }
}

// ---------------------------------------------------------------------------
// Laws
// ---------------------------------------------------------------------------

/// What a turn is handed once the completion is there.
pub ghost enum TurnEvent {
    /// Whether the turn was cancelled.
    Cancelled(bool),
    Decided(types::DecisionView),
    Executed(Result<tool::ToolOutputView, tool::ToolErrorView>),
}

impl RunView {
    /// Whether this is what the turn waits for.
    pub open spec fn awaits(self, event: TurnEvent) -> bool {
        match event {
            TurnEvent::Cancelled(_) => self.phase is Dispatching,
            TurnEvent::Decided(_) => self.phase is Asking,
            TurnEvent::Executed(_) => self.phase is Executing,
        }
    }

    /// What the turn does with it.
    pub open spec fn take(
        self,
        event: TurnEvent,
        policy: policy::PolicyView,
        tools: Seq<ToolSchema>,
    ) -> Move {
        match event {
            TurnEvent::Cancelled(cancelled) => self.next_call(cancelled, policy, tools),
            TurnEvent::Decided(decision) => self.decided(decision),
            TurnEvent::Executed(outcome) => self.executed(outcome),
        }
    }

    /// Where the turn is after some events.
    pub open spec fn after(
        self,
        events: Seq<TurnEvent>,
        policy: policy::PolicyView,
        tools: Seq<ToolSchema>,
    ) -> RunView
        decreases events.len(),
    {
        if events.len() == 0 {
            self
        } else {
            self.after(events.drop_last(), policy, tools).take(events.last(), policy, tools).run
        }
    }

    /// The calls answered in the course of some events.
    pub open spec fn answers(
        self,
        events: Seq<TurnEvent>,
        policy: policy::PolicyView,
        tools: Seq<ToolSchema>,
    ) -> Seq<Answer>
        decreases events.len(),
    {
        if events.len() == 0 {
            Seq::empty()
        } else {
            let before = self.answers(events.drop_last(), policy, tools);
            let now = self.after(events.drop_last(), policy, tools);
            match now.take(events.last(), policy, tools).answer {
                Some(a) => before.push(a),
                None => before,
            }
        }
    }

    /// Whether each of some events is what the turn waits for when it comes.
    pub open spec fn awaits_all(
        self,
        events: Seq<TurnEvent>,
        policy: policy::PolicyView,
        tools: Seq<ToolSchema>,
    ) -> bool
        decreases events.len(),
    {
        events.len() > 0 ==> {
            &&& self.awaits_all(events.drop_last(), policy, tools)
            &&& self.after(events.drop_last(), policy, tools).awaits(events.last())
        }
    }

    /// How many events a turn can still take.
    pub open spec fn events_left(self) -> int {
        let calls_left = self.calls.len() - self.at;
        match self.phase {
            TurnPhase::Dispatching => 3 * calls_left + 1,
            TurnPhase::Asking(_) => 3 * calls_left,
            TurnPhase::Executing => 3 * calls_left - 1,
            _ => 0,
        }
    }
}

/// Whatever the policy, the user and the tools do, a turn answers the model's
/// calls one by one, in order, each at most once; it dispatches and denies no
/// more of them than it may; and it comes to an end.
pub proof fn law_calls_are_answered_in_order(
    start: RunView,
    events: Seq<TurnEvent>,
    policy: policy::PolicyView,
    tools: Seq<ToolSchema>,
)
    requires
        start.wf(),
        start.phase is Dispatching,
        start.at == 0,
        start.awaits_all(events, policy, tools),
    ensures
        ({
            let run = start.after(events, policy, tools);
            let answers = start.answers(events, policy, tools);
            &&& run.wf()
            &&& run.calls == start.calls
            &&& run.max == start.max
            &&& run.dispatched + run.denied <= start.max
            &&& answers.len() <= start.calls.len()
            &&& forall|i: int|
                0 <= i < answers.len() ==> (#[trigger] answers[i]).name == start.calls[i].name
                    && answers[i].input == start.calls[i].input
            &&& answers.len() == run.at || (run.phase is Over && answers.len() == run.at + 1)
            &&& events.len() + run.events_left() <= 3 * start.calls.len() + 1
        }),
    decreases events.len(),
{
    if events.len() > 0 {
        law_calls_are_answered_in_order(start, events.drop_last(), policy, tools);
    }
}

/// A turn that was not cancelled, and had no more calls than it may have, ends
/// only when every call of the model is answered.
pub proof fn law_no_call_is_left_open(
    run: RunView,
    policy: policy::PolicyView,
    tools: Seq<ToolSchema>,
)
    requires
        run.wf(),
        run.phase is Dispatching,
        run.dispatched + run.denied < run.max,
    ensures
        run.next_call(false, policy, tools).step.next is Done <==> run.at == run.calls.len(),
{
}

/// A tool runs only where the policy allows the call, or where the policy says
/// to ask and the user allows it.
pub proof fn law_nothing_runs_unless_allowed(
    run: RunView,
    cancelled: bool,
    decision: types::DecisionView,
    policy: policy::PolicyView,
    tools: Seq<ToolSchema>,
)
    ensures
        run.next_call(cancelled, policy, tools).step.next matches NextView::Execute { tool_name, .. }
            ==> ({
            let found = find_tool(tools, tool_name, 0);
            found >= 0 && permission::gate(policy, tools[found].capabilities.list())
                == types::DecisionView::Allow
        }),
        run.next_call(cancelled, policy, tools).run.phase is Asking && !(run.phase is Asking) ==> ({
            let found = find_tool(tools, run.calls[run.at as int].name, 0);
            found >= 0 && permission::gate(policy, tools[found].capabilities.list())
                == types::DecisionView::Ask
        }),
        run.decided(decision).step.next is Execute <==> decision == types::DecisionView::Allow,
{
}

/// A call that the policy denies is not executed: the model is told that it was
/// denied, and why.
pub proof fn law_a_denied_call_is_answered(
    run: RunView,
    policy: policy::PolicyView,
    tools: Seq<ToolSchema>,
    reason: Seq<char>,
)
    requires
        run.at < run.calls.len(),
        run.dispatched + run.denied < run.max,
        find_tool(tools, run.calls[run.at as int].name, 0) >= 0,
        permission::gate(
            policy,
            tools[find_tool(tools, run.calls[run.at as int].name, 0)].capabilities.list(),
        ) == types::DecisionView::Deny(reason),
    ensures
        ({
            let done = run.next_call(false, policy, tools);
            &&& done.step.next == NextView::CheckCancel
            &&& done.run.denied == run.denied + 1
            &&& done.run.dispatched == run.dispatched
            &&& done.answer matches Some(a) && a.name == run.calls[run.at as int].name && a.input
                == run.calls[run.at as int].input && a.result == tool::denied_result(reason)
                && a.result.get_str("error"@) == Some(
                "permission_denied"@,
            ) && a.result.get_str("reason"@) == Some(reason)
        }),
        ({
            let asked = RunView { phase: TurnPhase::Asking(0), ..run };
            let done = asked.decided(types::DecisionView::Deny(reason));
            &&& done.step.next == NextView::CheckCancel
            &&& done.run.denied == run.denied + 1
            &&& done.run.dispatched == run.dispatched
            &&& done.run.at == run.at + 1
            &&& done.answer matches Some(a) && a.name == run.calls[run.at as int].name && a.input
                == run.calls[run.at as int].input && a.result == tool::denied_result(reason)
                && a.result.get_str("error"@) == Some(
                "permission_denied"@,
            ) && a.result.get_str("reason"@) == Some(reason)
        }),
{
    tool::law_a_denial_says_why(reason);
}

/// How many of some pieces of content are tool calls.
pub open spec fn count_calls(content: Seq<types::ContentView>) -> nat {
    content.filter(|c: types::ContentView| c is ToolCall).len()
}

proof fn lemma_count_calls(content: Seq<types::ContentView>)
    requires
        content.len() > 0,
    ensures
        count_calls(content) == count_calls(content.drop_last()) + (if content.last() is ToolCall {
            1nat
        } else {
            0nat
        }),
{
    let f = |c: types::ContentView| c is ToolCall;
    assert(content =~= content.drop_last().push(content.last()));
    reveal(Seq::filter);
}

/// The calls of a turn are the tool calls of the response, in the order in which
/// the model made them: each stands behind as many calls as stand before it in the
/// response, with its own name and input, and there are no others.
pub proof fn law_calls_come_in_the_order_of_the_response(
    run: RunView,
    response: provider::ResponseView,
)
    ensures
        ({
            let calls = run.responded(response).calls;
            let content = response.content;
            &&& calls.len() == count_calls(content)
            &&& forall|i: int|
                0 <= i < content.len() && (#[trigger] content[i]) is ToolCall ==> {
                    let at = count_calls(content.take(i)) as int;
                    &&& 0 <= at < calls.len()
                    &&& calls[at].name == content[i]->ToolCall_name
                    &&& calls[at].input == content[i]->ToolCall_input
                }
            &&& forall|i: int, j: int|
                0 <= i < j < content.len() && (#[trigger] content[i]) is ToolCall && (
                #[trigger] content[j]) is ToolCall ==> count_calls(content.take(i)) < count_calls(
                    content.take(j),
                )
        }),
{
    lemma_calls_in_order(response.content);
}

proof fn lemma_calls_in_order(content: Seq<types::ContentView>)
    ensures
        response_calls(content).len() == count_calls(content),
        forall|i: int|
            0 <= i < content.len() && (#[trigger] content[i]) is ToolCall ==> {
                let at = count_calls(content.take(i)) as int;
                &&& 0 <= at < response_calls(content).len()
                &&& response_calls(content)[at].name == content[i]->ToolCall_name
                &&& response_calls(content)[at].input == content[i]->ToolCall_input
            },
        forall|i: int, j: int|
            0 <= i < j < content.len() && (#[trigger] content[i]) is ToolCall && (
            #[trigger] content[j]) is ToolCall ==> count_calls(content.take(i)) < count_calls(
                content.take(j),
            ),
    decreases content.len(),
{
    if content.len() == 0 {
        reveal(Seq::filter);
    } else {
        let rest = content.drop_last();
        lemma_calls_in_order(rest);
        lemma_count_calls(content);
        let last = content.len() - 1;
        assert(content.take(last) =~= rest);
        assert forall|i: int| 0 <= i < content.len() && (#[trigger] content[i]) is ToolCall implies {
            let at = count_calls(content.take(i)) as int;
            &&& 0 <= at < response_calls(content).len()
            &&& response_calls(content)[at].name == content[i]->ToolCall_name
            &&& response_calls(content)[at].input == content[i]->ToolCall_input
        } by {
            if i < last {
                assert(content.take(i) =~= rest.take(i));
                assert(rest[i] == content[i]);
            }
        }
        assert forall|i: int, j: int|
            0 <= i < j < content.len() && (#[trigger] content[i]) is ToolCall && (
            #[trigger] content[j]) is ToolCall implies count_calls(content.take(i)) < count_calls(
            content.take(j),
        ) by {
            assert(content.take(i) =~= rest.take(i));
            assert(rest[i] == content[i]);
            if j < last {
                assert(content.take(j) =~= rest.take(j));
                assert(rest[j] == content[j]);
            } else {
                assert(count_calls(rest.take(i)) < response_calls(rest).len());
            }
        }
    }
}

/// Responses add up: the calls, and the text said, of a response that goes on are
/// those of its beginning followed by those of the rest. A single call is one
/// call, with its name and input, and a single text is said as it is.
pub proof fn law_responses_add_up(
    a: Seq<types::ContentView>,
    b: Seq<types::ContentView>,
    id: Seq<char>,
    name: Seq<char>,
    input: json::JsonView,
    t: Seq<char>,
)
    ensures
        response_calls(a + b) == response_calls(a) + response_calls(b),
        response_calls(seq![types::ContentView::ToolCall { id, name, input }]) == seq![
            CallView { name, input },
        ],
        response_calls(seq![types::ContentView::Text(t)]).len() == 0,
        response_texts(a + b) == response_texts(a) + response_texts(b),
        response_texts(seq![types::ContentView::Text(t)]) == seq![t],
        response_texts(seq![types::ContentView::ToolCall { id, name, input }]).len() == 0,
        said_text(a + b) == said_text(a) + said_text(b),
        said_text(seq![types::ContentView::Text(t)]) == t,
{
    reveal_with_fuel(response_calls, 2);
    reveal_with_fuel(response_texts, 2);
    lemma_responses_add_up(a, b);
    let x = seq![types::ContentView::ToolCall { id, name, input }];
    assert(x.drop_last() =~= Seq::empty());
    assert(response_calls(x) =~= seq![CallView { name, input }]);
    let y = seq![types::ContentView::Text(t)];
    assert(y.drop_last() =~= Seq::empty());
    assert(response_texts(y) =~= seq![t]);
    let ta = response_texts(a);
    let tb = response_texts(b);
    reveal_strlit("");
    text::law_joins_concatenate(ta, tb, ""@);
    text::law_joins_concatenate(seq![t], seq![t], ""@);
    assert(text::join(seq![t], ""@) == t);
    if ta.len() == 0 {
        assert(ta + tb =~= tb);
        assert(text::join(ta, ""@) + text::join(tb, ""@) =~= text::join(tb, ""@));
    } else if tb.len() == 0 {
        assert(ta + tb =~= ta);
        assert(text::join(ta, ""@) + text::join(tb, ""@) =~= text::join(ta, ""@));
    } else {
        assert(text::join(ta, ""@) + ""@ =~= text::join(ta, ""@));
    }
}

proof fn lemma_responses_add_up(a: Seq<types::ContentView>, b: Seq<types::ContentView>)
    ensures
        response_calls(a + b) == response_calls(a) + response_calls(b),
        response_texts(a + b) == response_texts(a) + response_texts(b),
    decreases b.len(),
{
    if b.len() == 0 {
        assert(a + b =~= a);
        assert(response_calls(a) + response_calls(b) =~= response_calls(a));
        assert(response_texts(a) + response_texts(b) =~= response_texts(a));
    } else {
        assert((a + b).drop_last() =~= a + b.drop_last());
        lemma_responses_add_up(a, b.drop_last());
        assert(response_calls(a + b) =~= response_calls(a) + response_calls(b));
        assert(response_texts(a + b) =~= response_texts(a) + response_texts(b));
    }
}

/// The tool that a call reaches is the first of those with the name that the model
/// called, and a call of a name that no tool has reaches none.
pub proof fn law_a_call_reaches_the_tool_of_its_name(tools: Seq<ToolSchema>, name: Seq<char>)
    ensures
        ({
            let found = find_tool(tools, name, 0);
            &&& found >= 0 ==> found < tools.len() && tools[found].name@ == name
            &&& forall|k: int| 0 <= k < tools.len() && (#[trigger] tools[k]).name@ == name ==> 0
                <= found <= k
        }),
{
    lemma_found_tool(tools, name, 0);
}

proof fn lemma_found_tool(tools: Seq<ToolSchema>, name: Seq<char>, from: int)
    requires
        0 <= from,
    ensures
        ({
            let found = find_tool(tools, name, from);
            &&& found == -1 || from <= found < tools.len() && tools[found].name@ == name
            &&& forall|k: int| from <= k < tools.len() && (#[trigger] tools[k]).name@ == name
                ==> from <= found <= k
        }),
    decreases tools.len() - from,
{
    if from < tools.len() {
        lemma_found_tool(tools, name, from + 1);
    }
}

/// What is executed is the call at hand: its own input, by the tool of its own
/// name, whether the policy or the user allowed it, and the user interface is told
/// of that call before.
pub proof fn law_the_call_at_hand_is_executed(
    run: RunView,
    policy: policy::PolicyView,
    tools: Seq<ToolSchema>,
)
    requires
        run.phase is Dispatching,
        run.at < run.calls.len(),
        run.dispatched + run.denied < run.max,
        find_tool(tools, run.calls[run.at as int].name, 0) >= 0,
    ensures
        ({
            let call = run.calls[run.at as int];
            let done = run.next_call(false, policy, tools);
            let found = find_tool(tools, call.name, 0);
            let gate = permission::gate(policy, tools[found].capabilities.list());
            &&& done.step.notices.len() > 0
            &&& done.step.notices[0] == NoticeView::ToolCall {
                tool_name: call.name,
                input: call.input,
            }
            &&& gate is Allow ==> done.step.next == NextView::Execute {
                tool: found as usize,
                tool_name: call.name,
                input: call.input,
            } && done.run.phase is Executing
            &&& gate is Ask ==> {
                &&& done.step.next matches NextView::Ask(request) && request.tool_name == call.name
                    && request.capabilities == tools[found].capabilities.list()
                    && request.input_summary == json::json_text(call.input)
                &&& done.run.decided(types::DecisionView::Allow).step.next == NextView::Execute {
                    tool: found as usize,
                    tool_name: call.name,
                    input: call.input,
                }
            }
            &&& gate is Deny ==> done.step.next is CheckCancel && done.answer is Some
            &&& done.run.calls == run.calls
        }),
{
}

/// What the model is given of an executed call is the tool's own result, or, where
/// the tool failed, the error with its message. The user interface is told the
/// same result. The call is then done with and counted.
pub proof fn law_the_result_is_the_tools(
    run: RunView,
    outcome: Result<tool::ToolOutputView, tool::ToolErrorView>,
)
    requires
        run.phase is Executing,
        run.at < run.calls.len(),
    ensures
        ({
            let call = run.calls[run.at as int];
            let done = run.executed(outcome);
            &&& done.answer matches Some(a) && a.name == call.name && a.input == call.input && (
            match outcome {
                Ok(output) => a.result == output.result && done.step.notices == seq![
                    NoticeView::ToolResult { tool_name: call.name, output },
                ],
                Err(e) => a.result.get_str("error"@) == Some("execution_failed"@)
                    && a.result.get_str("message"@) == Some(e.message()),
            })
            &&& done.run.at == run.at + 1
            &&& done.run.dispatched == run.dispatched + 1
            &&& done.run.denied == run.denied
            &&& done.run.phase is Dispatching
            &&& done.step.next is CheckCancel
        }),
{
    lemma_words_differ();
}

proof fn lemma_words_differ()
    ensures
        "error"@ != "message"@,
        "error"@ != "name"@,
        "error"@ != "reason"@,
{
    reveal_strlit("error");
    reveal_strlit("message");
    reveal_strlit("name");
    reveal_strlit("reason");
    assert("error"@.len() == 5);
    assert("message"@.len() == 7);
    assert("name"@.len() == 4);
    assert("reason"@.len() == 6);
}

/// A call of a name that no tool has is answered by saying so, is neither
/// dispatched nor denied, and does not end the turn.
pub proof fn law_an_unknown_tool_is_answered(
    run: RunView,
    policy: policy::PolicyView,
    tools: Seq<ToolSchema>,
)
    requires
        run.phase is Dispatching,
        run.at < run.calls.len(),
        run.dispatched + run.denied < run.max,
        forall|k: int|
            0 <= k < tools.len() ==> (#[trigger] tools[k]).name@ != run.calls[run.at as int].name,
    ensures
        ({
            let call = run.calls[run.at as int];
            let done = run.next_call(false, policy, tools);
            &&& done.answer matches Some(a) && a.name == call.name && a.input == call.input
                && a.result.get_str("error"@) == Some("tool_not_found"@) && a.result.get_str(
                "name"@,
            ) == Some(call.name)
            &&& done.step.next is CheckCancel
            &&& done.run == (RunView { at: run.at + 1, ..run })
        }),
{
    lemma_words_differ();
    law_a_call_reaches_the_tool_of_its_name(tools, run.calls[run.at as int].name);
}

/// A call beyond the most that a turn may have is not executed: it ends the turn,
/// the model is told that the budget is exceeded, and the user interface is told
/// so too. Until then there is room for every call.
pub proof fn law_the_budget_of_calls_holds(
    run: RunView,
    policy: policy::PolicyView,
    tools: Seq<ToolSchema>,
)
    requires
        run.phase is Dispatching,
        run.at < run.calls.len(),
        run.dispatched + run.denied == run.max,
    ensures
        ({
            let call = run.calls[run.at as int];
            let done = run.next_call(false, policy, tools);
            let message = "max tool invocations per turn ("@ + text::decimal(run.max)
                + ") exceeded"@;
            &&& done.answer matches Some(a) && a.name == call.name && a.input == call.input
                && a.result.get_str("error"@) == Some("budget_exceeded"@) && a.result.get_str(
                "message"@,
            ) == Some(message)
            &&& done.step.next matches NextView::Done(result) && !result.was_cancelled
            &&& done.step.notices == seq![
                NoticeView::Error(frontend::KernelErrorView { message, recoverable: true }),
                NoticeView::Ended(run.turn_id),
            ]
        }),
{
    lemma_words_differ();
    assert(seq![
        NoticeView::Error(
            frontend::KernelErrorView { message: budget_message(run.max), recoverable: true },
        ),
    ].push(NoticeView::Ended(run.turn_id)) =~= seq![
        NoticeView::Error(
            frontend::KernelErrorView { message: budget_message(run.max), recoverable: true },
        ),
        NoticeView::Ended(run.turn_id),
    ]);
}

/// How a turn ends: it goes on to another only where it was not cancelled, the
/// model stopped to use tools, and at least one was dispatched. A turn that is
/// cancelled answers no further call. What it took is what the provider counted.
pub proof fn law_how_a_turn_ends(
    run: RunView,
    cancelled: bool,
    policy: policy::PolicyView,
    tools: Seq<ToolSchema>,
)
    requires
        run.wf(),
        run.phase is Dispatching,
        run.at == run.calls.len() || cancelled,
    ensures
        ({
            let done = run.next_call(cancelled, policy, tools);
            let cut_off = cancelled && run.at < run.calls.len();
            &&& done.answer is None
            &&& done.step.notices == seq![NoticeView::Ended(run.turn_id)]
            &&& done.step.next matches NextView::Done(result) && result.turn_id == run.turn_id
                && result.was_cancelled == cut_off && result.continues == (!cut_off
                && run.stop_reason == StopReason::ToolUse && run.dispatched > 0)
                && result.tool_calls_dispatched == run.dispatched && result.tool_calls_denied
                == run.denied && result.usage == run.usage
            &&& done.run.phase is Over
        }),
{
    assert(Seq::<NoticeView>::empty().push(NoticeView::Ended(run.turn_id)) =~= seq![
        NoticeView::Ended(run.turn_id),
    ]);
}

/// A turn starts on the response from the first call on, with nothing counted, the
/// reason and the tokens that the provider gave, and under its own id and limit.
pub proof fn law_a_response_starts_the_calls(run: RunView, response: provider::ResponseView)
    ensures
        ({
            let now = run.responded(response);
            &&& now.at == 0 && now.dispatched == 0 && now.denied == 0
            &&& now.stop_reason == response.stop_reason
            &&& now.usage == response.usage
            &&& now.turn_id == run.turn_id
            &&& now.max == run.max
            &&& now.phase is Dispatching
        }),
{
}

/// An answered call is the last exchange of the current turn, with the name and
/// input of the call and the result that it was given; nothing said before is
/// changed by it.
pub proof fn law_answers_are_kept(state: context::ContextState, answer: Answer)
    requires
        state.turns.len() > 0,
    ensures
        ({
            let now = after_answer(state, Some(answer));
            let kept = now.turns.last().tool_exchanges;
            &&& now.turns.len() == state.turns.len()
            &&& now.turns.drop_last() == state.turns.drop_last()
            &&& now.turns.last().input == state.turns.last().input
            &&& now.turns.last().response == state.turns.last().response
            &&& kept.len() == state.turns.last().tool_exchanges.len() + 1
            &&& kept.drop_last() == state.turns.last().tool_exchanges
            &&& kept.last().tool_name == answer.name
            &&& kept.last().input == answer.input
            &&& kept.last().result == answer.result
        }),
        after_answer(state, None) == state,
{
    let now = after_answer(state, Some(answer));
    assert(now.turns.drop_last() =~= state.turns.drop_last());
    assert(now.turns.last().tool_exchanges.drop_last() =~= state.turns.last().tool_exchanges);
}

/// The model is told of every tool, where the context itself has none in it: the
/// definition of each has its name, its description and its schema.
pub proof fn law_the_prompt_defines_the_tools(
    state: context::ContextState,
    tools: Seq<ToolSchema>,
    i: int,
)
    requires
        state.tools.len() == 0,
        0 <= i < tools.len(),
    ensures
        ({
            let prompt = turn_prompt(state, tools);
            let def = prompt.tool_definitions[i];
            &&& prompt.tool_definitions.len() == tools.len()
            &&& def.get_str("name"@) == Some(tools[i].name@)
            &&& def.get_str("description"@) == Some(tools[i].description@)
            &&& def.get("input_schema"@) == Some(tools[i].schema.deep_view())
            &&& prompt.system == state.prompt().system
            &&& prompt.messages == state.prompt().messages
        }),
{
    tool::lemma_definition_words_differ();
}

/// A turn starts by telling its id, and asks for the completion of the prompt of
/// the context as it then is. Where compaction failed, it asks for nothing and
/// says why.
pub proof fn law_how_a_turn_starts(
    turn_id: TurnId,
    max: nat,
    state: context::ContextState,
    tools: Seq<ToolSchema>,
    freed: nat,
    why: Seq<char>,
)
    ensures
        ({
            let (run, step) = started(turn_id, max, state, tools, None);
            &&& step.notices == seq![NoticeView::Started(turn_id)]
            &&& step.next == NextView::Complete(turn_prompt(state, tools))
            &&& run.phase is Completing && run.turn_id == turn_id && run.max == max
            &&& run.calls.len() == 0 && run.at == 0 && run.dispatched == 0 && run.denied == 0
        }),
        ({
            let (run, step) = started(turn_id, max, state, tools, Some(Ok(freed)));
            &&& step.notices.len() == 2
            &&& step.notices[0] == NoticeView::Started(turn_id)
            &&& step.notices[1] matches NoticeView::Compacted(s) && s.tokens_freed == freed as usize
                && s.turns_after == state.turns.len() as usize
            &&& step.next == NextView::Complete(turn_prompt(state, tools))
            &&& run.phase is Completing
        }),
        ({
            let (run, step) = started(turn_id, max, state, tools, Some(Err(why)));
            &&& step.next == NextView::Failed(TurnErrorView::CompactionFailed(why))
            &&& run.phase is Over
        }),
{
}

/// Every answered call is recorded, with its name, its input and the result that it
/// was given, and nothing else is.
pub proof fn law_answers_are_recorded(
    before: Seq<session_events::EventView>,
    after: Seq<session_events::EventView>,
    turn: nat,
    answer: Answer,
)
    ensures
        answer_recorded(before, after, turn, Some(answer)) ==> after.len() == before.len() + 1
            && after.drop_last() == before && after.last().turn_index == turn && (
        after.last().what matches session_events::Happening::ToolExchange {
            tool_name,
            input,
            result,
        } && tool_name == answer.name && input == answer.input && result == answer.result),
        answer_recorded(before, after, turn, None) ==> after == before,
{
}

/// What a response says is told and kept, all of it and in order: where it has any
/// text, the user interface is told it as one text, and it is the response of the
/// current turn. Where it has none, nothing is told and nothing changes.
pub proof fn law_what_the_model_says_is_told_and_kept(
    state: context::ContextState,
    content: Seq<types::ContentView>,
    t: Seq<char>,
)
    requires
        state.turns.len() > 0,
    ensures
        (forall|i: int| 0 <= i < content.len() ==> !(#[trigger] content[i] is Text)) ==> told_of(
            content,
        ).len() == 0 && after_completion(state, content) == state,
        ({
            let more = content.push(types::ContentView::Text(t));
            let kept = after_completion(state, more).turns;
            &&& said_text(more) == said_text(content) + t
            &&& told_of(more) == seq![NoticeView::Text(said_text(content) + t)]
            &&& kept.len() == state.turns.len()
            &&& kept.last().response == Some(
                types::MessageView {
                    role: types::Role::Assistant,
                    content: seq![types::ContentView::Text(said_text(content) + t)],
                },
            )
        }),
{
    let none = types::ContentView::Text(t);
    law_responses_add_up(content, seq![none], t, t, json::JsonView::Null, t);
    assert(content.push(none) =~= content + seq![none]);
    assert(response_texts(content + seq![none]).len() == response_texts(content).len() + 1);
    if forall|i: int| 0 <= i < content.len() ==> !(#[trigger] content[i] is Text) {
        lemma_no_texts(content);
    }
}

proof fn lemma_no_texts(content: Seq<types::ContentView>)
    requires
        forall|i: int| 0 <= i < content.len() ==> !(#[trigger] content[i] is Text),
    ensures
        response_texts(content).len() == 0,
    decreases content.len(),
{
    if content.len() > 0 {
        let rest = content.drop_last();
        assert forall|i: int| 0 <= i < rest.len() implies !(#[trigger] rest[i] is Text) by {
            assert(rest[i] == content[i]);
        }
        lemma_no_texts(rest);
        assert(!(content[content.len() - 1] is Text));
    }
}

} // verus!
