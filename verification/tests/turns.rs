use agent_kernel::context::{ContextConfig, ContextManager, Ratio};
use agent_kernel::context_store::{ContextStore, InMemoryContextStore};
use agent_kernel::event_log::read_events;
use agent_kernel::json::Json;
use agent_kernel::permission::PermissionEvaluator;
use agent_kernel::policy::{Policy, PolicyAction, PolicyRule};
use agent_kernel::provider::{ProviderError, Response, StopReason, Usage};
use agent_kernel::session::{PendingResult, Session, SessionConfig, SessionManager};
use agent_kernel::session_events::{EventLog, NullSink, SessionEvent, SessionEventSink};
use agent_kernel::testutil::{
    allow_all_policy, lockdown_policy, text_response, tool_call_response,
};
use agent_kernel::tool::{ToolError, ToolOutput, ToolSchema};
use agent_kernel::turn_loop::{TurnError, TurnLoop, TurnNext, TurnNotice, TurnResult, TurnStep};
use agent_kernel::types::{
    CapabilitySet, CompletionConfig, Content, Decision, Invalidation, Prompt, RelevanceSignal,
    ResourceBudget, Role, SessionId, SessionMode, TokenEstimate, TurnId,
};
use std::cell::RefCell;
use std::rc::Rc;

// ---------------------------------------------------------------------------
// Doubles
// ---------------------------------------------------------------------------

fn parsed(text: &str) -> Json {
    Json::parse(text).expect("valid JSON")
}

fn schema(name: &str, caps: &[&str]) -> ToolSchema {
    let mut capabilities = CapabilitySet::new();
    for cap in caps {
        capabilities = capabilities.and(cap);
    }
    ToolSchema {
        name: name.to_string(),
        description: format!("Test tool: {name}"),
        capabilities,
        schema: Json::Null,
        cost: TokenEstimate(10),
        relevance: RelevanceSignal { keywords: vec![], tags: vec![] },
    }
}

/// Outputs of the tools, by name, each used once.
struct Outputs(Vec<(String, Result<ToolOutput, ToolError>)>);

impl Outputs {
    fn default_only() -> Self {
        Outputs(vec![])
    }

    fn of(name: &str, output: ToolOutput) -> Self {
        Outputs(vec![(name.to_string(), Ok(output))])
    }

    fn and(mut self, name: &str, output: ToolOutput) -> Self {
        self.0.push((name.to_string(), Ok(output)));
        self
    }

    fn execute(&mut self, name: &str) -> Result<ToolOutput, ToolError> {
        match self.0.iter().position(|o| o.0 == name) {
            Some(at) => self.0.remove(at).1,
            None => Ok(ToolOutput::readonly(Json::text("default output"))),
        }
    }
}

/// Records what a turn tells.
struct Recording {
    turns_started: usize,
    turns_ended: usize,
    tool_calls: Vec<String>,
    tool_results: Vec<String>,
    permission_requests: Vec<String>,
    compactions: usize,
    texts: Vec<String>,
    answer: Decision,
}

impl Recording {
    fn auto_allow() -> Self {
        Recording {
            turns_started: 0,
            turns_ended: 0,
            tool_calls: vec![],
            tool_results: vec![],
            permission_requests: vec![],
            compactions: 0,
            texts: vec![],
            answer: Decision::Allow,
        }
    }

    fn auto_deny() -> Self {
        Recording { answer: Decision::Deny("user denied".to_string()), ..Self::auto_allow() }
    }

    fn take(&mut self, step: TurnStep) -> TurnNext {
        for notice in step.notices {
            match notice {
                TurnNotice::Started(_) => self.turns_started += 1,
                TurnNotice::Ended(_) => self.turns_ended += 1,
                TurnNotice::ToolCall { tool_name, .. } => self.tool_calls.push(tool_name),
                TurnNotice::ToolResult { output, .. } => {
                    self.tool_results.push(output.result.to_text())
                }
                TurnNotice::Compacted(_) => self.compactions += 1,
                TurnNotice::Text(t) => self.texts.push(t),
                TurnNotice::Error(_) => {}
            }
        }
        step.next
    }
}

fn run_loop(
    turn_loop: &mut TurnLoop,
    provide: &mut dyn FnMut(&Prompt) -> Result<Response, ProviderError>,
    cm: &mut ContextManager<InMemoryContextStore, NullSink>,
    pe: &PermissionEvaluator,
    tools: &Vec<ToolSchema>,
    outputs: &mut Outputs,
    frontend: &mut Recording,
) -> Result<TurnResult, TurnError> {
    let (mut run, step) = turn_loop.start_turn(cm, tools);
    let mut next = frontend.take(step);
    loop {
        let step = match next {
            TurnNext::Complete(prompt) => run.respond(provide(&prompt), cm),
            TurnNext::CheckCancel => run.next_call(false, cm, pe, tools),
            TurnNext::Execute { tool_name, .. } => {
                let result = outputs.execute(&tool_name);
                run.complete_call(result, cm)
            }
            TurnNext::Ask(request) => {
                frontend.permission_requests.push(request.tool_name);
                run.decide(frontend.answer.clone(), cm)
            }
            TurnNext::Done(result) => return Ok(result),
            TurnNext::Failed(e) => return Err(e),
        };
        next = frontend.take(step);
    }
}

fn run_session<S: ContextStore, E: SessionEventSink>(
    session: &mut Session<S, E>,
    provide: &mut dyn FnMut(&Prompt) -> Result<Response, ProviderError>,
    outputs: &mut Outputs,
    frontend: &mut Recording,
) -> Result<TurnResult, TurnError> {
    let (mut run, step) = session.start_turn();
    let mut next = frontend.take(step);
    loop {
        let step = match next {
            TurnNext::Complete(prompt) => session.respond(&mut run, provide(&prompt)),
            TurnNext::CheckCancel => session.next_call(&mut run),
            TurnNext::Execute { tool_name, .. } => {
                let result = outputs.execute(&tool_name);
                session.complete_call(&mut run, result)
            }
            TurnNext::Ask(request) => {
                frontend.permission_requests.push(request.tool_name);
                session.decide(&mut run, frontend.answer.clone())
            }
            TurnNext::Done(result) => return Ok(result),
            TurnNext::Failed(e) => return Err(e),
        };
        next = frontend.take(step);
    }
}

fn call(id: &str, name: &str, input: &str) -> Content {
    Content::ToolCall { id: id.to_string(), name: name.to_string(), input: parsed(input) }
}

fn calls(content: Vec<Content>) -> Response {
    Response { content, usage: Usage::default(), stop_reason: StopReason::ToolUse }
}

fn said(text: &str) -> Response {
    Response {
        content: vec![Content::Text(text.to_string())],
        usage: Usage::default(),
        stop_reason: StopReason::EndTurn,
    }
}

fn policy_of(name: &str, patterns: &[&str], action: PolicyAction) -> Policy {
    Policy {
        version: 1,
        name: name.to_string(),
        rules: vec![PolicyRule {
            match_capabilities: patterns.iter().map(|p| p.to_string()).collect(),
            action,
            scope_paths: vec![],
            scope_commands: vec![],
            except: vec![],
        }],
        resource_budgets: None,
    }
}

fn ask_all_policy() -> Policy {
    policy_of("ask-all", &["fs:*", "shell:*", "net:*"], PolicyAction::Ask)
}

fn wide_config() -> ContextConfig {
    ContextConfig {
        context_window: 100_000,
        compaction_cooldown_secs: 0,
        ..ContextConfig::default()
    }
}

fn context() -> ContextManager<InMemoryContextStore, NullSink> {
    ContextManager::new(wide_config(), "You are a helpful assistant.".to_string())
}

fn session_config(policy: Policy) -> SessionConfig {
    SessionConfig {
        mode: SessionMode::Interactive,
        system_prompt: "You are a helpful coding assistant.".to_string(),
        context_config: wide_config(),
        completion_config: CompletionConfig::default(),
        policy,
        resource_budget: ResourceBudget::default(),
        workspace: "/tmp/test-workspace".to_string(),
    }
}

fn manager() -> SessionManager<InMemoryContextStore, NullSink> {
    SessionManager::new(ResourceBudget::default())
}

// ---------------------------------------------------------------------------
// The turn loop
// ---------------------------------------------------------------------------

#[test]
fn text_only_response_does_not_continue() {
    let mut cm = context();
    let pe = PermissionEvaluator::new(allow_all_policy());
    cm.append_user_input("Hello".to_string());
    let mut frontend = Recording::auto_allow();
    let mut turn_loop = TurnLoop::new(CompletionConfig::default(), 20);
    let result = run_loop(
        &mut turn_loop,
        &mut |_| Ok(text_response("Hi there!")),
        &mut cm,
        &pe,
        &vec![],
        &mut Outputs::default_only(),
        &mut frontend,
    )
    .unwrap();
    assert!(!result.continues);
    assert_eq!(result.tool_calls_dispatched, 0);
    assert_eq!(frontend.turns_started, 1);
    assert_eq!(frontend.turns_ended, 1);
    assert_eq!(frontend.texts, vec!["Hi there!"]);
}

#[test]
fn tool_call_dispatches_and_continues() {
    let mut cm = context();
    let pe = PermissionEvaluator::new(allow_all_policy());
    cm.append_user_input("List files".to_string());
    let mut frontend = Recording::auto_allow();
    let mut turn_loop = TurnLoop::new(CompletionConfig::default(), 20);
    let result = run_loop(
        &mut turn_loop,
        &mut |_| Ok(tool_call_response("file_read", parsed("{\"path\": \"src/main.rs\"}"))),
        &mut cm,
        &pe,
        &vec![schema("file_read", &["fs:read"])],
        &mut Outputs::of("file_read", ToolOutput::readonly(Json::text("fn main() {}"))),
        &mut frontend,
    )
    .unwrap();
    assert!(result.continues);
    assert_eq!(result.tool_calls_dispatched, 1);
    assert_eq!(frontend.tool_results, vec!["\"fn main() {}\""]);
    let exchanges = &cm.turns()[0].tool_exchanges;
    assert_eq!(exchanges.len(), 1);
    assert_eq!(exchanges[0].result.to_text(), "\"fn main() {}\"");
}

#[test]
fn denied_tool_call_does_not_continue() {
    let mut cm = ContextManager::new(wide_config(), "System.".to_string());
    cm.append_user_input("Read file".to_string());
    let pe = PermissionEvaluator::new(policy_of("deny-all", &["fs:read"], PolicyAction::Deny));
    let mut frontend = Recording::auto_allow();
    let mut turn_loop = TurnLoop::new(CompletionConfig::default(), 20);
    let result = run_loop(
        &mut turn_loop,
        &mut |_| Ok(tool_call_response("file_read", parsed("{\"path\": \"secret.env\"}"))),
        &mut cm,
        &pe,
        &vec![schema("file_read", &["fs:read"])],
        &mut Outputs::of("file_read", ToolOutput::readonly(Json::text("data"))),
        &mut frontend,
    )
    .unwrap();
    assert!(!result.continues);
    assert_eq!(result.tool_calls_dispatched, 0);
    assert_eq!(result.tool_calls_denied, 1);
    // The call is answered all the same, with the reason.
    let exchanges = &cm.turns()[0].tool_exchanges;
    assert_eq!(exchanges.len(), 1);
    assert!(exchanges[0].result.to_text().contains("denied"));
}

#[test]
fn ask_policy_with_allow_frontend_dispatches() {
    let mut cm = ContextManager::new(wide_config(), "System.".to_string());
    cm.append_user_input("Read file".to_string());
    let pe = PermissionEvaluator::new(ask_all_policy());
    let mut frontend = Recording::auto_allow();
    let mut turn_loop = TurnLoop::new(CompletionConfig::default(), 20);
    let result = run_loop(
        &mut turn_loop,
        &mut |_| Ok(tool_call_response("file_read", parsed("{\"path\": \"src/lib.rs\"}"))),
        &mut cm,
        &pe,
        &vec![schema("file_read", &["fs:read"])],
        &mut Outputs::of("file_read", ToolOutput::readonly(Json::text("content"))),
        &mut frontend,
    )
    .unwrap();
    assert!(result.continues);
    assert_eq!(result.tool_calls_dispatched, 1);
    assert_eq!(frontend.permission_requests, vec!["file_read"]);
}

#[test]
fn ask_policy_with_deny_frontend_denies() {
    let mut cm = ContextManager::new(wide_config(), "System.".to_string());
    cm.append_user_input("Run command".to_string());
    let pe = PermissionEvaluator::new(ask_all_policy());
    let mut frontend = Recording::auto_deny();
    let mut turn_loop = TurnLoop::new(CompletionConfig::default(), 20);
    let result = run_loop(
        &mut turn_loop,
        &mut |_| Ok(tool_call_response("shell", parsed("{\"command\": \"rm -rf /\"}"))),
        &mut cm,
        &pe,
        &vec![schema("shell", &["shell:exec"])],
        &mut Outputs::of("shell", ToolOutput::readonly(Json::text("done"))),
        &mut frontend,
    )
    .unwrap();
    assert!(!result.continues);
    assert_eq!(result.tool_calls_denied, 1);
}

#[test]
fn unknown_tool_handled_gracefully() {
    let mut cm = context();
    let pe = PermissionEvaluator::new(allow_all_policy());
    cm.append_user_input("Do something".to_string());
    let mut frontend = Recording::auto_allow();
    let mut turn_loop = TurnLoop::new(CompletionConfig::default(), 20);
    let result = run_loop(
        &mut turn_loop,
        &mut |_| Ok(tool_call_response("nonexistent_tool", Json::object())),
        &mut cm,
        &pe,
        &vec![],
        &mut Outputs::default_only(),
        &mut frontend,
    )
    .unwrap();
    assert!(!result.continues);
    assert_eq!(result.tool_calls_dispatched, 0);
}

#[test]
fn tool_invocation_budget_enforced() {
    let mut cm = context();
    let pe = PermissionEvaluator::new(allow_all_policy());
    cm.append_user_input("Do everything".to_string());
    let mut frontend = Recording::auto_allow();
    let mut turn_loop = TurnLoop::new(CompletionConfig::default(), 2);
    let result = run_loop(
        &mut turn_loop,
        &mut |_| {
            Ok(calls(vec![
                call("1", "file_read", "{}"),
                call("2", "file_read", "{}"),
                call("3", "file_read", "{}"),
            ]))
        },
        &mut cm,
        &pe,
        &vec![schema("file_read", &["fs:read"])],
        &mut Outputs::default_only(),
        &mut frontend,
    )
    .unwrap();
    assert_eq!(result.tool_calls_dispatched, 2);
}

#[test]
fn turn_ids_increment() {
    let mut cm = context();
    let pe = PermissionEvaluator::new(allow_all_policy());
    let mut frontend = Recording::auto_allow();
    let mut turn_loop = TurnLoop::new(CompletionConfig::default(), 20);
    let mut ids: Vec<TurnId> = vec![];
    for text in ["Hello", "Again"] {
        cm.append_user_input(text.to_string());
        let r = run_loop(
            &mut turn_loop,
            &mut |_| Ok(text_response("Hi")),
            &mut cm,
            &pe,
            &vec![],
            &mut Outputs::default_only(),
            &mut frontend,
        )
        .unwrap();
        ids.push(r.turn_id);
    }
    assert_eq!(ids[0], TurnId(0));
    assert_eq!(ids[1], TurnId(1));
}

#[test]
fn a_failed_completion_fails_the_turn() {
    let mut cm = context();
    let pe = PermissionEvaluator::new(allow_all_policy());
    cm.append_user_input("Hello".to_string());
    let mut turn_loop = TurnLoop::new(CompletionConfig::default(), 20);
    let failed = run_loop(
        &mut turn_loop,
        &mut |_| Err(ProviderError::Api { status: 500, message: "down".to_string() }),
        &mut cm,
        &pe,
        &vec![],
        &mut Outputs::default_only(),
        &mut Recording::auto_allow(),
    );
    match failed {
        Err(e) => assert_eq!(e.message(), "provider error: API error 500: down"),
        Ok(_) => panic!("expected a failure"),
    }
}

#[test]
fn calls_go_into_the_next_prompt_with_their_results() {
    let mut cm = context();
    let pe = PermissionEvaluator::new(allow_all_policy());
    cm.append_user_input("Read two files".to_string());
    let tools = vec![schema("file_read", &["fs:read"])];
    let mut turn_loop = TurnLoop::new(CompletionConfig::default(), 20);
    run_loop(
        &mut turn_loop,
        &mut |_| {
            Ok(calls(vec![
                call("1", "file_read", "{\"path\":\"a\"}"),
                call("2", "file_read", "{\"path\":\"b\"}"),
            ]))
        },
        &mut cm,
        &pe,
        &tools,
        &mut Outputs::of("file_read", ToolOutput::readonly(Json::text("A")))
            .and("file_read", ToolOutput::readonly(Json::text("B"))),
        &mut Recording::auto_allow(),
    )
    .unwrap();
    let mut answered: Vec<String> = vec![];
    let mut roles: Vec<Role> = vec![];
    let mut offered = 0;
    run_loop(
        &mut turn_loop,
        &mut |prompt| {
            offered = prompt.tool_definitions.len();
            for m in &prompt.messages {
                roles.push(m.role);
                for c in &m.content {
                    if let Content::ToolResult { result, .. } = c {
                        answered.push(result.to_text());
                    }
                }
            }
            Ok(text_response("done"))
        },
        &mut cm,
        &pe,
        &tools,
        &mut Outputs::default_only(),
        &mut Recording::auto_allow(),
    )
    .unwrap();
    assert_eq!(offered, 1);
    assert_eq!(answered, vec!["\"A\"", "\"B\""]);
    assert_eq!(roles[0], Role::User);
}

// ---------------------------------------------------------------------------
// Sessions
// ---------------------------------------------------------------------------

#[test]
fn spawn_interactive_returns_unique_ids() {
    let mut mgr = manager();
    let id1 = mgr.spawn_interactive(session_config(allow_all_policy()), vec![]);
    let id2 = mgr.spawn_interactive(session_config(allow_all_policy()), vec![]);
    assert_ne!(id1, id2);
    assert_eq!(mgr.active_count(), 2);
}

#[test]
fn get_session_by_id() {
    let mut mgr = manager();
    let id = mgr.spawn_interactive(session_config(allow_all_policy()), vec![]);
    assert!(mgr.get(id).is_some());
    assert!(mgr.get(SessionId(999)).is_none());
}

#[test]
fn session_runs_a_turn() {
    let mut mgr = manager();
    let id = mgr.spawn_interactive(session_config(allow_all_policy()), vec![]);
    let session = mgr.get_mut(id).unwrap();
    session.add_user_input("Hello".to_string());
    let mut frontend = Recording::auto_allow();
    let result = run_session(
        session,
        &mut |_| {
            Ok(Response {
                content: vec![Content::Text("Hi there!".to_string())],
                usage: Usage { input_tokens: 50, output_tokens: 20, ..Usage::default() },
                stop_reason: StopReason::EndTurn,
            })
        },
        &mut Outputs::default_only(),
        &mut frontend,
    )
    .unwrap();
    assert!(!result.continues);
    assert_eq!(result.usage.input_tokens, 50);
    assert_eq!(frontend.turns_started, 1);
}

#[test]
fn session_drains_pending_results_before_turn() {
    let mut mgr = manager();
    let id = mgr.spawn_interactive(session_config(allow_all_policy()), vec![]);
    let session = mgr.get_mut(id).unwrap();
    session.deliver(PendingResult::ExternalEvent {
        source: "github".to_string(),
        event_type: "check_run.failed".to_string(),
        summary: "CI failed on main".to_string(),
    });
    assert_eq!(session.pending_count(), 1);
    session.add_user_input("What happened?".to_string());
    let mut frontend = Recording::auto_allow();
    let result = run_session(
        session,
        &mut |_| Ok(said("CI failed.")),
        &mut Outputs::default_only(),
        &mut frontend,
    )
    .unwrap();
    assert!(!result.continues);
    assert_eq!(session.pending_count(), 0);
    assert!(session.context().turn_count() >= 2);
}

#[test]
fn policy_hot_swap() {
    let mut mgr = manager();
    let id = mgr.spawn_interactive(session_config(allow_all_policy()), vec![]);
    let session = mgr.get_mut(id).unwrap();
    session.set_policy(policy_of("deny-all", &["fs:read"], PolicyAction::Deny));
    session.add_user_input("Read a file".to_string());
    assert_eq!(session.context().turn_count(), 1);
}

#[test]
fn session_with_tool_dispatches_through_policy() {
    let mut mgr = manager();
    let id = mgr.spawn_interactive(
        session_config(allow_all_policy()),
        vec![schema("file_read", &["fs:read"])],
    );
    let session = mgr.get_mut(id).unwrap();
    session.add_user_input("Read main.rs".to_string());
    let result = run_session(
        session,
        &mut |_| Ok(calls(vec![call("c1", "file_read", "{\"path\": \"src/main.rs\"}")])),
        &mut Outputs::of("file_read", ToolOutput::readonly(Json::text("ok"))),
        &mut Recording::auto_allow(),
    )
    .unwrap();
    assert!(result.continues);
    assert_eq!(result.tool_calls_dispatched, 1);
}

#[test]
fn session_control_queries() {
    let mut mgr = manager();
    let id = mgr.spawn_interactive(session_config(allow_all_policy()), vec![]);
    let session = mgr.get_mut(id).unwrap();
    assert!(session.tokens_used() > 0);
    assert!(session.context_utilization().used > 0);
    assert_eq!(session.context_utilization().window, 100_000);
    assert_eq!(session.turn_count(), 0);
    session.add_user_input("Hello".to_string());
    assert_eq!(session.turn_count(), 1);
}

#[test]
fn session_control_cancellation() {
    let mut mgr = manager();
    let id = mgr.spawn_interactive(
        session_config(allow_all_policy()),
        vec![schema("file_read", &["fs:read"])],
    );
    let session = mgr.get_mut(id).unwrap();
    session.add_user_input("Read files".to_string());
    // Starting the turn takes the flag back.
    session.cancel();
    let result = run_session(
        session,
        &mut |_| Ok(calls(vec![call("c1", "file_read", "{\"path\": \"a.rs\"}")])),
        &mut Outputs::of("file_read", ToolOutput::readonly(Json::text("data"))),
        &mut Recording::auto_allow(),
    )
    .unwrap();
    assert!(!result.was_cancelled);
}

#[test]
fn a_turn_cancelled_midway_runs_no_more_calls() {
    let mut mgr = manager();
    let id = mgr.spawn_interactive(
        session_config(allow_all_policy()),
        vec![schema("file_read", &["fs:read"])],
    );
    let session = mgr.get_mut(id).unwrap();
    session.add_user_input("Read files".to_string());
    let (mut run, step) = session.start_turn();
    assert!(matches!(step.next, TurnNext::Complete(_)));
    let step = session.respond(
        &mut run,
        Ok(calls(vec![call("c1", "file_read", "{}"), call("c2", "file_read", "{}")])),
    );
    assert!(matches!(step.next, TurnNext::CheckCancel));
    let step = session.next_call(&mut run);
    assert!(matches!(step.next, TurnNext::Execute { tool: 0, .. }));
    session.cancel();
    let step = session.complete_call(&mut run, Ok(ToolOutput::readonly(Json::Null)));
    assert!(matches!(step.next, TurnNext::CheckCancel));
    match session.next_call(&mut run).next {
        TurnNext::Done(result) => {
            assert!(result.was_cancelled);
            assert!(!result.continues);
            assert_eq!(result.tool_calls_dispatched, 1);
        }
        other => panic!("expected the end of the turn, got {other:?}"),
    }
}

#[test]
fn session_control_compaction() {
    let config = SessionConfig {
        context_config: ContextConfig {
            context_window: 10_000,
            compaction_threshold: Ratio::new(10, 100),
            verbatim_tail_ratio: Ratio::new(30, 100),
            compaction_cooldown_secs: 0,
            ..ContextConfig::default()
        },
        ..session_config(allow_all_policy())
    };
    let mut mgr = manager();
    let id = mgr.spawn_interactive(config, vec![]);
    let session = mgr.get_mut(id).unwrap();
    for i in 0..10 {
        session.add_user_input(format!(
            "This is turn {} with a reasonably long message for token counting",
            i
        ));
        run_session(
            session,
            &mut |_| {
                Ok(said(&format!(
                    "Here is a detailed response to turn {} with lots of information and context",
                    i
                )))
            },
            &mut Outputs::default_only(),
            &mut Recording::auto_allow(),
        )
        .unwrap();
    }
    let before = session.tokens_used();
    let freed = session.request_compaction().expect("compaction should succeed");
    assert!(freed > 0);
    assert!(session.tokens_used() < before);
}

#[test]
fn session_control_set_policy() {
    let mut mgr = manager();
    let id = mgr.spawn_interactive(
        session_config(allow_all_policy()),
        vec![schema("file_read", &["fs:read"])],
    );
    let session = mgr.get_mut(id).unwrap();
    session.add_user_input("Read".to_string());
    let mut frontend = Recording::auto_allow();
    let result = run_session(
        session,
        &mut |_| Ok(tool_call_response("file_read", parsed("{\"path\": \"x\"}"))),
        &mut Outputs::default_only(),
        &mut frontend,
    )
    .unwrap();
    assert_eq!(result.tool_calls_dispatched, 1);

    session.set_policy(policy_of("deny-all", &["fs:read"], PolicyAction::Deny));
    session.add_user_input("Read again".to_string());
    let result = run_session(
        session,
        &mut |_| Ok(tool_call_response("file_read", parsed("{\"path\": \"x\"}"))),
        &mut Outputs::default_only(),
        &mut frontend,
    )
    .unwrap();
    assert_eq!(result.tool_calls_denied, 1);
    assert_eq!(result.tool_calls_dispatched, 0);
}

// ---------------------------------------------------------------------------
// From the session manager down
// ---------------------------------------------------------------------------

#[test]
fn e2e_simple_text_conversation() {
    let mut mgr = manager();
    let id = mgr.spawn_interactive(session_config(allow_all_policy()), vec![]);
    let session = mgr.get_mut(id).unwrap();
    session.add_user_input("Hello!".to_string());
    let mut frontend = Recording::auto_allow();
    let result = run_session(
        session,
        &mut |_| {
            Ok(Response {
                content: vec![Content::Text("Hi! How can I help you today?".to_string())],
                usage: Usage { input_tokens: 50, output_tokens: 30, ..Usage::default() },
                stop_reason: StopReason::EndTurn,
            })
        },
        &mut Outputs::default_only(),
        &mut frontend,
    )
    .unwrap();
    assert!(!result.continues);
    assert_eq!(result.tool_calls_dispatched, 0);
    assert_eq!(frontend.turns_started, 1);
    assert_eq!(frontend.turns_ended, 1);
    assert!(frontend.tool_calls.is_empty());
}

#[test]
fn e2e_multi_turn_tool_use() {
    let mut outputs = Outputs::of(
        "file_read",
        ToolOutput::readonly(
            Json::object().with("content", Json::text("fn main() {\n    println!(\"Hello\");\n}")),
        ),
    );
    let mut mgr = manager();
    let id = mgr.spawn_interactive(
        session_config(allow_all_policy()),
        vec![schema("file_read", &["fs:read"])],
    );
    let session = mgr.get_mut(id).unwrap();
    session.add_user_input("What's in src/main.rs?".to_string());
    let mut frontend = Recording::auto_allow();
    let result1 = run_session(
        session,
        &mut |_| Ok(calls(vec![call("call_1", "file_read", "{\"path\": \"src/main.rs\"}")])),
        &mut outputs,
        &mut frontend,
    )
    .unwrap();
    assert!(result1.continues, "model made a tool call, should continue");
    assert_eq!(result1.tool_calls_dispatched, 1);

    let result2 = run_session(
        session,
        &mut |_| {
            Ok(said("The file contains a simple Rust main function that prints \"Hello\"."))
        },
        &mut outputs,
        &mut frontend,
    )
    .unwrap();
    assert!(!result2.continues, "model yielded to user");
    assert_eq!(frontend.turns_started, 2);
    assert_eq!(frontend.turns_ended, 2);
    assert_eq!(frontend.tool_calls.len(), 1);
    assert_eq!(frontend.tool_calls[0], "file_read");
    assert!(session.context().turn_count() >= 1);
}

#[test]
fn e2e_multiple_tools_single_turn() {
    let mut outputs = Outputs::of(
        "grep",
        ToolOutput::readonly(parsed(
            "{\"matches\": [{\"file\": \"src/lib.rs\", \"line\": 42, \"text\": \"fn connect()\"}]}",
        )),
    )
    .and(
        "file_read",
        ToolOutput::readonly(
            Json::object()
                .with("content", Json::text("pub fn connect() -> Result<(), Error> { ... }")),
        ),
    );
    let mut mgr = manager();
    let id = mgr.spawn_interactive(
        session_config(allow_all_policy()),
        vec![schema("grep", &["fs:read"]), schema("file_read", &["fs:read"])],
    );
    let session = mgr.get_mut(id).unwrap();
    session
        .add_user_input("Find the connect function and show me its implementation".to_string());
    let mut frontend = Recording::auto_allow();
    let result = run_session(
        session,
        &mut |_| {
            Ok(calls(vec![
                call("call_1", "grep", "{\"pattern\": \"fn connect\", \"path\": \"src/\"}"),
                call(
                    "call_2",
                    "file_read",
                    "{\"path\": \"src/lib.rs\", \"line_start\": 40, \"line_end\": 50}",
                ),
            ]))
        },
        &mut outputs,
        &mut frontend,
    )
    .unwrap();
    assert!(result.continues);
    assert_eq!(result.tool_calls_dispatched, 2);
    assert_eq!(frontend.tool_calls.len(), 2);
}

#[test]
fn e2e_tool_invalidation_flow() {
    let mut outputs = Outputs::of(
        "file_edit",
        ToolOutput::with_invalidations(
            parsed("{\"edited\": true}"),
            vec![Invalidation::Files(vec!["src/main.rs".to_string()])],
        ),
    );
    let mut mgr = manager();
    let id = mgr.spawn_interactive(
        session_config(allow_all_policy()),
        vec![schema("file_edit", &["fs:read", "fs:write"])],
    );
    let session = mgr.get_mut(id).unwrap();
    session.add_user_input("Fix the typo in main.rs".to_string());
    let result = run_session(
        session,
        &mut |_| {
            Ok(calls(vec![call(
                "call_1",
                "file_edit",
                "{\"path\": \"src/main.rs\", \"old\": \"pritnln\", \"new\": \"println\"}",
            )]))
        },
        &mut outputs,
        &mut Recording::auto_allow(),
    )
    .unwrap();
    assert!(result.continues);
    assert_eq!(result.tool_calls_dispatched, 1);
}

fn three_tools() -> Vec<ToolSchema> {
    vec![
        schema("file_read", &["fs:read"]),
        schema("shell", &["shell:exec"]),
        schema("file_write", &["fs:write"]),
    ]
}

#[test]
fn e2e_policy_enforcement() {
    let mut outputs = Outputs::of("file_read", ToolOutput::readonly(Json::text("file contents")))
        .and("file_write", ToolOutput::readonly(parsed("{\"written\": true}")));
    let mut mgr = manager();
    let id = mgr.spawn_interactive(session_config(lockdown_policy()), three_tools());
    let session = mgr.get_mut(id).unwrap();
    session.add_user_input("Read, write, and run a command".to_string());
    let mut frontend = Recording::auto_allow();
    let result = run_session(
        session,
        &mut |_| {
            Ok(calls(vec![
                call("c1", "file_read", "{\"path\": \"README.md\"}"),
                call("c2", "shell", "{\"command\": \"ls\"}"),
                call("c3", "file_write", "{\"path\": \"out.txt\", \"content\": \"hello\"}"),
            ]))
        },
        &mut outputs,
        &mut frontend,
    )
    .unwrap();
    assert_eq!(result.tool_calls_dispatched, 2);
    assert_eq!(result.tool_calls_denied, 1);
    assert_eq!(frontend.permission_requests.len(), 1);
    assert_eq!(frontend.permission_requests[0], "file_write");
}

#[test]
fn e2e_policy_user_denies_write() {
    let mut outputs = Outputs::of("file_read", ToolOutput::readonly(Json::text("contents")));
    let mut mgr = manager();
    let id = mgr.spawn_interactive(session_config(lockdown_policy()), three_tools());
    let session = mgr.get_mut(id).unwrap();
    session.add_user_input("Read, write, and run".to_string());
    let result = run_session(
        session,
        &mut |_| {
            Ok(calls(vec![
                call("c1", "file_read", "{}"),
                call("c2", "shell", "{}"),
                call("c3", "file_write", "{}"),
            ]))
        },
        &mut outputs,
        &mut Recording::auto_deny(),
    )
    .unwrap();
    assert_eq!(result.tool_calls_dispatched, 1);
    assert_eq!(result.tool_calls_denied, 2);
}

#[test]
fn e2e_policy_hot_swap() {
    let mut outputs = Outputs::of(
        "shell",
        ToolOutput::readonly(Json::object().with("output", Json::text("file1.rs\nfile2.rs"))),
    );
    let mut mgr = manager();
    let id = mgr.spawn_interactive(
        session_config(allow_all_policy()),
        vec![schema("shell", &["shell:exec"])],
    );
    let session = mgr.get_mut(id).unwrap();
    session.add_user_input("List files".to_string());
    let mut frontend = Recording::auto_allow();
    let r1 = run_session(
        session,
        &mut |_| Ok(calls(vec![call("c1", "shell", "{\"command\": \"ls\"}")])),
        &mut outputs,
        &mut frontend,
    )
    .unwrap();
    assert_eq!(r1.tool_calls_dispatched, 1, "shell allowed under permissive");

    session.set_policy(lockdown_policy());
    session.add_user_input("Run ls again".to_string());
    let r2 = run_session(
        session,
        &mut |_| Ok(calls(vec![call("c2", "shell", "{\"command\": \"ls\"}")])),
        &mut outputs,
        &mut frontend,
    )
    .unwrap();
    assert_eq!(r2.tool_calls_denied, 1, "shell denied under lockdown");
    assert_eq!(r2.tool_calls_dispatched, 0);
}

#[test]
fn e2e_pending_event_delivery() {
    let mut mgr = manager();
    let id = mgr.spawn_interactive(session_config(allow_all_policy()), vec![]);
    let session = mgr.get_mut(id).unwrap();
    session.deliver(PendingResult::ExternalEvent {
        source: "github-ci".to_string(),
        event_type: "check_run.failed".to_string(),
        summary: "Test suite failed: 3 failures in auth module".to_string(),
    });
    session.add_user_input("What happened with CI?".to_string());
    let result = run_session(
        session,
        &mut |_| Ok(said("CI failed with 3 test failures in the auth module.")),
        &mut Outputs::default_only(),
        &mut Recording::auto_allow(),
    )
    .unwrap();
    assert!(!result.continues);
    assert!(session.context().turn_count() >= 2);
}

#[test]
fn e2e_child_completion_delivery() {
    let mut mgr = manager();
    let id = mgr.spawn_interactive(session_config(allow_all_policy()), vec![]);
    let session = mgr.get_mut(id).unwrap();
    session.deliver(PendingResult::ChildCompleted {
        task: "lint-check".to_string(),
        message: "Found 2 linting issues, auto-fixed".to_string(),
        invalidations: vec![Invalidation::Files(vec![
            "src/lib.rs".to_string(),
            "src/utils.rs".to_string(),
        ])],
    });
    session.add_user_input("How did the lint check go?".to_string());
    let result = run_session(
        session,
        &mut |_| Ok(said("The lint check found and fixed 2 issues.")),
        &mut Outputs::default_only(),
        &mut Recording::auto_allow(),
    )
    .unwrap();
    assert!(!result.continues);
}

#[test]
fn e2e_compaction_triggers() {
    let config = SessionConfig {
        context_config: ContextConfig {
            context_window: 500,
            compaction_threshold: Ratio::new(50, 100),
            verbatim_tail_ratio: Ratio::new(30, 100),
            compaction_cooldown_secs: 0,
            ..ContextConfig::default()
        },
        ..session_config(allow_all_policy())
    };
    let mut mgr = manager();
    let id = mgr.spawn_interactive(config, vec![]);
    let session = mgr.get_mut(id).unwrap();
    let mut frontend = Recording::auto_allow();
    for i in 0..15 {
        session.add_user_input(format!(
            "This is message number {} with enough text to consume tokens in the context window",
            i
        ));
        let _ = run_session(
            session,
            &mut |_| {
                Ok(said("Acknowledged, here is a reasonably long response to consume tokens."))
            },
            &mut Outputs::default_only(),
            &mut frontend,
        );
    }
    assert!(
        frontend.compactions > 0,
        "compaction should have triggered with a 500-token window"
    );
}

#[test]
fn e2e_full_agent_workflow() {
    let mut outputs = Outputs::of(
        "file_read",
        ToolOutput::readonly(Json::object().with(
            "content",
            Json::text("fn add(a: i32, b: i32) -> i32 {\n    a - b  // BUG: should be +\n}"),
        )),
    )
    .and(
        "file_edit",
        ToolOutput::with_invalidations(
            parsed("{\"success\": true}"),
            vec![Invalidation::Files(vec!["src/math.rs".to_string()])],
        ),
    )
    .and(
        "shell",
        ToolOutput::readonly(parsed(
            "{\"exit_code\": 0, \"stdout\": \"test result: ok. 5 passed; 0 failed\", \"stderr\": \"\"}",
        )),
    );
    let mut mgr = manager();
    let id = mgr.spawn_interactive(
        session_config(allow_all_policy()),
        vec![
            schema("file_read", &["fs:read"]),
            schema("file_edit", &["fs:read", "fs:write"]),
            schema("shell", &["shell:exec"]),
        ],
    );
    let session = mgr.get_mut(id).unwrap();
    let mut frontend = Recording::auto_allow();
    session.add_user_input(
        "The add function in src/math.rs has a bug. Fix it and run the tests.".to_string(),
    );
    let script = [
        call("c1", "file_read", "{\"path\": \"src/math.rs\"}"),
        call(
            "c2",
            "file_edit",
            "{\"path\": \"src/math.rs\", \"old\": \"a - b  // BUG: should be +\", \"new\": \"a + b\"}",
        ),
        call("c3", "shell", "{\"command\": \"cargo test\"}"),
    ];
    for asked in script {
        let r = run_session(
            session,
            &mut |_| Ok(calls(vec![asked.clone()])),
            &mut outputs,
            &mut frontend,
        )
        .unwrap();
        assert!(r.continues);
    }
    let r4 = run_session(
        session,
        &mut |_| {
            Ok(said(
                "Fixed the bug in `add()` — it was using `-` instead of `+`. All 5 tests pass.",
            ))
        },
        &mut outputs,
        &mut frontend,
    )
    .unwrap();
    assert!(!r4.continues);
    assert_eq!(frontend.turns_started, 4);
    assert_eq!(frontend.tool_calls.len(), 3);
    assert_eq!(frontend.tool_calls[0], "file_read");
    assert_eq!(frontend.tool_calls[1], "file_edit");
    assert_eq!(frontend.tool_calls[2], "shell");
}

#[test]
fn e2e_cross_session_invalidation() {
    let mut mgr = manager();
    let id1 = mgr.spawn_interactive(session_config(allow_all_policy()), vec![]);
    let id2 = mgr.spawn_interactive(session_config(allow_all_policy()), vec![]);
    let invalidation = Invalidation::Files(vec!["shared/config.toml".to_string()]);
    mgr.propagate_invalidation(id1, &invalidation);
    assert!(mgr.get(id2).is_some());
    assert_eq!(mgr.active_count(), 2);
}

#[test]
fn e2e_tool_execution_error() {
    let mut outputs = Outputs(vec![(
        "buggy_tool".to_string(),
        Err(ToolError::ExecutionFailed("disk on fire".to_string())),
    )]);
    let mut mgr = manager();
    let id = mgr.spawn_interactive(
        session_config(allow_all_policy()),
        vec![schema("buggy_tool", &["fs:read"])],
    );
    let session = mgr.get_mut(id).unwrap();
    session.add_user_input("Read something".to_string());
    let mut frontend = Recording::auto_allow();
    let result = run_session(
        session,
        &mut |_| Ok(calls(vec![call("c1", "buggy_tool", "{}")])),
        &mut outputs,
        &mut frontend,
    )
    .unwrap();
    assert_eq!(result.tool_calls_dispatched, 1);
    let told = session.context().turns()[0].tool_exchanges[0].result.to_text();
    assert!(told.contains("disk on fire"), "{told}");

    session.add_user_input("Try something else".to_string());
    let r2 = run_session(
        session,
        &mut |_| Ok(said("OK, let me try another approach.")),
        &mut outputs,
        &mut frontend,
    )
    .unwrap();
    assert!(!r2.continues);
}

/// Keeps the lines that a log file would hold.
struct LineSink {
    session_id: SessionId,
    lines: Rc<RefCell<String>>,
}

impl SessionEventSink for LineSink {
    fn id(&self) -> SessionId {
        self.session_id
    }

    fn log(&self) -> EventLog {
        unreachable!()
    }

    fn session_id(&self) -> SessionId {
        self.session_id
    }

    fn record(&mut self, event: SessionEvent) {
        let mut lines = self.lines.borrow_mut();
        lines.push_str(&event.to_line());
        lines.push('\n');
    }
}

#[test]
fn e2e_session_events_written_to_file() {
    let lines = Rc::new(RefCell::new(String::new()));
    let sink = LineSink { session_id: SessionId(0), lines: lines.clone() };
    let mut mgr = SessionManager::new(ResourceBudget::default());
    let id =
        mgr.spawn_interactive_with_events(session_config(allow_all_policy()), vec![], sink);
    let session = mgr.get_mut(id).unwrap();
    session.add_user_input("What files are here?".to_string());
    run_session(
        session,
        &mut |_| Ok(said("Let me check.")),
        &mut Outputs::default_only(),
        &mut Recording::auto_allow(),
    )
    .unwrap();
    drop(mgr);

    let events = read_events(&lines.borrow()).expect("parse events");
    assert!(
        events.iter().any(|e| matches!(e, SessionEvent::SessionStarted { .. })),
        "expected SessionStarted event"
    );
    assert!(
        events.iter().any(|e| matches!(
            e,
            SessionEvent::UserInput { text, .. } if text == "What files are here?"
        )),
        "expected UserInput event with matching text"
    );
    assert!(
        events.iter().any(|e| matches!(e, SessionEvent::AssistantResponse { .. })),
        "expected AssistantResponse event"
    );
}
