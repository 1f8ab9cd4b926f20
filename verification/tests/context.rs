use agent_kernel::context::{ContextConfig, ContextManager, PlanStep, Ratio};
use agent_kernel::context_store::{ContextStore, InMemoryContextStore, Turn};
use agent_kernel::event_log::read_events;
use agent_kernel::json::Json;
use agent_kernel::permission::PermissionEvaluator;
use agent_kernel::policy::{Policy, PolicyAction, PolicyRule};
use agent_kernel::session_events::{EventLog, SessionEvent, SessionEventSink};
use agent_kernel::tool::ToolSchema;
use agent_kernel::types::{
    CapabilitySet, Content, Decision, Invalidation, Message, RelevanceSignal, Role, SessionId,
    TokenEstimate,
};
use std::cell::RefCell;
use std::rc::Rc;

fn test_config() -> ContextConfig {
    ContextConfig {
        context_window: 1000,
        compaction_threshold: Ratio::new(65, 100),
        compaction_cooldown_secs: 0,
        ..ContextConfig::default()
    }
}

fn compacting_config(window: usize) -> ContextConfig {
    ContextConfig {
        context_window: window,
        compaction_threshold: Ratio::new(10, 100),
        verbatim_tail_ratio: Ratio::new(30, 100),
        compaction_cooldown_secs: 0,
        ..ContextConfig::default()
    }
}

struct VecSink {
    session_id: SessionId,
    events: Rc<RefCell<Vec<SessionEvent>>>,
}

impl SessionEventSink for VecSink {
    fn id(&self) -> SessionId {
        self.session_id
    }

    fn log(&self) -> EventLog {
        unreachable!()
    }

    fn session_id(&self) -> SessionId {
        self.session_id
    }

    fn record(&mut self, event: SessionEvent) {
        self.events.borrow_mut().push(event);
    }
}

fn tool(name: &str, caps: &[&str], cost: usize) -> ToolSchema {
    let mut capabilities = CapabilitySet::new();
    for cap in caps {
        capabilities = capabilities.and(cap);
    }
    ToolSchema {
        name: name.to_string(),
        description: "test tool".to_string(),
        capabilities,
        schema: Json::Null,
        cost: TokenEstimate(cost),
        relevance: RelevanceSignal { keywords: vec![], tags: vec![] },
    }
}

// ---------------------------------------------------------------------------
// The context manager
// ---------------------------------------------------------------------------

#[test]
fn context_manager_fans_out_to_event_sink() {
    let captured: Rc<RefCell<Vec<SessionEvent>>> = Rc::new(RefCell::new(Vec::new()));
    let sink = VecSink { session_id: SessionId(9), events: captured.clone() };
    let mut cm = ContextManager::with_event_sink(test_config(), "System.".to_string(), sink);
    cm.record_session_started("/tmp/workspace".to_string(), "test-policy".to_string());
    cm.append_user_input("hi".to_string());
    cm.append_assistant_response("hello".to_string());
    cm.append_tool_exchange(
        "file_read".to_string(),
        Json::object().with("path", Json::text("a.txt")),
        Json::object().with("content", Json::text("abc")),
    );
    cm.append_system_message("[external] ping".to_string());
    let events = captured.borrow();
    assert_eq!(events.len(), 5);
    assert!(matches!(events[0], SessionEvent::SessionStarted { .. }));
    assert!(matches!(events[1], SessionEvent::UserInput { ref text, .. } if text == "hi"));
    assert!(
        matches!(events[2], SessionEvent::AssistantResponse { ref text, .. } if text == "hello")
    );
    assert!(
        matches!(events[3], SessionEvent::ToolExchange { ref tool_name, .. } if tool_name == "file_read")
    );
    assert!(
        matches!(events[4], SessionEvent::SystemMessage { ref text, .. } if text == "[external] ping")
    );
}

#[test]
fn compaction_does_not_touch_event_stream() {
    let captured: Rc<RefCell<Vec<SessionEvent>>> = Rc::new(RefCell::new(Vec::new()));
    let sink = VecSink { session_id: SessionId(3), events: captured.clone() };
    let mut cm = ContextManager::with_event_sink(compacting_config(1000), "sys".to_string(), sink);
    for i in 0..10 {
        cm.append_user_input(format!(
            "Turn {i} with enough text to register as non-trivial tokens and trigger the compaction window."
        ));
    }
    let before: Vec<SessionEvent> = captured.borrow().clone();
    let lines: Vec<String> = before.iter().map(|e| e.to_line()).collect();
    cm.compact().expect("compaction should succeed");
    let after: Vec<SessionEvent> = captured.borrow().clone();
    assert_eq!(before, after, "compaction must not modify the captured events");
    let lines_after: Vec<String> = after.iter().map(|e| e.to_line()).collect();
    assert_eq!(lines, lines_after, "compaction must not modify the lines of the log");
    assert_eq!(read_events(&lines.join("\n")).unwrap(), before);
}

#[test]
fn new_context_manager_tracks_system_prompt_tokens() {
    let cm = ContextManager::new(test_config(), "You are a helpful assistant.".to_string());
    assert!(cm.tokens_used() > 0);
    assert!(cm.utilization().used > 0);
    // A fourth of the bytes, rounded up.
    assert_eq!(cm.tokens_used(), 7);
    assert_eq!(ContextManager::new(test_config(), "12345".to_string()).tokens_used(), 2);
}

#[test]
fn append_user_input_increases_tokens() {
    let mut cm = ContextManager::new(test_config(), "System.".to_string());
    let before = cm.tokens_used();
    cm.append_user_input("Hello, what files are in this directory?".to_string());
    assert!(cm.tokens_used() > before);
    assert_eq!(cm.turn_count(), 1);
}

#[test]
fn append_tool_exchange_tracks_in_current_turn() {
    let mut cm = ContextManager::new(test_config(), "System.".to_string());
    cm.append_user_input("List files".to_string());
    cm.append_tool_exchange(
        "ls".to_string(),
        Json::object().with("path", Json::text(".")),
        Json::parse("{\"files\": [\"a.rs\", \"b.rs\"]}").unwrap(),
    );
    assert_eq!(cm.turns().last().unwrap().tool_exchanges.len(), 1);
}

#[test]
fn should_compact_triggers_at_threshold() {
    let config = ContextConfig {
        context_window: 100,
        compaction_threshold: Ratio::new(50, 100),
        compaction_cooldown_secs: 0,
        ..ContextConfig::default()
    };
    let mut cm = ContextManager::new(config, "Sys.".to_string());
    assert!(!cm.should_compact());
    for i in 0..20 {
        cm.append_user_input(format!("Message number {} with some padding text", i));
    }
    assert!(cm.should_compact());
}

#[test]
fn compact_frees_tokens() {
    let mut cm = ContextManager::new(compacting_config(10_000), "System.".to_string());
    for i in 0..10 {
        cm.append_user_input(format!(
            "This is turn {} with a reasonably long message to have meaningful tokens",
            i
        ));
        cm.append_assistant_response(format!(
            "Here is a detailed response to turn {} with information",
            i
        ));
    }
    let before = cm.tokens_used();
    let freed = cm.compact().expect("compaction should succeed");
    assert!(freed > 0, "should free some tokens");
    assert!(cm.tokens_used() < before, "token usage should decrease");
    assert_eq!(cm.tokens_used() + freed, before);
}

#[test]
fn compact_preserves_verbatim_tail() {
    let mut cm = ContextManager::new(compacting_config(10_000), "System.".to_string());
    for i in 0..10 {
        cm.append_user_input(format!("Turn {}", i));
    }
    cm.compact().expect("compaction should succeed");
    let tail_count = (10.0_f64 * 0.30).ceil() as usize;
    for turn in &cm.turns()[cm.turn_count() - tail_count..] {
        assert!(!turn.summarized, "tail turns should not be summarized");
    }
    for turn in &cm.turns()[..cm.turn_count() - tail_count] {
        assert!(turn.summarized);
    }
}

#[test]
fn compact_death_spiral_guard() {
    let config = ContextConfig {
        context_window: 10_000,
        compaction_cooldown_secs: 0,
        max_compaction_failures: 3,
        ..ContextConfig::default()
    };
    let mut cm = ContextManager::new(config, "System.".to_string());
    cm.append_user_input("Solo turn".to_string());
    for _ in 0..3 {
        assert!(cm.compact().is_err());
    }
    let result = cm.compact();
    assert!(result.is_err());
    assert!(result.unwrap_err().contains("halted"));
}

#[test]
fn compaction_waits_for_the_cooldown() {
    let config = ContextConfig { compaction_cooldown_secs: 3600, ..compacting_config(10_000) };
    let mut cm = ContextManager::new(config, "System.".to_string());
    for i in 0..10 {
        cm.append_user_input(format!("Turn {}", i));
    }
    assert!(cm.compact().is_ok());
    assert_eq!(cm.compact().unwrap_err(), "compaction cooldown active");
    // The clock goes by what has passed since.
    assert_eq!(cm.compact_after(Some(3599)).unwrap_err(), "compaction cooldown active");
    assert_eq!(cm.compact_after(Some(3600)), Ok(0));
}

#[test]
fn scratchpad_survives_compaction() {
    let mut cm = ContextManager::new(compacting_config(10_000), "System.".to_string());
    cm.scratchpad_mut().constraints.push("Don't modify auth module".to_string());
    cm.scratchpad_mut()
        .plan
        .push(PlanStep { description: "Fix the bug".to_string(), completed: false });
    for i in 0..10 {
        cm.append_user_input(format!("Turn {}", i));
        cm.append_assistant_response(format!("Response {}", i));
    }
    cm.compact().expect("compaction should succeed");
    assert_eq!(cm.scratchpad().constraints.len(), 1);
    assert_eq!(cm.scratchpad().constraints[0], "Don't modify auth module");
    assert_eq!(cm.scratchpad().plan.len(), 1);
}

#[test]
fn assemble_includes_scratchpad_in_system() {
    let mut cm = ContextManager::new(test_config(), "You are helpful.".to_string());
    cm.scratchpad_mut().constraints.push("No auth changes".to_string());
    let prompt = cm.assemble();
    assert!(prompt.system.contains("CONSTRAINT: No auth changes"));
}

#[test]
fn assemble_pairs_each_call_with_its_result() {
    let mut cm = ContextManager::new(test_config(), "System.".to_string());
    cm.append_user_input("go".to_string());
    cm.append_tool_exchange("a".to_string(), Json::Null, Json::text("one"));
    cm.append_tool_exchange("b".to_string(), Json::Null, Json::text("two"));
    cm.append_assistant_response("done".to_string());
    let mut asked: Vec<String> = vec![];
    let mut answered: Vec<String> = vec![];
    for message in cm.assemble().messages {
        for content in message.content {
            match content {
                Content::ToolCall { id, .. } => {
                    assert_eq!(message.role, Role::Assistant);
                    asked.push(id);
                }
                Content::ToolResult { id, .. } => {
                    assert_eq!(message.role, Role::User);
                    answered.push(id);
                }
                Content::Text(_) => {}
            }
        }
    }
    assert_eq!(asked.len(), 2);
    assert_eq!(asked, answered);
    assert_ne!(asked[0], asked[1]);
}

#[test]
fn invalidate_files_removes_from_cache() {
    let mut cm = ContextManager::new(test_config(), "System.".to_string());
    cm.cache_file("src/main.rs".to_string(), "fn main() {}".to_string());
    cm.cache_file("src/lib.rs".to_string(), "".to_string());
    assert!(cm.is_cached("src/main.rs"));
    cm.invalidate_files(&vec!["src/main.rs".to_string()]);
    assert!(!cm.is_cached("src/main.rs"));
    assert!(cm.is_cached("src/lib.rs"));
    cm.process_invalidation(&Invalidation::WorkingDirectory("/elsewhere".to_string()));
    assert!(!cm.is_cached("src/lib.rs"));
}

#[test]
fn page_in_tool_respects_budget() {
    let config = ContextConfig { context_window: 1000, ..ContextConfig::default() };
    let mut cm = ContextManager::new(config, "Sys.".to_string());
    assert!(!cm.page_in_tool(&tool("big_tool", &[], 999_999)));
    let before = cm.tokens_used();
    assert!(cm.page_in_tool(&tool("small_tool", &[], 10)));
    assert_eq!(cm.tokens_used(), before + 10);
    assert!(cm.page_out_tool("small_tool"));
    assert!(!cm.page_out_tool("small_tool"));
    // What the tool took stays counted.
    assert_eq!(cm.tokens_used(), before + 10);
}

#[test]
fn a_session_replays_from_its_log() {
    let captured: Rc<RefCell<Vec<SessionEvent>>> = Rc::new(RefCell::new(Vec::new()));
    let sink = VecSink { session_id: SessionId(0), events: captured.clone() };
    let mut cm = ContextManager::with_event_sink(test_config(), "System.".to_string(), sink);
    cm.record_session_started("/w".to_string(), "p".to_string());
    cm.append_user_input("one".to_string());
    cm.append_assistant_response("two".to_string());
    cm.append_tool_exchange(
        "ls".to_string(),
        Json::object(),
        Json::parse("[\"a\", 1]").unwrap(),
    );
    cm.append_system_message("three".to_string());
    let lines: Vec<String> = captured.borrow().iter().map(|e| e.to_line()).collect();

    let mut again = ContextManager::new(test_config(), "System.".to_string());
    for event in read_events(&(lines.join("\n") + "\n")).unwrap() {
        match event {
            SessionEvent::SessionStarted { .. } => {}
            SessionEvent::UserInput { text, .. } => again.append_user_input(text),
            SessionEvent::SystemMessage { text, .. } => again.append_system_message(text),
            SessionEvent::AssistantResponse { text, .. } => again.append_assistant_response(text),
            SessionEvent::ToolExchange { tool_name, input, result, .. } => {
                again.append_tool_exchange(tool_name, input, result)
            }
        }
    }
    assert_eq!(again.tokens_used(), cm.tokens_used());
    assert_eq!(format!("{:?}", again.turns()), format!("{:?}", cm.turns()));
}

#[test]
fn long_system_prompts_are_noticed() {
    let config = ContextConfig { context_window: 100, ..ContextConfig::default() };
    let cm = ContextManager::new(config, "x".repeat(60));
    assert_eq!(cm.system_prompt_excess(), None);
    let cm = ContextManager::new(config, "x".repeat(64));
    assert_eq!(cm.system_prompt_excess(), Some((16, 15)));
}

// ---------------------------------------------------------------------------
// The store
// ---------------------------------------------------------------------------

fn sample_turn(text: &str) -> Turn {
    Turn {
        input: Message { role: Role::User, content: vec![Content::Text(text.to_string())] },
        response: None,
        tool_exchanges: Vec::new(),
        token_estimate: text.len() / 4,
        summarized: false,
    }
}

#[test]
fn in_memory_store_basic_operations() {
    let mut store = InMemoryContextStore::new();
    assert_eq!(store.turn_count(), 0);
    store.append_turn(sample_turn("Hello"));
    assert_eq!(store.turn_count(), 1);
    store.append_turn(sample_turn("World"));
    assert_eq!(store.turn_count(), 2);
    assert_eq!(store.turns().len(), 2);
    let last = store.last_turn_mut().unwrap();
    last.token_estimate = 999;
    assert_eq!(store.turns()[1].token_estimate, 999);
}

#[test]
fn in_memory_store_mutable_slice() {
    let mut store = InMemoryContextStore::new();
    for i in 0..5 {
        store.append_turn(sample_turn(&format!("Turn {}", i)));
    }
    for turn in &mut store.turns_mut()[..3] {
        turn.summarized = true;
    }
    assert!(store.turns()[0].summarized);
    assert!(store.turns()[2].summarized);
    assert!(!store.turns()[3].summarized);
}

// ---------------------------------------------------------------------------
// Permissions
// ---------------------------------------------------------------------------

fn rule_for(pattern: &str, action: PolicyAction) -> PolicyRule {
    PolicyRule {
        match_capabilities: vec![pattern.to_string()],
        action,
        scope_paths: Vec::new(),
        scope_commands: Vec::new(),
        except: Vec::new(),
    }
}

fn permissive_policy() -> Policy {
    Policy {
        version: 1,
        name: "permissive".to_string(),
        rules: vec![
            rule_for("fs:read", PolicyAction::Allow),
            rule_for("fs:write", PolicyAction::Allow),
            rule_for("shell:exec", PolicyAction::Ask),
            rule_for("net:*", PolicyAction::Deny),
        ],
        resource_budgets: None,
    }
}

#[test]
fn kernel_internal_tools_always_allowed() {
    let evaluator = PermissionEvaluator::new(permissive_policy());
    assert_eq!(evaluator.evaluate(&tool("request_tool", &[], 0)), Decision::Allow);
}

#[test]
fn read_only_tool_allowed() {
    let evaluator = PermissionEvaluator::new(permissive_policy());
    assert_eq!(evaluator.evaluate(&tool("file_read", &["fs:read"], 0)), Decision::Allow);
}

#[test]
fn write_tool_allowed() {
    let evaluator = PermissionEvaluator::new(permissive_policy());
    assert_eq!(evaluator.evaluate(&tool("file_write", &["fs:write"], 0)), Decision::Allow);
}

#[test]
fn shell_tool_asks() {
    let evaluator = PermissionEvaluator::new(permissive_policy());
    assert_eq!(evaluator.evaluate(&tool("shell", &["shell:exec"], 0)), Decision::Ask);
}

#[test]
fn network_tool_denied() {
    let evaluator = PermissionEvaluator::new(permissive_policy());
    let fetch = tool("web_fetch", &["net:api.github.com"], 0);
    assert!(matches!(evaluator.evaluate(&fetch), Decision::Deny(_)));
}

#[test]
fn multi_cap_tool_deny_wins_over_ask() {
    let evaluator = PermissionEvaluator::new(permissive_policy());
    let risky = tool("risky_tool", &["shell:exec", "net:api.example.com"], 0);
    assert!(matches!(evaluator.evaluate(&risky), Decision::Deny(_)));
    let turned = tool("risky_tool", &["net:api.example.com", "shell:exec"], 0);
    assert!(matches!(evaluator.evaluate(&turned), Decision::Deny(_)));
}

#[test]
fn multi_cap_tool_ask_if_no_deny() {
    let evaluator = PermissionEvaluator::new(permissive_policy());
    let git = tool("git", &["fs:read", "shell:exec"], 0);
    assert_eq!(evaluator.evaluate(&git), Decision::Ask);
}

#[test]
fn policy_swap_changes_behavior() {
    let mut evaluator = PermissionEvaluator::new(permissive_policy());
    let shell = tool("shell", &["shell:exec"], 0);
    assert_eq!(evaluator.evaluate(&shell), Decision::Ask);
    let mut new_policy = permissive_policy();
    new_policy.rules[2].action = PolicyAction::Allow;
    evaluator.set_policy(new_policy);
    assert_eq!(evaluator.evaluate(&shell), Decision::Allow);
}
