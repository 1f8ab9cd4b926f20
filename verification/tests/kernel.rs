use agent_kernel::context_store::InMemoryContextStore;
use agent_kernel::echo::EchoProvider;
use agent_kernel::event_loop::{EventLoop, LoopNext, LoopStep};
use agent_kernel::framing::{
    document_of, message_len, read_message, write_message, FrameError, MAX_MESSAGE_SIZE,
};
use agent_kernel::frontend::{KernelError, PermissionRequest};
use agent_kernel::in_process::InProcessKernel;
use agent_kernel::json::Json;
use agent_kernel::manifest::{ProviderChoice, ProviderConfig, ProviderFallback, Toml, ToolsetEntry};
use agent_kernel::mcp_stdio;
use agent_kernel::policy::{Policy, PolicyAction, PolicyRule};
use agent_kernel::protocol::{
    ExternalEvent, KernelEvent, KernelRequest, RequestId, SessionCreateConfig,
};
use agent_kernel::provider::{ProviderError, Response};
use agent_kernel::proxy_frontend::{PermissionResponse, ProxyFrontend};
use agent_kernel::proxy_tool::{ProxyTool, ToolReply, ToolResponse};
use agent_kernel::router::{remote_sink, ConnectionRouter, RouterSend};
use agent_kernel::session::Session;
use agent_kernel::session_events::{fingerprint_of, NullSink};
use agent_kernel::testutil::{allow_all_policy, text_response, tool_call_response};
use agent_kernel::tool::{ToolError, ToolOutput, ToolSchema};
use agent_kernel::toolset_pool::{
    check_kind, construct_error, default_registry, Toolset, ToolsetPool,
};
use agent_kernel::turn_loop::TurnNotice;
use agent_kernel::types::{
    CapabilitySet, CompletionConfig, Content, Decision, Invalidation, Message, Prompt,
    RelevanceSignal, ResourceBudget, Role, SessionId, SessionMode, TokenEstimate, TurnId,
};

fn create_config(system_prompt: &str, policy: Policy) -> SessionCreateConfig {
    SessionCreateConfig {
        mode: SessionMode::Interactive,
        system_prompt: system_prompt.to_string(),
        completion_config: CompletionConfig::default(),
        policy,
        resource_budget: ResourceBudget::default(),
        workspace: "/tmp/test".to_string(),
    }
}

fn schema(name: &str, cap: &str) -> ToolSchema {
    ToolSchema {
        name: name.to_string(),
        description: "Read a file".to_string(),
        capabilities: CapabilitySet::of(cap),
        schema: Json::object().with("type", Json::text("object")),
        cost: TokenEstimate(100),
        relevance: RelevanceSignal { keywords: vec![], tags: vec![] },
    }
}

fn event_loop(policy: Policy, tools: Vec<ToolSchema>) -> EventLoop<NullSink> {
    EventLoop::new(
        SessionId(0),
        create_config("You are helpful.", policy),
        tools,
        NullSink::new(SessionId(0)),
        fingerprint_of("/tmp/test".to_string(), None, None, None),
    )
}

/// Runs the loop from a step until it waits for a request or stops, and gives
/// back whether it stopped.
fn run(
    kernel: &mut EventLoop<NullSink>,
    mut step: LoopStep,
    provide: &mut dyn FnMut(&Prompt) -> Result<Response, ProviderError>,
    execute: &mut dyn FnMut(&str, Json) -> Result<ToolOutput, ToolError>,
    decide: &mut dyn FnMut(RequestId) -> Option<PermissionResponse>,
    events: &mut Vec<KernelEvent>,
) -> bool {
    loop {
        let mut asked = RequestId(0);
        for event in step.events {
            if let KernelEvent::PermissionRequired { request_id, .. } = &event {
                asked = *request_id;
            }
            events.push(event);
        }
        step = match step.next {
            LoopNext::Receive => return false,
            LoopNext::Stop => return true,
            LoopNext::StartTurn => kernel.start_turn(),
            LoopNext::Complete(prompt) => kernel.respond(provide(&prompt)),
            LoopNext::CheckCancel => kernel.next_call(),
            LoopNext::Execute { tool_name, input, .. } => {
                let result = execute(&tool_name, input);
                kernel.complete_call(result)
            }
            LoopNext::AwaitDecision => kernel.decide(decide(asked)),
        };
    }
}

fn request(
    kernel: &mut EventLoop<NullSink>,
    request: KernelRequest,
    provide: &mut dyn FnMut(&Prompt) -> Result<Response, ProviderError>,
) -> (Vec<KernelEvent>, bool) {
    let mut events: Vec<KernelEvent> = vec![];
    let step = kernel.handle(request);
    let stopped = run(
        kernel,
        step,
        provide,
        &mut |_, _| Ok(ToolOutput::readonly(Json::Null)),
        &mut |request_id| Some(PermissionResponse { request_id, decision: Decision::Allow }),
        &mut events,
    );
    (events, stopped)
}

// ---------------------------------------------------------------------------
// The event loop
// ---------------------------------------------------------------------------

#[test]
fn event_loop_text_only_turn() {
    let mut kernel = event_loop(allow_all_policy(), vec![]);
    let (events, stopped) = request(
        &mut kernel,
        KernelRequest::AddInput { session_id: SessionId(0), text: "Hi".to_string() },
        &mut |_| Ok(text_response("Hello!")),
    );
    assert!(!stopped);
    let mut got_text = false;
    let mut ended = false;
    for event in events {
        match event {
            KernelEvent::TextOutput { text, .. } => {
                assert_eq!(text, "Hello!");
                got_text = true;
            }
            KernelEvent::TurnEnded { result, .. } => {
                assert_eq!(result.tool_calls_dispatched, 0);
                ended = true;
            }
            _ => {}
        }
    }
    assert!(got_text);
    assert!(ended);
}

#[test]
fn event_loop_query_session() {
    let mut kernel = event_loop(allow_all_policy(), vec![]);
    let (events, _) = request(
        &mut kernel,
        KernelRequest::QuerySession { session_id: SessionId(0) },
        &mut |_| Ok(text_response("Hi")),
    );
    match &events[0] {
        KernelEvent::SessionStatus { tokens_used, turn_count, .. } => {
            assert!(*tokens_used > 0);
            assert_eq!(*turn_count, 0);
        }
        event => panic!("expected SessionStatus, got {:?}", event),
    }
}

#[test]
fn event_loop_shutdown() {
    let mut kernel = event_loop(allow_all_policy(), vec![]);
    let (events, stopped) =
        request(&mut kernel, KernelRequest::Shutdown, &mut |_| Ok(text_response("Hi")));
    assert!(stopped);
    assert!(events.is_empty());
}

#[test]
fn event_loop_goes_on_after_a_failed_completion() {
    let mut kernel = event_loop(allow_all_policy(), vec![]);
    let (events, stopped) = request(
        &mut kernel,
        KernelRequest::AddInput { session_id: SessionId(0), text: "Hi".to_string() },
        &mut |_| Err(ProviderError::Network("cut off".to_string())),
    );
    assert!(!stopped);
    assert!(events.iter().any(|e| matches!(e, KernelEvent::Error { .. })));
    assert!(matches!(events.last(), Some(KernelEvent::TurnEnded { .. })));
}

#[test]
fn event_loop_runs_turns_until_the_model_yields() {
    let mut kernel = event_loop(allow_all_policy(), vec![schema("file_read", "fs:read")]);
    let mut left = 2;
    let (events, _) = request(
        &mut kernel,
        KernelRequest::AddInput { session_id: SessionId(0), text: "Read".to_string() },
        &mut |_| {
            if left > 0 {
                left -= 1;
                Ok(tool_call_response("file_read", Json::object()))
            } else {
                Ok(text_response("done"))
            }
        },
    );
    let started = events.iter().filter(|e| matches!(e, KernelEvent::TurnStarted { .. })).count();
    let completed =
        events.iter().filter(|e| matches!(e, KernelEvent::ToolCompleted { .. })).count();
    assert_eq!(started, 3);
    assert_eq!(completed, 2);
}

#[test]
fn event_loop_denies_what_nobody_answers() {
    let ask = Policy {
        version: 1,
        name: "ask".to_string(),
        rules: vec![PolicyRule {
            match_capabilities: vec!["fs:*".to_string()],
            action: PolicyAction::Ask,
            scope_paths: vec![],
            scope_commands: vec![],
            except: vec![],
        }],
        resource_budgets: None,
    };
    let mut kernel = event_loop(ask, vec![schema("file_read", "fs:read")]);
    let mut events: Vec<KernelEvent> = vec![];
    let step = kernel
        .handle(KernelRequest::AddInput { session_id: SessionId(0), text: "Read".to_string() });
    run(
        &mut kernel,
        step,
        &mut |_| Ok(tool_call_response("file_read", Json::object())),
        &mut |_, _| panic!("nothing runs unasked"),
        &mut |_| None,
        &mut events,
    );
    assert!(events.iter().any(|e| matches!(e, KernelEvent::PermissionRequired { .. })));
    let denied = events.iter().any(
        |e| matches!(e, KernelEvent::TurnEnded { result, .. } if result.tool_calls_denied == 1),
    );
    assert!(denied);
}

#[test]
fn delivered_events_wait_for_the_next_turn() {
    let mut kernel = event_loop(allow_all_policy(), vec![]);
    request(
        &mut kernel,
        KernelRequest::DeliverEvent {
            session_id: SessionId(0),
            event: ExternalEvent {
                source: "github".to_string(),
                event_type: "push".to_string(),
                payload: Json::object(),
            },
        },
        &mut |_| Ok(text_response("ok")),
    );
    let session: &Session<InMemoryContextStore, NullSink> = kernel.session();
    assert_eq!(session.pending_count(), 1);
    request(
        &mut kernel,
        KernelRequest::AddInput { session_id: SessionId(0), text: "go".to_string() },
        &mut |_| Ok(text_response("ok")),
    );
    assert_eq!(kernel.session().pending_count(), 0);
}

// ---------------------------------------------------------------------------
// The kernel in one process
// ---------------------------------------------------------------------------

#[test]
fn in_process_text_only_turn() {
    let mut in_process = InProcessKernel::new();
    let (id, proxies) = in_process.create_session();
    assert_eq!(id, SessionId(0));
    let tools: Vec<ToolSchema> = proxies.into_iter().map(|p| p.schema).collect();
    let mut kernel = EventLoop::new(
        id,
        create_config("Test.", allow_all_policy()),
        tools,
        NullSink::new(id),
        fingerprint_of("/tmp/test".to_string(), None, None, None),
    );
    let (events, _) = request(
        &mut kernel,
        KernelRequest::AddInput { session_id: SessionId(0), text: "Hi".to_string() },
        &mut |_| Ok(text_response("Hello from kernel!")),
    );
    let got_text = events.iter().any(
        |e| matches!(e, KernelEvent::TextOutput { text, .. } if text == "Hello from kernel!"),
    );
    assert!(got_text);
    assert!(matches!(events.last(), Some(KernelEvent::TurnEnded { .. })));
}

#[test]
fn in_process_tool_execution() {
    let mut in_process = InProcessKernel::new();
    in_process.register_tools(vec![schema("file_read", "fs:read")]);
    let (id, proxies) = in_process.create_session();
    assert_eq!(proxies.len(), 1);
    let tools: Vec<ToolSchema> = proxies.iter().map(|p| p.schema.clone()).collect();
    let mut kernel = EventLoop::new(
        id,
        create_config("Test.", allow_all_policy()),
        tools,
        NullSink::new(id),
        fingerprint_of("/tmp/test".to_string(), None, None, None),
    );
    let mut counter: u64 = 0;
    let mut called = 0;
    let mut events: Vec<KernelEvent> = vec![];
    let step = kernel
        .handle(KernelRequest::AddInput { session_id: id, text: "Read main.rs".to_string() });
    run(
        &mut kernel,
        step,
        &mut |prompt| {
            if prompt.messages.len() > 1 {
                return Ok(text_response("read"));
            }
            let input = Json::object().with("path", Json::text("main.rs"));
            Ok(tool_call_response("file_read", input))
        },
        &mut |_, input| {
            called += 1;
            let asked = proxies[0].request(&mut counter, input);
            assert_eq!(asked.tool_name, "file_read");
            ProxyTool::outcome(ToolReply::Response(ToolResponse {
                request_id: asked.request_id,
                result: Json::text("fn main() {}"),
                invalidations: vec![],
            }))
        },
        &mut |_| None,
        &mut events,
    );
    assert_eq!(called, 1);
    let told = events.iter().any(|e| {
        matches!(e, KernelEvent::ToolCompleted { result, .. }
            if result.as_str() == Some("fn main() {}"))
    });
    assert!(told);
}

#[test]
fn in_process_query_session() {
    let mut in_process = InProcessKernel::new();
    let (id, _) = in_process.create_session();
    let mut kernel = EventLoop::new(
        id,
        create_config("Test.", allow_all_policy()),
        vec![],
        NullSink::new(id),
        fingerprint_of("/tmp/test".to_string(), None, None, None),
    );
    let (events, _) = request(
        &mut kernel,
        KernelRequest::QuerySession { session_id: id },
        &mut |_| Ok(text_response("Hi")),
    );
    match &events[0] {
        KernelEvent::SessionStatus { tokens_used, turn_count, .. } => {
            assert!(*tokens_used > 0);
            assert_eq!(*turn_count, 0);
        }
        _ => panic!("expected SessionStatus"),
    }
}

// ---------------------------------------------------------------------------
// The proxies
// ---------------------------------------------------------------------------

#[test]
fn proxy_frontend_sends_text_event() {
    let frontend = ProxyFrontend::new(SessionId(1));
    match frontend.event_of(TurnNotice::Text("Hello from the model".to_string())) {
        KernelEvent::TextOutput { session_id, text } => {
            assert_eq!(session_id, SessionId(1));
            assert_eq!(text, "Hello from the model");
        }
        event => panic!("unexpected event: {:?}", event),
    }
}

#[test]
fn proxy_frontend_sends_turn_lifecycle() {
    let frontend = ProxyFrontend::new(SessionId(0));
    let events =
        frontend.events_of(vec![TurnNotice::Started(TurnId(5)), TurnNotice::Ended(TurnId(5))]);
    assert_eq!(events.len(), 2);
    assert!(matches!(events[0], KernelEvent::TurnStarted { turn_id: TurnId(5), .. }));
    assert!(matches!(events[1], KernelEvent::TurnEnded { turn_id: TurnId(5), .. }));
}

#[test]
fn proxy_frontend_permission_round_trip() {
    let mut frontend = ProxyFrontend::new(SessionId(0));
    let asked = frontend.permission_event(PermissionRequest {
        tool_name: "shell".to_string(),
        capabilities: vec!["shell:exec".to_string()],
        input_summary: "ls -la".to_string(),
    });
    let request_id = match asked {
        KernelEvent::PermissionRequired { request_id, .. } => request_id,
        _ => panic!("unexpected event"),
    };
    let decision = ProxyFrontend::decision(Some(PermissionResponse {
        request_id,
        decision: Decision::Allow,
    }));
    assert_eq!(decision, Decision::Allow);
}

#[test]
fn proxy_frontend_permission_timeout_denies() {
    let decision = ProxyFrontend::decision(None);
    assert!(matches!(decision, Decision::Deny(_)));
}

#[test]
fn proxy_frontend_sends_error_event() {
    let frontend = ProxyFrontend::new(SessionId(2));
    let error = KernelError { message: "something broke".to_string(), recoverable: true };
    match frontend.event_of(TurnNotice::Error(error)) {
        KernelEvent::Error { session_id, error } => {
            assert_eq!(session_id, Some(SessionId(2)));
            assert_eq!(error.message, "something broke");
            assert!(error.recoverable);
        }
        _ => panic!("unexpected event"),
    }
}

fn file_read_proxy() -> ProxyTool {
    ProxyTool::new(schema("file_read", "fs:read"), SessionId(0))
}

#[test]
fn proxy_tool_metadata_from_schema() {
    let tool = file_read_proxy();
    assert_eq!(tool.schema.name, "file_read");
    assert_eq!(tool.schema.description, "Read a file");
    assert_eq!(tool.schema.cost, TokenEstimate(100));
}

#[test]
fn proxy_tool_execute_round_trip() {
    let tool = file_read_proxy();
    let mut counter: u64 = 7;
    let asked = tool.request(&mut counter, Json::object().with("path", Json::text("main.rs")));
    assert_eq!(asked.input, Json::object().with("path", Json::text("main.rs")));
    assert_eq!(asked.request_id, RequestId(7));
    assert_eq!(counter, 8);
    let output = ProxyTool::outcome(ToolReply::Response(ToolResponse {
        request_id: asked.request_id,
        result: Json::text("fn main() {}"),
        invalidations: vec![],
    }))
    .unwrap();
    assert_eq!(output.result, Json::text("fn main() {}"));
    assert!(output.invalidations.is_empty());
}

#[test]
fn proxy_tool_timeout() {
    let result = ProxyTool::outcome(ToolReply::Timeout);
    assert!(matches!(result, Err(ToolError::Timeout)));
}

#[test]
fn proxy_tool_disconnected() {
    let result = ProxyTool::outcome(ToolReply::Disconnected);
    assert!(matches!(result, Err(ToolError::ExecutionFailed(_))));
    let result = ProxyTool::outcome(ToolReply::NotSent("closed".to_string()));
    assert!(matches!(result, Err(ToolError::ExecutionFailed(_))));
}

#[test]
fn proxy_tool_hands_invalidations_on() {
    let output = ProxyTool::outcome(ToolReply::Response(ToolResponse {
        request_id: RequestId(0),
        result: Json::Null,
        invalidations: vec![Invalidation::Files(vec!["a".to_string()])],
    }))
    .unwrap();
    assert_eq!(output.invalidations.len(), 1);
}

// ---------------------------------------------------------------------------
// Framing
// ---------------------------------------------------------------------------

#[test]
fn round_trip_over_buffer() {
    let msg = Json::object()
        .with("type", Json::text("AddInput"))
        .with("session_id", Json::natural(42))
        .with("text", Json::text("Hello, world!"));
    let mut buf: Vec<u8> = Vec::new();
    write_message(&mut buf, &msg);
    let (decoded, at) = read_message(&buf, 0).expect("read");
    assert_eq!(decoded.to_text(), msg.to_text());
    assert_eq!(at, buf.len());
}

#[test]
fn multiple_messages_on_same_stream() {
    let messages = vec![
        Json::parse("{\"type\":\"TurnStarted\",\"session_id\":0,\"turn_id\":0}").unwrap(),
        Json::parse("{\"type\":\"TextOutput\",\"session_id\":0,\"text\":\"Hi there\"}").unwrap(),
        Json::parse(
            "{\"type\":\"TurnEnded\",\"session_id\":0,\"turn_id\":0,\"result\":{\"input_tokens\":50,\"output_tokens\":20}}",
        )
        .unwrap(),
    ];
    let mut buf: Vec<u8> = Vec::new();
    for msg in &messages {
        write_message(&mut buf, msg);
    }
    let mut at: usize = 0;
    for original in &messages {
        let (decoded, next) = read_message(&buf, at).expect("read");
        assert_eq!(original.to_text(), decoded.to_text());
        at = next;
    }
    assert_eq!(at, buf.len());
}

#[test]
fn oversized_message_rejected() {
    let fake_len: u32 = MAX_MESSAGE_SIZE + 1;
    let buf = fake_len.to_be_bytes().to_vec();
    let result = read_message(&buf, 0);
    assert!(matches!(result, Err(FrameError::TooLarge(n)) if n == fake_len));
    assert!(message_len(MAX_MESSAGE_SIZE.to_be_bytes()).is_ok());
}

#[test]
fn eof_on_empty_stream() {
    let buf: Vec<u8> = Vec::new();
    assert!(matches!(read_message(&buf, 0), Err(FrameError::UnexpectedEof)));
    // A header without its message.
    assert!(matches!(read_message(&vec![0, 0, 0, 9], 0), Err(FrameError::UnexpectedEof)));
}

#[test]
fn length_prefix_is_big_endian() {
    let msg = Json::text("Shutdown");
    let mut buf: Vec<u8> = Vec::new();
    write_message(&mut buf, &msg);
    let len = u32::from_be_bytes([buf[0], buf[1], buf[2], buf[3]]);
    let json_bytes = &buf[4..];
    assert_eq!(len as usize, json_bytes.len());
    assert_eq!(document_of(json_bytes).expect("valid json"), msg);
    assert_eq!(&buf[..4], &[0, 0, 0, 10]);
}

#[test]
fn what_is_no_document_is_told_apart() {
    match document_of(&[b'"', 0xff, b'"']) {
        Err(FrameError::NotJson(e)) => assert!(e.contains("line 1 column"), "{e}"),
        other => panic!("expected an error, got {other:?}"),
    }
    assert!(matches!(document_of(b"{"), Err(FrameError::NotJson(_))));
    assert!(matches!(document_of("\"\u{e9}\"".as_bytes()), Ok(Json::Str(s)) if s == "\u{e9}"));
}

// ---------------------------------------------------------------------------
// The router
// ---------------------------------------------------------------------------

fn allow_star_policy() -> Policy {
    Policy {
        version: 1,
        name: "allow-all".to_string(),
        rules: vec![PolicyRule {
            match_capabilities: vec!["*".to_string()],
            action: PolicyAction::Allow,
            scope_paths: vec![],
            scope_commands: vec![],
            except: vec![],
        }],
        resource_budgets: None,
    }
}

#[test]
fn router_create_session_without_register_tools() {
    let mut router = ConnectionRouter::new();
    let (sends, go_on) = router.handle_request(KernelRequest::CreateSession {
        config: create_config("Test.", allow_star_policy()),
    });
    assert!(go_on);
    let told =
        sends.iter().any(|s| matches!(s, RouterSend::Event(KernelEvent::SessionCreated { .. })));
    assert!(told);
    assert!(sends.iter().any(|s| matches!(s, RouterSend::Start { .. })));
}

#[test]
fn router_shutdown_returns_false() {
    let mut router = ConnectionRouter::new();
    let (sends, go_on) = router.handle_request(KernelRequest::Shutdown);
    assert!(!go_on);
    assert!(sends.is_empty());
}

#[test]
fn router_sends_each_request_to_its_session() {
    let mut router = ConnectionRouter::new();
    let mut ids: Vec<SessionId> = vec![];
    for _ in 0..2 {
        let (sends, _) = router.handle_request(KernelRequest::CreateSession {
            config: create_config("Test.", allow_star_policy()),
        });
        for send in sends {
            if let RouterSend::Start { session_id, .. } = send {
                ids.push(session_id);
            }
        }
    }
    assert_eq!(ids.len(), 2);
    assert_ne!(ids[0], ids[1]);
    let (sends, _) = router.handle_request(KernelRequest::AddInput {
        session_id: ids[1],
        text: "hi".to_string(),
    });
    assert_eq!(sends.len(), 1);
    assert!(matches!(&sends[0], RouterSend::Request { session_id, .. } if *session_id == ids[1]));
    let (sends, go_on) = router.handle_request(KernelRequest::Shutdown);
    assert_eq!(sends.len(), 2);
    assert!(!go_on);
}

#[test]
fn remote_sinks_need_a_url() {
    assert!(matches!(remote_sink(SessionId(0), None, None), Ok(None)));
    let sink =
        remote_sink(SessionId(0), Some("http://localhost:1/x".to_string()), None).unwrap().unwrap();
    assert_eq!(sink.endpoint(), "http://localhost:1/x");
    assert!(remote_sink(SessionId(0), Some("ws://x".to_string()), None).is_err());
}

// ---------------------------------------------------------------------------
// Toolsets and providers
// ---------------------------------------------------------------------------

fn entry(kind: &str, id: Option<&str>) -> ToolsetEntry {
    ToolsetEntry {
        kind: kind.to_string(),
        id: id.map(|i| i.to_string()),
        config: Toml::Table(vec![]),
    }
}

#[test]
fn unknown_kind_is_hard_error() {
    match check_kind(&entry("nope", None), &vec![]) {
        Ok(_) => panic!("expected failure"),
        Err(e) => {
            assert!(e.contains("unknown kind"), "err was {e}");
            // The kind is shown in quotes.
            assert!(e.contains("\"nope\""), "err was {e}");
        }
    }
    assert!(check_kind(&entry("mcp.stdio", None), &default_registry()).is_ok());
}

#[test]
fn collision_across_toolsets_fails_build() {
    let alpha =
        Toolset { id: "alpha".to_string(), tools: vec![schema("shell", "shell:exec")] };
    let beta = Toolset { id: "beta".to_string(), tools: vec![schema("shell", "shell:exec")] };
    match ToolsetPool::of(vec![alpha, beta]) {
        Ok(_) => panic!("expected collision error"),
        Err(e) => {
            assert!(e.contains("collision"), "err was {e}");
            assert!(e.contains("shell"));
        }
    }
}

#[test]
fn a_pool_offers_the_tools_of_all_its_toolsets() {
    let alpha = Toolset { id: "alpha".to_string(), tools: vec![schema("a", "fs:read")] };
    let beta = Toolset {
        id: "beta".to_string(),
        tools: vec![schema("b", "fs:read"), schema("c", "fs:read")],
    };
    let pool = ToolsetPool::of(vec![alpha, beta]).unwrap();
    let names: Vec<String> = pool.tools_for_session().into_iter().map(|t| t.name).collect();
    assert_eq!(names, vec!["a", "b", "c"]);
}

#[test]
fn default_registry_has_mcp_stdio() {
    let reg = default_registry();
    assert!(reg.contains(&"mcp.stdio".to_string()));
    assert!(!reg.contains(&"workspace.local".to_string()));
}

#[test]
fn mcp_stdio_entry_without_command_is_rejected() {
    let entry = entry("mcp.stdio", Some("ws"));
    assert!(check_kind(&entry, &default_registry()).is_ok());
    let why = match mcp_stdio::from_entry(&entry) {
        Ok(_) => panic!("expected mcp.stdio without command to fail"),
        Err(e) => e,
    };
    let err = construct_error(&entry, &why);
    assert!(err.contains("command"), "err was {err}");
}

#[test]
fn mcp_entries_give_the_launch() {
    let entry = ToolsetEntry {
        kind: "mcp.stdio".to_string(),
        id: None,
        config: Toml::Table(vec![
            ("command".to_string(), Toml::Str("server".to_string())),
            (
                "args".to_string(),
                Toml::Array(vec![Toml::Str("-v".to_string()), Toml::Integer(3)]),
            ),
        ]),
    };
    let launch = mcp_stdio::from_entry(&entry).unwrap();
    assert_eq!(launch.command, "server");
    assert_eq!(launch.args, vec!["-v"]);
}

const SENTINEL_ENV: &str = "DEFINITELY_NOT_SET_12345_AGENT_KERNEL_SENTINEL";

fn anthropic(fallback: Option<ProviderFallback>) -> ProviderConfig {
    ProviderConfig::Anthropic {
        model: "a-model".to_string(),
        api_key_env: SENTINEL_ENV.to_string(),
        fallback,
    }
}

#[test]
fn echo_provider_no_env_var_needed() {
    assert!(ProviderConfig::Echo.key_variable().is_none());
    assert!(matches!(ProviderConfig::Echo.provider_for(None), Ok(ProviderChoice::Echo)));
}

#[test]
fn anthropic_fallback_to_echo_when_env_var_missing() {
    let config = anthropic(Some(ProviderFallback::Echo));
    assert_eq!(config.key_variable(), Some(SENTINEL_ENV));
    match config.provider_for(None) {
        Ok(ProviderChoice::FallbackEcho { api_key_env }) => assert_eq!(api_key_env, SENTINEL_ENV),
        other => panic!("factory should fall back, got {other:?}"),
    }
    let prompt = Prompt {
        system: String::new(),
        messages: vec![Message {
            role: Role::User,
            content: vec![Content::Text("hi".to_string())],
        }],
        tool_definitions: Vec::new(),
    };
    let response = EchoProvider.complete(&prompt);
    let mut text = String::new();
    for c in &response.content {
        if let Content::Text(t) = c {
            text.push_str(t);
        }
    }
    assert!(text.contains("[echo provider]"), "expected echo provider response, got: {text}");
    assert!(text.contains("You said: hi"));
}

#[test]
fn anthropic_no_fallback_is_hard_error() {
    match anthropic(None).provider_for(None) {
        Ok(_) => panic!("expected hard error when env var is missing"),
        Err(e) => assert!(e.contains(SENTINEL_ENV), "error should mention the env var: {e}"),
    }
    match anthropic(None).provider_for(Some("key".to_string())) {
        Ok(ProviderChoice::Anthropic { api_key, model }) => {
            assert_eq!(api_key, "key");
            assert_eq!(model, "a-model");
        }
        other => panic!("expected the provider, got {other:?}"),
    }
}
