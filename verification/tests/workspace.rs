use agent_kernel::context::ContextConfig;
use agent_kernel::context_store::InMemoryContextStore;
use agent_kernel::json::Json;
use agent_kernel::manifest::{Toml, ToolsetEntry};
use agent_kernel::mcp_server::{
    call_response, progress_report, shell_response, McpServer, ServerNext,
};
use agent_kernel::mcp_stdio::{
    after_try, answer, eof_error, infer_capabilities, initialize_params, message_on,
    parse_tools_list, respawn_error, AfterTry, CallError, CallStep, McpClient, RespawnStep,
};
use agent_kernel::provider::{Response, StopReason, Usage};
use agent_kernel::session::{Session, SessionConfig, SessionManager};
use agent_kernel::session_events::NullSink;
use agent_kernel::testutil::{allow_all_policy, lockdown_policy};
use agent_kernel::tool::{ToolChunkStream, ToolError, ToolOutput, ToolSchema};
use agent_kernel::turn_loop::{TurnNext, TurnNotice, TurnResult, TurnStep};
use agent_kernel::types::{
    CompletionConfig, Content, Decision, ResourceBudget, SessionId, SessionMode,
};
use agent_kernel::workspace_local::{
    create_tools, edit, from_entry, tool_names, unknown_ids, DirEntry, EditPlan, FileEditTool,
    FileReadTool, FileWriteTool, GrepTool, LocalWorkspace, LsTool, ShellRun, ShellTool, WriteOutcome,
    WritePlan,
};
use std::collections::BTreeMap;

const ROOT: &str = "/ws";

fn parsed(text: &str) -> Json {
    Json::parse(text).expect("valid JSON")
}

/// A workspace in memory: what the tools ask for is done on a map of files.
struct Files(BTreeMap<String, String>);

impl Files {
    fn empty() -> Self {
        Files(BTreeMap::new())
    }

    fn with(mut self, path: &str, content: &str) -> Self {
        self.0.insert(format!("{ROOT}/{path}"), content.to_string());
        self
    }

    fn at(&self, path: &str) -> &str {
        &self.0[&format!("{ROOT}/{path}")]
    }

    fn read(&self, path: &str) -> Result<String, String> {
        match self.0.get(path) {
            Some(content) => Ok(content.clone()),
            None => Err("No such file or directory (os error 2)".to_string()),
        }
    }

    fn write(&mut self, plan: WritePlan) -> WriteOutcome {
        self.0.insert(plan.path, plan.content);
        WriteOutcome::Written
    }

    fn list(&self) -> Vec<DirEntry> {
        let mut entries: Vec<DirEntry> = vec![];
        for path in self.0.keys() {
            let below = &path[ROOT.len() + 1..];
            let (name, is_dir) = match below.split_once('/') {
                Some((dir, _)) => (dir, true),
                None => (below, false),
            };
            if !entries.iter().any(|e| e.name == name) {
                entries.push(DirEntry { name: name.to_string(), is_dir });
            }
        }
        entries
    }

    fn grep(&self, pattern: &str) -> String {
        let mut found = String::new();
        for (path, content) in &self.0 {
            for (at, line) in content.lines().enumerate() {
                if line.contains(pattern) {
                    found.push_str(&format!("{path}:{}:{line}\n", at + 1));
                }
            }
        }
        found
    }

    fn execute(&mut self, name: &str, input: &Json) -> Result<ToolOutput, ToolError> {
        let root = ROOT.to_string();
        match name {
            "file_read" => {
                let tool = FileReadTool::new(root);
                let path = tool.path(input)?;
                tool.output(input, self.read(&path))
            }
            "file_write" => {
                let tool = FileWriteTool::new(root);
                let plan = tool.plan(input)?;
                let outcome = self.write(plan);
                tool.output(input, outcome)
            }
            "file_edit" => {
                let tool = FileEditTool::new(root);
                let plan = match tool.plan(input)? {
                    EditPlan::Create(plan) => plan,
                    EditPlan::Read { path } => tool.edited(input, self.read(&path))?,
                };
                let outcome = self.write(plan);
                tool.output(input, outcome)
            }
            "shell" => {
                let tool = ShellTool::new(root);
                let command = tool.command(input)?;
                let stdout = match command.strip_prefix("echo ") {
                    Some(said) => format!("{said}\n"),
                    None => String::new(),
                };
                tool.output(
                    input,
                    Ok(ShellRun { exit_code: Some(0), stdout, stderr: String::new() }),
                )
            }
            "ls" => {
                let tool = LsTool::new(root);
                assert!(tool.path(input).starts_with(ROOT));
                tool.output(input, Ok(self.list()))
            }
            "grep" => {
                let tool = GrepTool::new(root);
                let (pattern, _) = tool.search(input)?;
                tool.output(input, Ok(self.grep(&pattern)))
            }
            other => panic!("no tool {other}"),
        }
    }
}

fn setup_workspace() -> Files {
    Files::empty()
        .with("hello.txt", "Hello, world!\nLine 2\nLine 3\n")
        .with("main.rs", "fn main() {\n    println!(\"hi\");\n}\n")
        .with("src/lib.rs", "pub fn add(a: i32, b: i32) -> i32 {\n    a + b\n}\n")
}

// ---------------------------------------------------------------------------
// The tools
// ---------------------------------------------------------------------------

fn entry(id: Option<&str>) -> ToolsetEntry {
    ToolsetEntry {
        kind: "workspace.local".to_string(),
        id: id.map(|i| i.to_string()),
        config: Toml::Table(vec![]),
    }
}

fn names_of(tools: &[ToolSchema]) -> Vec<String> {
    tools.iter().map(|t| t.name.clone()).collect()
}

#[test]
fn from_entry_defaults_root_to_dot() {
    let toolset = from_entry(&entry(None));
    assert_eq!(toolset.id, "workspace.local");
    assert_eq!(toolset.root, ".");
    let names = names_of(&toolset.tools());
    for expected in tool_names() {
        assert!(names.contains(&expected), "missing tool: {expected}");
    }
}

#[test]
fn from_entry_uses_id_when_provided() {
    let toolset = from_entry(&entry(Some("ws1")));
    assert_eq!(toolset.id, "ws1");
}

#[test]
fn from_entry_takes_the_root() {
    let mut rooted = entry(None);
    rooted.config = Toml::Table(vec![("root".to_string(), Toml::Str("/srv".to_string()))]);
    assert_eq!(from_entry(&rooted).root, "/srv");
}

#[test]
fn file_read_and_write_round_trip() {
    let mut files = Files::empty();
    files
        .execute("file_write", &parsed("{\"path\": \"hello.txt\", \"content\": \"hi\\nworld\"}"))
        .expect("write");
    let out = files.execute("file_read", &parsed("{\"path\": \"hello.txt\"}")).expect("read");
    let content = out.result.get("content").unwrap().as_str().unwrap();
    assert!(content.contains("hi"));
    assert!(content.contains("world"));
}

#[test]
fn file_read_numbers_the_lines_it_shows() {
    let mut files = setup_workspace();
    let out = files
        .execute("file_read", &parsed("{\"path\": \"hello.txt\", \"offset\": 2, \"limit\": 1}"))
        .unwrap();
    let content = out.result.get("content").unwrap().as_str().unwrap();
    assert!(content.contains("Line 2"));
    assert!(content.contains('2'));
    assert!(!content.contains("Hello"));
    assert!(!content.contains("Line 3"));
    assert!(out.invalidations.is_empty());
}

#[test]
fn file_edit_replaces_unique_string() {
    let mut files = Files::empty();
    files
        .execute("file_write", &parsed("{\"path\": \"a.txt\", \"content\": \"foo bar baz\"}"))
        .expect("write");
    files
        .execute(
            "file_edit",
            &parsed("{\"path\": \"a.txt\", \"old_string\": \"bar\", \"new_string\": \"BAR\"}"),
        )
        .expect("edit");
    let out = files.execute("file_read", &parsed("{\"path\": \"a.txt\"}")).expect("read");
    assert!(out.result.get("content").unwrap().as_str().unwrap().contains("foo BAR baz"));
}

#[test]
fn edits_need_one_occurrence() {
    assert_eq!(edit("foo bar baz", "bar", "BAR").unwrap(), "foo BAR baz");
    match edit("foo", "bar", "x") {
        Err(ToolError::ExecutionFailed(e)) => assert!(e.contains("not found"), "{e}"),
        other => panic!("expected an error, got {other:?}"),
    }
    match edit("bar bar bar", "bar", "x") {
        Err(ToolError::ExecutionFailed(e)) => assert!(e.contains('3'), "{e}"),
        other => panic!("expected an error, got {other:?}"),
    }
    // Occurrences do not overlap.
    assert_eq!(edit("aaa", "aa", "b").unwrap(), "ba");
    // An edit can be taken back.
    let there = edit("foo bar baz", "bar", "qux").unwrap();
    assert_eq!(edit(&there, "qux", "bar").unwrap(), "foo bar baz");
}

#[test]
fn shell_executes_command_in_workspace() {
    let out = Files::empty()
        .execute("shell", &parsed("{\"command\": \"echo hello\"}"))
        .expect("shell");
    let stdout = out.result.get("stdout").unwrap().as_str().unwrap();
    assert!(stdout.contains("hello"));
}

#[test]
fn shell_output_is_cut() {
    let tool = ShellTool::new(ROOT.to_string());
    let out = tool
        .output(
            &parsed("{\"command\": \"yes\"}"),
            Ok(ShellRun { exit_code: None, stdout: "y".repeat(60_000), stderr: String::new() }),
        )
        .unwrap();
    let stdout = out.result.get("stdout").unwrap().as_str().unwrap();
    assert!(stdout.starts_with(&"y".repeat(50_000)));
    assert!(!stdout.starts_with(&"y".repeat(50_001)));
    assert_eq!(out.result.get("exit_code").unwrap().as_i64(), Some(-1));
}

#[test]
fn ls_lists_entries() {
    let mut files = Files::empty().with("a.txt", "a").with("sub/b.txt", "b");
    let out = files.execute("ls", &Json::object()).expect("ls");
    let entries = out.result.get("entries").unwrap().as_array().unwrap();
    assert_eq!(entries.len(), 2);
}

#[test]
fn local_workspace_exposes_all_tool_names() {
    let workspace = LocalWorkspace::new("test".to_string(), ROOT.to_string());
    let names = names_of(&workspace.tools());
    for expected in tool_names() {
        assert!(names.contains(&expected), "missing: {expected}");
    }
}

#[test]
fn inputs_without_what_is_needed_are_refused() {
    let mut files = setup_workspace();
    for name in ["file_read", "file_write", "file_edit", "shell", "grep"] {
        let refused = files.execute(name, &Json::object());
        assert!(matches!(refused, Err(ToolError::InvalidInput(_))), "{name}");
    }
}

#[test]
fn writes_that_fail_are_told() {
    let tool = FileWriteTool::new(ROOT.to_string());
    let input = parsed("{\"path\": \"a/b.txt\", \"content\": \"x\"}");
    let plan = tool.plan(&input).unwrap();
    assert_eq!(plan.path, "/ws/a/b.txt");
    assert_eq!(plan.parent.as_deref(), Some("/ws/a"));
    let e = tool.output(&input, WriteOutcome::NoDirectory("denied".to_string())).unwrap_err();
    assert!(e.message().contains("denied"));
    let e = tool.output(&input, WriteOutcome::NotWritten("full".to_string())).unwrap_err();
    assert!(e.message().contains("full"));
    let done = tool.output(&input, WriteOutcome::Written).unwrap();
    assert_eq!(done.invalidations.len(), 1);
}

// ---------------------------------------------------------------------------
// Which tools are enabled
// ---------------------------------------------------------------------------

#[test]
fn none_enables_every_tool() {
    let tools = create_tools("/tmp", None);
    assert_eq!(tools.len(), tool_names().len());
}

#[test]
fn empty_list_disables_everything() {
    let tools = create_tools("/tmp", Some(&vec![]));
    assert!(tools.is_empty());
}

#[test]
fn filter_narrows_to_named_tools() {
    let enabled = vec!["file_read".to_string(), "grep".to_string()];
    let tools = create_tools("/tmp", Some(&enabled));
    assert_eq!(tools.len(), 2);
    let names = names_of(&tools);
    assert!(names.contains(&"file_read".to_string()));
    assert!(names.contains(&"grep".to_string()));
}

#[test]
fn unknown_id_is_warned_and_dropped() {
    let enabled = vec!["file_read".to_string(), "doesnt_exist".to_string()];
    let tools = create_tools("/tmp", Some(&enabled));
    assert_eq!(tools.len(), 1);
    assert_eq!(tools[0].name, "file_read");
    assert_eq!(unknown_ids(&enabled), vec!["doesnt_exist"]);
}

// ---------------------------------------------------------------------------
// A session on the workspace
// ---------------------------------------------------------------------------

struct Told {
    results: Vec<Json>,
    calls: Vec<String>,
    started: usize,
}

impl Told {
    fn nothing() -> Self {
        Told { results: vec![], calls: vec![], started: 0 }
    }

    fn take(&mut self, step: TurnStep) -> TurnNext {
        for notice in step.notices {
            match notice {
                TurnNotice::Started(_) => self.started += 1,
                TurnNotice::ToolCall { tool_name, .. } => self.calls.push(tool_name),
                TurnNotice::ToolResult { output, .. } => self.results.push(output.result),
                _ => {}
            }
        }
        step.next
    }
}

type InMemory = SessionManager<InMemoryContextStore, NullSink>;

fn session_in(config: SessionConfig) -> (InMemory, SessionId) {
    let mut mgr: InMemory = SessionManager::new(ResourceBudget::default());
    let id = mgr.spawn_interactive(config, create_tools(ROOT, None));
    (mgr, id)
}

fn session_config() -> SessionConfig {
    SessionConfig {
        mode: SessionMode::Interactive,
        system_prompt: "You are a coding assistant.".to_string(),
        context_config: ContextConfig {
            context_window: 100_000,
            compaction_cooldown_secs: 0,
            ..ContextConfig::default()
        },
        completion_config: CompletionConfig::default(),
        policy: allow_all_policy(),
        resource_budget: ResourceBudget::default(),
        workspace: ROOT.to_string(),
    }
}

fn run_turn(
    session: &mut Session<InMemoryContextStore, NullSink>,
    response: Response,
    files: &mut Files,
    told: &mut Told,
) -> TurnResult {
    let mut given = Some(response);
    let (mut run, step) = session.start_turn();
    let mut next = told.take(step);
    loop {
        let step = match next {
            TurnNext::Complete(_) => session.respond(&mut run, Ok(given.take().unwrap())),
            TurnNext::CheckCancel => session.next_call(&mut run),
            TurnNext::Execute { tool_name, input, .. } => {
                let result = files.execute(&tool_name, &input);
                session.complete_call(&mut run, result)
            }
            TurnNext::Ask(_) => session.decide(&mut run, Decision::Allow),
            TurnNext::Done(result) => return result,
            TurnNext::Failed(e) => panic!("the turn failed: {}", e.message()),
        };
        next = told.take(step);
    }
}

fn calling(id: &str, name: &str, input: &str) -> Response {
    Response {
        content: vec![Content::ToolCall {
            id: id.to_string(),
            name: name.to_string(),
            input: parsed(input),
        }],
        usage: Usage::default(),
        stop_reason: StopReason::ToolUse,
    }
}

/// One turn in which the model makes one call on the usual workspace.
fn one_call(said: &str, name: &str, input: &str) -> (TurnResult, Files, Told) {
    let mut files = setup_workspace();
    let mut told = Told::nothing();
    let (mut mgr, id) = session_in(session_config());
    let session = mgr.get_mut(id).unwrap();
    session.add_user_input(said.to_string());
    let result = run_turn(session, calling("c1", name, input), &mut files, &mut told);
    (result, files, told)
}

#[test]
fn distro_file_read_real_file() {
    let (r1, _, told) = one_call("Read hello.txt", "file_read", "{\"path\": \"hello.txt\"}");
    assert!(r1.continues);
    assert_eq!(r1.tool_calls_dispatched, 1);
    let content = told.results[0].get("content").unwrap().as_str().unwrap();
    assert!(content.contains("Hello, world!"));
}

#[test]
fn distro_write_then_read() {
    let mut files = setup_workspace();
    let mut told = Told::nothing();
    let (mut mgr, id) = session_in(session_config());
    let session = mgr.get_mut(id).unwrap();
    session.add_user_input("Create a new file".to_string());
    let r1 = run_turn(
        session,
        calling(
            "c1",
            "file_write",
            "{\"path\": \"new_file.txt\", \"content\": \"Created by agent-kernel\"}",
        ),
        &mut files,
        &mut told,
    );
    assert!(r1.continues);
    assert_eq!(files.at("new_file.txt"), "Created by agent-kernel");
    let r2 = run_turn(
        session,
        calling("c2", "file_read", "{\"path\": \"new_file.txt\"}"),
        &mut files,
        &mut told,
    );
    assert!(r2.continues);
    let content = told.results.last().unwrap().get("content").unwrap().as_str().unwrap();
    assert!(content.contains("Created by agent-kernel"));
}

#[test]
fn distro_shell_command() {
    let (r1, _, told) =
        one_call("Count files", "shell", "{\"command\": \"echo hello-from-shell\"}");
    assert!(r1.continues);
    let stdout = told.results[0].get("stdout").unwrap().as_str().unwrap();
    assert!(stdout.contains("hello-from-shell"));
    let exit_code = told.results[0].get("exit_code").unwrap().as_i64().unwrap();
    assert_eq!(exit_code, 0);
}

#[test]
fn distro_ls_directory() {
    let (r1, _, told) = one_call("What files are here?", "ls", "{\"path\": \".\"}");
    assert!(r1.continues);
    let entries = told.results[0].get("entries").unwrap().as_array().unwrap();
    let names: Vec<&str> = entries
        .iter()
        .filter_map(|e| e.get_str("name"))
        .map(|n| n.trim_end_matches('/'))
        .collect();
    assert!(names.contains(&"hello.txt"));
    assert!(names.contains(&"main.rs"));
    assert!(names.contains(&"src"));
}

#[test]
fn distro_grep_pattern() {
    let (r1, _, told) = one_call("Find the add function", "grep", "{\"pattern\": \"fn add\"}");
    assert!(r1.continues);
    let matches = told.results[0].get("matches").unwrap().to_text();
    assert!(matches.contains("fn add"));
    assert!(matches.contains("lib.rs"));
}

#[test]
fn distro_file_read_missing_file() {
    let (r1, _, _) =
        one_call("Read nonexistent file", "file_read", "{\"path\": \"does_not_exist.txt\"}");
    assert!(r1.continues);
}

#[test]
fn distro_full_workflow() {
    let mut files = setup_workspace();
    let mut told = Told::nothing();
    let (mut mgr, id) = session_in(session_config());
    let session = mgr.get_mut(id).unwrap();
    session.add_user_input("List, read, then create a summary file".to_string());
    run_turn(session, calling("c1", "ls", "{}"), &mut files, &mut told);
    run_turn(
        session,
        calling("c2", "file_read", "{\"path\": \"main.rs\"}"),
        &mut files,
        &mut told,
    );
    run_turn(
        session,
        calling(
            "c3",
            "file_write",
            "{\"path\": \"SUMMARY.md\", \"content\": \"# Summary\\nThis project has a main.rs with a hello world.\\n\"}",
        ),
        &mut files,
        &mut told,
    );
    let r4 = run_turn(
        session,
        Response {
            content: vec![Content::Text("Done! Created SUMMARY.md.".to_string())],
            usage: Usage::default(),
            stop_reason: StopReason::EndTurn,
        },
        &mut files,
        &mut told,
    );
    assert!(!r4.continues);
    assert!(files.at("SUMMARY.md").contains("hello world"));
    assert_eq!(told.calls.len(), 3);
    assert_eq!(told.calls[0], "ls");
    assert_eq!(told.calls[1], "file_read");
    assert_eq!(told.calls[2], "file_write");
    assert_eq!(told.started, 4);
}

#[test]
fn distro_policy_blocks_shell() {
    let mut files = setup_workspace();
    let mut told = Told::nothing();
    let (mut mgr, id) = session_in(SessionConfig { policy: lockdown_policy(), ..session_config() });
    let session = mgr.get_mut(id).unwrap();
    session.add_user_input("Run a command".to_string());
    let r1 = run_turn(
        session,
        calling("c1", "shell", "{\"command\": \"echo pwned\"}"),
        &mut files,
        &mut told,
    );
    assert_eq!(r1.tool_calls_denied, 1);
    assert_eq!(r1.tool_calls_dispatched, 0);
}

#[test]
fn distro_file_edit_replaces_string() {
    let (r1, files, _) = one_call(
        "Change the greeting",
        "file_edit",
        "{\"path\": \"hello.txt\", \"old_string\": \"Hello, world!\", \"new_string\": \"Greetings, universe!\"}",
    );
    assert!(r1.continues);
    assert_eq!(r1.tool_calls_dispatched, 1);
    let edited = files.at("hello.txt");
    assert!(edited.contains("Greetings, universe!"));
    assert!(!edited.contains("Hello, world!"));
    assert!(edited.contains("Line 2"));
}

#[test]
fn distro_file_edit_creates_file() {
    let (r1, files, _) = one_call(
        "Create a config file",
        "file_edit",
        "{\"path\": \"config.toml\", \"old_string\": \"\", \"new_string\": \"[settings]\\nkey = \\\"value\\\"\\n\"}",
    );
    assert!(r1.continues);
    assert!(files.at("config.toml").contains("key = \"value\""));
}

#[test]
fn distro_file_edit_not_found() {
    let (r1, files, _) = one_call(
        "Edit something",
        "file_edit",
        "{\"path\": \"hello.txt\", \"old_string\": \"this string does not exist\", \"new_string\": \"replacement\"}",
    );
    assert!(r1.continues);
    assert_eq!(files.at("hello.txt"), "Hello, world!\nLine 2\nLine 3\n");
}

// ---------------------------------------------------------------------------
// The MCP server
// ---------------------------------------------------------------------------

/// Hands a server one request, and gives back its reply.
fn ask(server: &mut McpServer, files: &mut Files, request: &str) -> Json {
    match server.take_line(request) {
        ServerNext::Reply(doc) | ServerNext::ReplyAndStop(doc) => doc,
        ServerNext::Call { id, name, arguments } => {
            call_response(id, files.execute(&name, &arguments))
        }
        ServerNext::Shell { id, command, .. } => shell_response(
            id,
            Ok(ShellRun { exit_code: Some(0), stdout: command, stderr: String::new() }),
        ),
        ServerNext::Ignore => panic!("expected a reply"),
    }
}

const INITIALIZE: &str = "{\"jsonrpc\":\"2.0\",\"id\":1,\"method\":\"initialize\",\"params\":{\"protocolVersion\":\"2024-11-05\",\"clientInfo\":{\"name\":\"test\",\"version\":\"0\"},\"capabilities\":{},\"agent_kernel\":{\"root\":\"/ws\"}}}";

#[test]
fn initialize_and_list_tools() {
    let mut server = McpServer::new();
    let mut files = Files::empty();
    let init = ask(&mut server, &mut files, INITIALIZE);
    assert_eq!(init.get_u64("id"), Some(1));
    let info = init.get("result").unwrap().get("serverInfo").unwrap();
    assert!(info.get_str("name").is_some());
    assert_eq!(server.root(), "/ws");
    let list = ask(
        &mut server,
        &mut files,
        "{\"jsonrpc\":\"2.0\",\"id\":2,\"method\":\"tools/list\",\"params\":{}}",
    );
    let tools = list.get("result").unwrap().get("tools").unwrap().as_array().expect("tools array");
    let names: Vec<&str> = tools.iter().filter_map(|t| t.get_str("name")).collect();
    for expected in ["file_read", "file_write", "file_edit", "shell", "ls", "grep"] {
        assert!(names.contains(&expected), "missing {expected}: {names:?}");
    }
}

#[test]
fn file_read_round_trip() {
    let mut server = McpServer::new();
    let mut files = Files::empty().with("hello.txt", "hi\nworld\n");
    ask(
        &mut server,
        &mut files,
        "{\"jsonrpc\":\"2.0\",\"id\":1,\"method\":\"initialize\",\"params\":{\"agent_kernel\":{\"root\":\"/ws\"}}}",
    );
    let call = ask(
        &mut server,
        &mut files,
        "{\"jsonrpc\":\"2.0\",\"id\":2,\"method\":\"tools/call\",\"params\":{\"name\":\"file_read\",\"arguments\":{\"path\":\"hello.txt\"}}}",
    );
    let content = call.get("result").unwrap().get("content").unwrap().as_array().unwrap();
    let text = content[0].get_str("text").expect("text content");
    assert!(text.contains("hi"));
    assert!(text.contains("world"));
}

#[test]
fn the_server_calls_nothing_before_initialize() {
    let mut server = McpServer::new();
    let reply = server.take_line(
        "{\"jsonrpc\":\"2.0\",\"id\":2,\"method\":\"tools/call\",\"params\":{\"name\":\"ls\",\"arguments\":{}}}",
    );
    match reply {
        ServerNext::Reply(doc) => assert!(doc.get("error").is_some()),
        other => panic!("expected an error, got {other:?}"),
    }
    match server.take_line("no json") {
        ServerNext::Reply(doc) => assert!(doc.get("error").is_some()),
        other => panic!("expected an error, got {other:?}"),
    }
    assert!(matches!(server.take_line("   "), ServerNext::Ignore));
}

// ---------------------------------------------------------------------------
// The MCP client
// ---------------------------------------------------------------------------

/// A server with two tools: `echo`, and `stream_shell`, which reports two chunks
/// and then an empty content.
fn canned(request: &Json) -> Vec<Json> {
    let id = request.get_u64("id").unwrap();
    let reply = |result: &str| {
        parsed(&format!("{{\"jsonrpc\":\"2.0\",\"id\":{id},\"result\":{result}}}"))
    };
    match request.get_str("method").unwrap() {
        "initialize" => {
            vec![reply("{\"serverInfo\":{\"name\":\"canned\",\"version\":\"0\"},\"capabilities\":{}}")]
        }
        "tools/list" => vec![reply(
            "{\"tools\":[{\"name\":\"echo\",\"description\":\"echoes\",\"inputSchema\":{\"type\":\"object\"}},{\"name\":\"stream_shell\",\"description\":\"streams\",\"inputSchema\":{\"type\":\"object\"}}]}",
        )],
        "tools/call" => {
            let params = request.get("params").unwrap();
            let token = params.get("_meta").unwrap().get("progressToken").unwrap();
            if params.get_str("name") == Some("stream_shell") {
                let mut messages: Vec<Json> = vec![];
                for data in ["first\\n", "second\\n"] {
                    messages.push(parsed(&format!(
                        "{{\"jsonrpc\":\"2.0\",\"method\":\"notifications/progress\",\"params\":{{\"progressToken\":{},\"_meta\":{{\"agent_kernel/chunk\":{{\"stream\":\"stdout\",\"data\":\"{data}\"}}}}}}}}",
                        token.to_text()
                    )));
                }
                messages.push(reply("{\"content\":[]}"));
                messages
            } else {
                vec![reply("{\"content\":[{\"type\":\"text\",\"text\":\"\\\"echoed\\\"\"}]}")]
            }
        }
        other => panic!("unknown method {other}"),
    }
}

fn call_canned(client: &mut McpClient, name: &str, input: Json) -> (Vec<String>, ToolOutput) {
    let (mut call, request) = client.call(name, input);
    let mut chunks: Vec<String> = vec![];
    for message in canned(&request) {
        match call.take_message(&message) {
            CallStep::Unrelated => {}
            CallStep::Chunk(chunk) => chunks.push(chunk.data),
            CallStep::Failed(e) => panic!("the call failed: {e}"),
            CallStep::Done(output) => return (chunks, output),
        }
    }
    panic!("the call has no end")
}

#[test]
fn handshake_discovers_tools() {
    let mut client = McpClient::new();
    let (id, request) = client.request("initialize", initialize_params(Json::object()));
    let reply = &canned(&request)[0];
    assert!(matches!(answer(id, "initialize", reply), Some(Ok(_))));
    let (id, request) = client.request("tools/list", Json::object());
    let reply = &canned(&request)[0];
    let listed = match answer(id, "tools/list", reply) {
        Some(Ok(listed)) => listed,
        other => panic!("expected the list, got {other:?}"),
    };
    let names = names_of(&parse_tools_list(&listed).unwrap());
    assert!(names.contains(&"echo".to_string()));
    assert!(names.contains(&"stream_shell".to_string()));
}

#[test]
fn non_streaming_call_returns_content_text() {
    let mut client = McpClient::new();
    let (_, out) =
        call_canned(&mut client, "echo", Json::object().with("hi", Json::natural(1)));
    assert_eq!(out.result, Json::text("echoed"));
}

#[test]
fn streaming_call_forwards_chunks() {
    let mut client = McpClient::new();
    let (got, out) = call_canned(&mut client, "stream_shell", Json::object());
    assert_eq!(got.len(), 2);
    assert_eq!(got[0], "first\n");
    assert_eq!(got[1], "second\n");
    assert_eq!(out.result, Json::text("first\nsecond\n"));
}

#[test]
fn crash_triggers_respawn_once() {
    let lost = || Err(CallError::Transport(eof_error("tools/call")));
    assert!(matches!(after_try(true, lost()), AfterTry::Respawn));
    assert!(matches!(after_try(false, lost()), AfterTry::Finish(Err(_))));
    let mut client = McpClient::new();
    let (_, out) = call_canned(&mut client, "ping", Json::object());
    match after_try(false, Ok(out)) {
        AfterTry::Finish(Ok(second)) => assert_eq!(second.result, Json::text("echoed")),
        other => panic!("expected the second call to succeed, got {other:?}"),
    }
    // What the server itself says went wrong is no reason to start it anew.
    let failed = Err(CallError::Execution("no".to_string()));
    assert!(matches!(after_try(true, failed), AfterTry::Finish(Err(_))));
}

#[test]
fn the_client_understands_the_server() {
    let mut client = McpClient::new();
    let (mut call, request) = client.call("shell", parsed("{\"command\":\"make\"}"));
    let mut server = McpServer::new();
    server.take_line(INITIALIZE);
    let (id, token) = match server.take_line(&request.to_text()) {
        ServerNext::Shell { id, command, token } => {
            assert_eq!(command, "make");
            (id, token.unwrap())
        }
        other => panic!("expected a command, got {other:?}"),
    };
    let report = progress_report(&token, ToolChunkStream::Stderr, "warning");
    match call.take_message(&report) {
        CallStep::Chunk(chunk) => {
            assert_eq!(chunk.data, "warning\n");
            assert_eq!(chunk.stream, ToolChunkStream::Stderr);
        }
        other => panic!("expected a chunk, got {other:?}"),
    }
    let run = ShellRun { exit_code: Some(2), stdout: "out".to_string(), stderr: String::new() };
    match call.take_message(&shell_response(id, Ok(run))) {
        CallStep::Done(output) => {
            assert_eq!(output.result.get_str("stdout"), Some("out"));
            assert_eq!(output.result.get_u64("exit_code"), Some(2));
        }
        other => panic!("expected the end, got {other:?}"),
    }
}

#[test]
fn messages_of_other_calls_are_passed_over() {
    let mut client = McpClient::new();
    let (mut call, request) = client.call("echo", Json::object());
    let id = request.get_u64("id").unwrap();
    let other = parsed(&format!("{{\"id\":{},\"result\":{{}}}}", id + 1));
    assert!(matches!(call.take_message(&other), CallStep::Unrelated));
    let failed = parsed(&format!("{{\"id\":{id},\"error\":{{\"code\":1,\"message\":\"boom\"}}}}"));
    match call.take_message(&failed) {
        CallStep::Failed(e) => assert!(e.contains("boom"), "{e}"),
        other => panic!("expected a failure, got {other:?}"),
    }
}

#[test]
fn lines_of_a_server() {
    assert!(matches!(message_on("  \n"), Ok(None)));
    assert!(matches!(message_on("{\"id\":1}\n"), Ok(Some(_))));
    assert!(message_on("nonsense").is_err());
    assert!(respawn_error(RespawnStep::Spawn, "gone").message().contains("gone"));
}

#[test]
fn capabilities_go_by_the_name() {
    assert_eq!(infer_capabilities("file_read").texts(), vec!["fs:read"]);
    assert_eq!(infer_capabilities("file_write").texts(), vec!["fs:write"]);
    assert_eq!(infer_capabilities("shell").texts(), vec!["shell:exec"]);
}
