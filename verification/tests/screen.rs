use agent_kernel::distro;
use agent_kernel::driver::{act, after_events, apply_event, calls_running, set_elapsed, tick, UiSend};
use agent_kernel::frontend::{CompactionSummary, KernelError, PermissionRequest};
use agent_kernel::json::Json;
use agent_kernel::policy::{Policy, PolicyAction, PolicyRule};
use agent_kernel::protocol::{KernelEvent, KernelRequest, RequestId, TurnResultSummary};
use agent_kernel::repl::{decision_of, input_of, output_of, question_of, ReplInput, ReplOutput};
use agent_kernel::tool::{ToolError, ToolOutput};
use agent_kernel::tool_display::{clip, format_tool_input, format_tool_result};
use agent_kernel::tui::app::App;
use agent_kernel::tui::blocks::{
    render_permission, render_tool_call, render_user, shorten, RenderCtx,
};
use agent_kernel::tui::conversation::lay_out;
use agent_kernel::tui::input::{
    cursor_position_in_input, handle_key, handle_mouse, input_height_of, spinner_char, KeyCode,
    KeyEvent, MouseKind,
};
use agent_kernel::tui::markdown::render_assistant;
use agent_kernel::tui::status_bar::{bar_of, status_text, TokenTexts};
use agent_kernel::tui::style::{Color, Line, Theme};
use agent_kernel::tui::types::{ConversationEntry, Elapsed, InputAction, ToolCallStatus};
use agent_kernel::types::{Capability, Decision, SessionId, TurnId};

fn parsed(text: &str) -> Json {
    Json::parse(text).expect("valid JSON")
}

fn shown(line: &Line) -> String {
    line.spans.iter().map(|s| s.text.clone()).collect()
}

fn all_shown(lines: &[Line]) -> Vec<String> {
    lines.iter().map(shown).collect()
}

fn press(app: &mut App, text: &str) {
    for c in text.chars() {
        handle_key(app, KeyEvent::plain(KeyCode::Char(c)));
    }
}

// ---------------------------------------------------------------------------
// The editor
// ---------------------------------------------------------------------------

#[test]
fn what_is_typed_is_submitted() {
    let mut app = App::new();
    press(&mut app, "héllo");
    let action = handle_key(&mut app, KeyEvent::plain(KeyCode::Enter));
    assert!(matches!(action, InputAction::Submit(t) if t == "héllo"));
    assert_eq!(app.input(), "");
}

#[test]
fn the_cursor_moves_by_characters() {
    let mut app = App::new();
    press(&mut app, "aé");
    app.move_left();
    app.insert_char('x');
    assert_eq!(app.input(), "axé");
    app.backspace();
    assert_eq!(app.input(), "aé");
    app.delete();
    assert_eq!(app.input(), "a");
    app.move_home();
    app.insert_char('b');
    app.move_end();
    app.insert_char('c');
    assert_eq!(app.input(), "bac");
}

#[test]
fn the_history_gives_the_input_back() {
    let mut app = App::new();
    for said in ["one", "two"] {
        press(&mut app, said);
        handle_key(&mut app, KeyEvent::plain(KeyCode::Enter));
    }
    press(&mut app, "draft");
    app.history_prev();
    assert_eq!(app.input(), "two");
    app.history_prev();
    assert_eq!(app.input(), "one");
    app.history_prev();
    assert_eq!(app.input(), "one");
    app.history_next();
    assert_eq!(app.input(), "two");
    app.history_next();
    assert_eq!(app.input(), "draft");
}

#[test]
fn the_cursor_stands_in_its_line() {
    let mut app = App::new();
    press(&mut app, "ab");
    app.insert_char('\n');
    press(&mut app, "c");
    assert_eq!(cursor_position_in_input(&app.editor), (1, 1));
    assert!(input_height_of(&app) > input_height_of(&App::new()));
}

#[test]
fn the_wheel_scrolls() {
    let mut app = App::new();
    app.rendered_lines = 100;
    app.viewport_height = 10;
    app.scroll = 50;
    handle_mouse(&mut app, MouseKind::ScrollUp);
    assert!(app.scroll < 50);
    assert!(!app.follow);
    app.scroll_to_bottom();
    assert!(app.follow);
}

#[test]
fn the_spinner_turns() {
    assert_eq!(spinner_char(0), '\u{280b}');
    assert_eq!(spinner_char(10), '\u{280b}');
    assert_eq!(spinner_char(9), '\u{280f}');
}

// ---------------------------------------------------------------------------
// Rendering
// ---------------------------------------------------------------------------

#[test]
fn markdown_is_rendered() {
    let lines = render_assistant(
        "# Title\n\nSome *very* **bold** `code`.\n\n- one\n- two\n\n```\nlet x;\n```\n\n---\n",
    );
    let texts = all_shown(&lines);
    assert_eq!(texts[0], "Title");
    assert!(lines[0].spans[0].style.bold && lines[0].spans[0].style.underlined);
    assert!(texts.contains(&"Some very bold `code`.".to_string()));
    assert!(texts.contains(&"  \u{2022} one".to_string()));
    assert!(texts.contains(&"  let x;".to_string()));
    assert_eq!(texts.last().unwrap(), &"\u{2500}".repeat(40));
    let emphasis = &lines[1];
    assert!(emphasis.spans.iter().any(|s| s.text == "very" && s.style.italic && !s.style.bold));
    assert!(emphasis.spans.iter().any(|s| s.text == "bold" && s.style.bold && !s.style.italic));
    assert!(emphasis.spans.iter().any(|s| s.text == "`code`" && s.style.fg == Some(Color::Green)));
}

#[test]
fn markdown_has_no_stray_blank_lines() {
    assert!(render_assistant("").is_empty());
    let texts = all_shown(&render_assistant("a\n\n\n\nb\n\n"));
    assert_eq!(texts, vec!["a", "", "b"]);
}

#[test]
fn user_input_is_marked() {
    let texts = all_shown(&render_user("one\ntwo", &Theme::dark()));
    assert_eq!(texts, vec!["> one", "  two"]);
}

#[test]
fn permission_prompts_are_rendered() {
    let caps = vec!["shell:exec".to_string(), "fs:read".to_string()];
    let lines = render_permission("shell", &caps, "ls -la", 40, "[y/n/a]").unwrap();
    assert_eq!(
        all_shown(&lines),
        vec!["  shell requires [shell:exec, fs:read]", "  ls -la", "  allow? [y/n/a]"]
    );
    let lines = render_permission("shell", &caps, "0123456789abcdef", 14, "[y/n]").unwrap();
    assert_eq!(shown(&lines[1]), "  0123456...");
}

#[test]
fn texts_are_cut_only_between_characters() {
    assert_eq!(shorten("abcdef", 6, 3).as_deref(), Some("abcdef"));
    assert_eq!(shorten("abcdefg", 6, 3).as_deref(), Some("abc..."));
    assert_eq!(shorten("aaéaaaa", 6, 3), None);
    assert_eq!(clip("abcdef", 3).as_deref(), Some("abc..."));
}

fn tool_lines(status: &ToolCallStatus, expanded: bool) -> Vec<String> {
    let theme = Theme::dark();
    let result = Some("[exit 1] no".to_string());
    let lines = render_tool_call(&RenderCtx {
        tool_name: "shell",
        input_summary: "ls",
        status,
        result_summary: &result,
        expanded,
        spinner_tick: 0,
        theme: &theme,
        inner_width: 20,
    });
    all_shown(&lines.unwrap())
}

#[test]
fn tool_calls_are_rendered() {
    let done = ToolCallStatus::Success(Elapsed { millis: 12, seconds: "0.0".to_string() });
    assert_eq!(tool_lines(&done, false), vec!["  \u{2713} shell ls 12ms"]);
    let slow = ToolCallStatus::Success(Elapsed { millis: 2500, seconds: "2.5".to_string() });
    assert_eq!(tool_lines(&slow, false), vec!["  \u{2713} shell ls 2.5s"]);
    let failed = ToolCallStatus::Failed("boom".to_string());
    assert_eq!(tool_lines(&failed, false), vec!["  \u{2717} shell ls boom"]);
    let boxed = tool_lines(&failed, true);
    assert_eq!(boxed.len(), 4);
    // The title takes as many places as it has bytes.
    assert_eq!(boxed[0], format!("\u{250c}\u{2500} shell {}\u{2510}", "\u{2500}".repeat(7)));
    assert_eq!(boxed[1], "\u{2502} ls \u{2717} boom");
    assert_eq!(boxed[2], "\u{2502} [exit 1] no");
    assert_eq!(boxed[3], format!("\u{2514}{}\u{2518}", "\u{2500}".repeat(18)));
}

#[test]
fn rows_go_by_the_width_of_the_text() {
    let mut app = App::new();
    // Each of these characters takes two columns.
    app.push_entry(ConversationEntry::Info("\u{65e5}".repeat(10)));
    let lines = lay_out(&mut app, 80, 24).unwrap();
    assert_eq!(lines.len(), 1);
    assert_eq!(app.rendered_lines, 1);
    lay_out(&mut app, 10, 24).unwrap();
    assert!(app.rendered_lines >= 2);
    lay_out(&mut app, 10, 1).unwrap();
    assert_eq!(app.scroll, app.rendered_lines - 1);
}

#[test]
fn the_status_bar_fills_its_width() {
    assert_eq!(bar_of("ab", "cd", 8).as_deref(), Some("ab    cd"));
    assert_eq!(bar_of("abcd", "efgh", 8).as_deref(), Some("abcd efgh"));
    assert_eq!(bar_of("abcdef", "efgh", 8), None);
    let tokens = TokenTexts {
        context_tokens: "1.2k".to_string(),
        context_window: "200.0k".to_string(),
        input_tokens: "5".to_string(),
        output_tokens: "6".to_string(),
    };
    let bar = status_text(&App::new(), &tokens, 120).unwrap();
    assert!(bar.starts_with(" agent-kernel v0.1.0"));
    assert!(bar.contains("ctx: 1.2k/200.0k"));
    assert!(bar.ends_with("tokens: 5in/6out | turns: 0 "));
    assert_eq!(bar.len(), 120);
}

#[test]
fn tool_inputs_are_shown() {
    let show = |tool: &str, input: &str| format_tool_input(tool, &parsed(input)).unwrap();
    assert_eq!(
        show("file_read", "{\"path\":\"a\",\"offset\":3,\"limit\":4}"),
        "a (lines 3-7)"
    );
    assert_eq!(show("file_read", "{\"path\":\"a\",\"offset\":3}"), "a (from line 3)");
    assert_eq!(show("file_write", "{\"path\":\"a\",\"content\":\"é\"}"), "a (2 bytes)");
    assert_eq!(show("grep", "{\"pattern\":\"x\"}"), "/x/ in .");
    assert_eq!(show("ls", "{}"), ".");
    assert_eq!(show("other", "{\"k\":[]}"), "{\"k\":[]}");
}

#[test]
fn tool_results_are_shown() {
    let show = |tool: &str, result: &str| format_tool_result(tool, &parsed(result)).unwrap();
    assert_eq!(show("ls", "{\"error\":\"gone\"}"), "[error] gone");
    assert_eq!(show("file_read", "\"a\\nb\""), " 1 \u{2502} a\n 2 \u{2502} b");
    assert_eq!(show("file_write", "{}"), "written");
    assert_eq!(show("shell", "{\"stdout\":\"x\\n\",\"exit_code\":2}"), "[exit 2] x");
    assert_eq!(show("ls", "[\"a\",\"b\"]"), "a  b");
    assert_eq!(show("other", "17"), "17");
    let many: String = (0..23).map(|i| format!("{i}\n")).collect();
    let told = format_tool_result("grep", &Json::text(&many)).unwrap();
    assert!(told.ends_with("19\n... (3 more lines)"), "{told}");
}

// ---------------------------------------------------------------------------
// Events and actions
// ---------------------------------------------------------------------------

fn ask_policy() -> Policy {
    Policy {
        version: 1,
        name: "ask".to_string(),
        rules: vec![PolicyRule {
            match_capabilities: vec!["shell:exec".to_string()],
            action: PolicyAction::Ask,
            scope_paths: vec![],
            scope_commands: vec![],
            except: vec![],
        }],
        resource_budgets: None,
    }
}

fn asked(id: u64) -> KernelEvent {
    KernelEvent::PermissionRequired {
        session_id: SessionId(0),
        request_id: RequestId(id),
        request: PermissionRequest {
            tool_name: "shell".to_string(),
            capabilities: vec!["shell:exec".to_string()],
            input_summary: "ls".to_string(),
        },
    }
}

#[test]
fn always_allow_answers_and_changes_the_policy() {
    let mut app = App::new();
    let mut policy = ask_policy();
    assert!(apply_event(&mut app, &asked(5), ""));
    assert!(app.awaiting_permission);
    let action = handle_key(&mut app, KeyEvent::plain(KeyCode::Char('a')));
    let (sends, quit) = act(&mut app, &mut policy, action);
    assert!(!quit);
    let answered = sends.iter().any(|s| {
        matches!(s, UiSend::Permission(p)
            if p.request_id == RequestId(5) && p.decision == Decision::Allow)
    });
    assert!(answered);
    assert!(sends.iter().any(|s| matches!(s, UiSend::Request(KernelRequest::SetPolicy { .. }))));
    assert_eq!(policy.evaluate(&Capability::new("shell:exec")), Decision::Allow);
    assert!(!app.awaiting_permission);
}

#[test]
fn a_question_is_answered_once() {
    let mut app = App::new();
    let mut policy = ask_policy();
    apply_event(&mut app, &asked(1), "");
    let (sends, _) = act(&mut app, &mut policy, InputAction::PermissionDecision(false));
    assert!(matches!(&sends[0], UiSend::Permission(p) if p.decision != Decision::Allow));
    let (sends, _) = act(&mut app, &mut policy, InputAction::PermissionDecision(true));
    assert!(sends.is_empty());
}

#[test]
fn tool_calls_are_followed_to_their_end() {
    let mut app = App::new();
    apply_event(
        &mut app,
        &KernelEvent::ToolCallStarted {
            session_id: SessionId(0),
            tool_name: "ls".to_string(),
            input: Json::object(),
        },
        "",
    );
    let running = calls_running(&app);
    assert_eq!(running.len(), 1);
    set_elapsed(&mut app, running[0], &Elapsed { millis: 40, seconds: "0.0".to_string() });
    apply_event(
        &mut app,
        &KernelEvent::ToolCompleted {
            session_id: SessionId(0),
            tool_name: "ls".to_string(),
            result: parsed("[\"a\"]"),
        },
        "",
    );
    assert!(calls_running(&app).is_empty());
    match &app.entries[0] {
        ConversationEntry::ToolCall { status, result_summary, .. } => {
            assert!(matches!(status, ToolCallStatus::Success(e) if e.millis == 40));
            assert_eq!(result_summary.as_deref(), Some("a"));
        }
        other => panic!("expected a tool call, got {other:?}"),
    }
}

#[test]
fn the_end_of_a_turn_is_shown() {
    let mut app = App::new();
    let start = KernelEvent::TurnStarted { session_id: SessionId(0), turn_id: TurnId(0) };
    apply_event(&mut app, &start, "");
    assert!(app.turn_active);
    tick(&mut app);
    let mut result = TurnResultSummary::empty();
    result.input_tokens = 10;
    result.output_tokens = 4;
    let end =
        KernelEvent::TurnEnded { session_id: SessionId(0), turn_id: TurnId(0), result };
    apply_event(&mut app, &end, "");
    assert!(!app.turn_active);
    assert_eq!(app.total_input_tokens, 10);
    assert_eq!(app.total_output_tokens, 4);
    assert_eq!(after_events(true).len(), 1);
    assert!(after_events(false).is_empty());
}

#[test]
fn submitting_sends_the_input() {
    let mut app = App::new();
    let mut policy = ask_policy();
    let (sends, quit) = act(&mut app, &mut policy, InputAction::Submit("hi".to_string()));
    assert!(!quit);
    assert!(matches!(
        &sends[0],
        UiSend::Request(KernelRequest::AddInput { text, .. }) if text == "hi"
    ));
    let (_, quit) = act(&mut app, &mut policy, InputAction::Quit);
    assert!(quit);
}

// ---------------------------------------------------------------------------
// The line interface
// ---------------------------------------------------------------------------

#[test]
fn lines_are_read() {
    assert!(matches!(input_of("   "), ReplInput::Again));
    assert!(matches!(input_of("/quit"), ReplInput::Quit));
    assert!(matches!(
        input_of(" hello \n"),
        ReplInput::Send(KernelRequest::AddInput { text, .. }) if text == "hello"
    ));
}

#[test]
fn answers_are_read() {
    assert_eq!(decision_of(Some("y\n".to_string()), "gone"), Decision::Allow);
    assert!(matches!(decision_of(Some("no".to_string()), "gone"), Decision::Deny(_)));
    assert_eq!(decision_of(None, "gone"), Decision::Deny("gone".to_string()));
}

#[test]
fn events_are_printed() {
    let text = KernelEvent::TextOutput { session_id: SessionId(0), text: "hi".to_string() };
    assert!(matches!(output_of(&text), ReplOutput::Say(t) if t.contains("hi")));
    match output_of(&asked(3)) {
        ReplOutput::Ask { request_id, question } => {
            assert_eq!(request_id, RequestId(3));
            assert!(question.contains("shell"));
        }
        other => panic!("expected a question, got {other:?}"),
    }
    let error = KernelEvent::Error {
        session_id: None,
        error: KernelError { message: "broke".to_string(), recoverable: false },
    };
    assert!(matches!(output_of(&error), ReplOutput::Note(t) if t.contains("broke")));
    assert!(question_of(&PermissionRequest {
        tool_name: "ls".to_string(),
        capabilities: vec!["fs:read".to_string()],
        input_summary: String::new(),
    })
    .contains("fs:read"));
}

// ---------------------------------------------------------------------------
// The plain screen
// ---------------------------------------------------------------------------

#[test]
fn the_plain_screen_is_drawn() {
    let mut app = distro::App::new();
    app.entries.push(distro::ConversationEntry::UserInput("hello".to_string()));
    app.entries.push(distro::ConversationEntry::ToolCall {
        tool_name: "ls".to_string(),
        input_summary: ".".to_string(),
        status: distro::ToolCallStatus::Success,
    });
    let lines = distro::draw_conversation(&mut app, 40, 10).unwrap();
    let texts = all_shown(&lines);
    assert!(texts.iter().any(|t| t.contains("hello")));
    assert!(texts.iter().any(|t| t.contains("ls")));
    assert!(app.rendered_lines > 0);
    assert!(distro::draw_status_bar(&app, 200).is_some());
    let action = distro::handle_key(&mut app, KeyEvent::plain(KeyCode::Char('x')));
    assert!(matches!(action, distro::InputAction::Nothing));
    let (line, _, _) = distro::draw_input(&app);
    assert!(shown(&line).ends_with('x'));
}

#[test]
fn the_printing_frontend_prints() {
    let frontend = distro::ReplFrontend;
    assert_eq!(
        frontend.tool_call("ls", &parsed("{\"path\":\".\"}")).as_deref(),
        Some("  [tool] ls({\"path\":\".\"})")
    );
    assert_eq!(
        frontend.tool_result("ls", &ToolOutput::readonly(parsed("[1]"))).as_deref(),
        Some("  [result] ls → [1]")
    );
    assert_eq!(
        frontend.permission_request(&PermissionRequest {
            tool_name: "shell".to_string(),
            capabilities: vec!["shell:exec".to_string(), "fs:read".to_string()],
            input_summary: "ls".to_string(),
        }),
        "  [permission] shell requires [shell:exec, fs:read]. Allow? (y/n) "
    );
    assert_eq!(
        frontend.compaction(&CompactionSummary {
            turns_before: 9,
            turns_after: 4,
            tokens_freed: 1200,
        }),
        "  [compaction] freed 1200 tokens (9 → 4 turns)"
    );
    assert_eq!(frontend.workspace_changed("/tmp/w"), "  [workspace] changed to /tmp/w");
    assert_eq!(
        frontend.error(&KernelError { message: "it broke".to_string(), recoverable: true }),
        "  [error] it broke"
    );
}

#[test]
fn outcomes_become_tool_responses() {
    let missing = distro::tool_response_of("nope", None);
    assert!(missing.result.to_text().contains("nope"));
    let failed = distro::tool_response_of(
        "ls",
        Some(Err(ToolError::ExecutionFailed("bad disk".to_string()))),
    );
    assert!(failed.result.to_text().contains("bad disk"));
    let done = distro::tool_response_of("ls", Some(Ok(ToolOutput::readonly(Json::text("ok")))));
    assert_eq!(done.result, Json::text("ok"));
}
