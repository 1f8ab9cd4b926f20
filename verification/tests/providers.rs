use agent_kernel::anthropic::{
    convert_messages, convert_tools, error_of_status, parse_response, response_of_reply,
    retries_after, retry_delay_ms, AnthropicProvider, HttpReply, MAX_RETRIES,
};
use agent_kernel::echo::{count_tokens, EchoProvider};
use agent_kernel::json::Json;
use agent_kernel::provider::{
    is_transient, synthesized_chunks, ProviderError, Response, StopReason, Usage,
};
use agent_kernel::sse::{data_on, parse_sse_stream, SseStream};
use agent_kernel::types::{CompletionConfig, Content, Message, Prompt, Role, StreamChunk};

fn parsed(text: &str) -> Json {
    Json::parse(text).expect("valid JSON")
}

fn message(role: Role, content: Vec<Content>) -> Message {
    Message { role, content }
}

fn text(t: &str) -> Content {
    Content::Text(t.to_string())
}

fn prompt(messages: Vec<Message>) -> Prompt {
    Prompt { system: String::new(), messages, tool_definitions: vec![] }
}

// ---------------------------------------------------------------------------
// Requests
// ---------------------------------------------------------------------------

#[test]
fn neighbours_of_one_role_are_joined() {
    let wire = convert_messages(&vec![
        message(Role::User, vec![text("a")]),
        message(Role::System, vec![text("b")]),
        message(Role::Assistant, vec![text("  ")]),
        message(
            Role::Assistant,
            vec![Content::ToolCall {
                id: "c1".to_string(),
                name: "ls".to_string(),
                input: Json::object(),
            }],
        ),
        message(
            Role::User,
            vec![Content::ToolResult { id: "c1".to_string(), result: Json::text("x") }],
        ),
    ]);
    assert_eq!(wire.len(), 3);
    let roles: Vec<&str> = wire.iter().map(|m| m.get_str("role").unwrap()).collect();
    assert_eq!(roles, vec!["user", "assistant", "user"]);
    assert_eq!(wire[0].get("content").unwrap().as_array().unwrap().len(), 2);
    let result = &wire[2].get("content").unwrap().as_array().unwrap()[0];
    assert_eq!(result.get_str("type"), Some("tool_result"));
    assert_eq!(result.get_str("content"), Some("x"));
}

#[test]
fn results_that_are_no_text_are_sent_as_json() {
    let wire = convert_messages(&vec![message(
        Role::User,
        vec![Content::ToolResult { id: "c".to_string(), result: parsed("{\"a\":[1,2]}") }],
    )]);
    let block = &wire[0].get("content").unwrap().as_array().unwrap()[0];
    assert_eq!(block.get_str("content"), Some("{\"a\":[1,2]}"));
}

#[test]
fn tools_have_defaults() {
    let tools = convert_tools(&vec![Json::object()]);
    assert_eq!(tools[0].get_str("name"), Some("unknown"));
    assert_eq!(tools[0].get_str("description"), Some(""));
    assert_eq!(
        tools[0].get("input_schema").unwrap().get_str("type"),
        Some("object")
    );
}

#[test]
fn short_prompts_are_not_cached() {
    let provider = AnthropicProvider::new("key".to_string(), "m".to_string());
    let mut asked = prompt(vec![message(Role::User, vec![text("hi")])]);
    asked.system = "be kind".to_string();
    let body = provider.build_request_body(&asked, &CompletionConfig::default());
    assert_eq!(body.get_str("model"), Some("m"));
    assert_eq!(body.get_str("system"), Some("be kind"));
    assert!(!body.to_text().contains("cache_control"));
    assert!(body.get("stream").is_none());
    let streaming = provider.build_streaming_body(&asked, &CompletionConfig::default());
    assert_eq!(streaming.get("stream"), Some(&Json::Bool(true)));
}

#[test]
fn long_prompts_are_cached() {
    let provider = AnthropicProvider::new("key".to_string(), "m".to_string());
    let mut asked = prompt(vec![
        message(Role::User, vec![text("one")]),
        message(Role::Assistant, vec![text("two")]),
        message(Role::User, vec![text("three")]),
    ]);
    asked.system = "s".repeat(4 * provider.cache_min_tokens());
    let body = provider.build_request_body(&asked, &CompletionConfig::default());
    let system = &body.get("system").unwrap().as_array().unwrap()[0];
    assert_eq!(
        system.get("cache_control").unwrap().to_text(),
        "{\"ttl\":\"1h\",\"type\":\"ephemeral\"}"
    );
    let messages = body.get("messages").unwrap().as_array().unwrap();
    let marked: Vec<bool> =
        messages.iter().map(|m| m.to_text().contains("cache_control")).collect();
    assert_eq!(marked, vec![false, true, false]);
}

// ---------------------------------------------------------------------------
// Responses
// ---------------------------------------------------------------------------

#[test]
fn responses_are_read() {
    let body = "{\"content\":[{\"type\":\"text\",\"text\":\"hi\"},{\"type\":\"thinking\"},{\"type\":\"tool_use\",\"id\":\"c1\",\"name\":\"ls\",\"input\":{\"path\":\".\"}}],\"stop_reason\":\"tool_use\",\"usage\":{\"input_tokens\":7,\"output_tokens\":3}}";
    let response = response_of_reply(HttpReply::Body(body.to_string())).unwrap();
    assert_eq!(response.content.len(), 2);
    assert!(matches!(&response.content[0], Content::Text(t) if t == "hi"));
    assert!(matches!(&response.content[1], Content::ToolCall { name, .. } if name == "ls"));
    assert_eq!(response.stop_reason, StopReason::ToolUse);
    assert_eq!(response.usage.input_tokens, 7);
    assert_eq!(response.usage.output_tokens, 3);
    assert_eq!(response.usage.cache_read_input_tokens, 0);
}

#[test]
fn replies_that_are_no_response_are_errors() {
    assert!(matches!(parse_response(&Json::object()), Err(ProviderError::Parse(_))));
    assert!(matches!(
        response_of_reply(HttpReply::Body("<html>".to_string())),
        Err(ProviderError::Parse(_))
    ));
    assert!(response_of_reply(HttpReply::Unreadable("cut".to_string())).is_err());
    assert!(matches!(
        response_of_reply(HttpReply::Failed("no route".to_string())),
        Err(ProviderError::Network(e)) if e == "no route"
    ));
    assert!(matches!(
        response_of_reply(HttpReply::Status(429)),
        Err(ProviderError::RateLimited { retry_after_secs: None })
    ));
    assert!(matches!(
        error_of_status(400),
        ProviderError::Api { status: 400, message } if message == "HTTP 400"
    ));
}

#[test]
fn only_passing_errors_are_retried() {
    assert!(is_transient(&error_of_status(429)));
    assert!(is_transient(&error_of_status(500)));
    assert!(is_transient(&error_of_status(599)));
    assert!(!is_transient(&error_of_status(600)));
    assert!(!is_transient(&error_of_status(404)));
    assert!(is_transient(&ProviderError::Network("x".to_string())));
    assert!(!is_transient(&ProviderError::Parse("x".to_string())));
    assert!(retries_after(0, &error_of_status(500)));
    assert!(!retries_after(MAX_RETRIES, &error_of_status(500)));
    assert!(!retries_after(0, &error_of_status(404)));
}

#[test]
fn retries_wait_longer_each_time() {
    let e = error_of_status(500);
    assert_eq!(retry_delay_ms(1, &e), 850);
    assert_eq!(retry_delay_ms(2, &e), 1900);
    assert_eq!(retry_delay_ms(3, &e), 4200);
    let told = ProviderError::RateLimited { retry_after_secs: Some(10) };
    assert_eq!(retry_delay_ms(1, &told), 8500);
    let long = ProviderError::RateLimited { retry_after_secs: Some(600) };
    assert_eq!(retry_delay_ms(1, &long), 30_000);
}

// ---------------------------------------------------------------------------
// Streams
// ---------------------------------------------------------------------------

fn streamed() -> Vec<String> {
    [
        "event: message_start",
        "data: {\"type\":\"message_start\",\"message\":{\"usage\":{\"input_tokens\":11,\"cache_read_input_tokens\":4}}}",
        "",
        "data: {\"type\":\"content_block_start\",\"content_block\":{\"type\":\"text\"}}",
        "data: {\"type\":\"content_block_delta\",\"delta\":{\"type\":\"text_delta\",\"text\":\"Let me \"}}",
        "data: {\"type\":\"content_block_delta\",\"delta\":{\"type\":\"text_delta\",\"text\":\"look.\"}}",
        "data: {\"type\":\"content_block_stop\"}",
        "data: {\"type\":\"content_block_start\",\"content_block\":{\"type\":\"tool_use\",\"id\":\"c1\",\"name\":\"ls\"}}",
        "data: {\"type\":\"content_block_delta\",\"delta\":{\"type\":\"input_json_delta\",\"partial_json\":\"{\\\"path\\\"\"}}",
        "data: {\"type\":\"content_block_delta\",\"delta\":{\"type\":\"input_json_delta\",\"partial_json\":\":\\\".\\\"}\"}}",
        "data: {\"type\":\"content_block_stop\"}",
        "data: {\"type\":\"message_delta\",\"delta\":{\"stop_reason\":\"tool_use\"},\"usage\":{\"output_tokens\":9}}",
        "data: {\"type\":\"message_stop\"}",
        "data: never read",
    ]
    .iter()
    .map(|l| l.to_string())
    .collect()
}

#[test]
fn streams_add_up_to_the_response() {
    let (chunks, response) = parse_sse_stream(&streamed());
    let response = response.unwrap();
    assert_eq!(response.content.len(), 2);
    assert!(matches!(&response.content[0], Content::Text(t) if t == "Let me look."));
    match &response.content[1] {
        Content::ToolCall { id, name, input } => {
            assert_eq!(id, "c1");
            assert_eq!(name, "ls");
            assert_eq!(input.to_text(), "{\"path\":\".\"}");
        }
        other => panic!("expected a call, got {other:?}"),
    }
    assert_eq!(response.stop_reason, StopReason::ToolUse);
    assert_eq!(response.usage.input_tokens, 11);
    assert_eq!(response.usage.cache_read_input_tokens, 4);
    assert_eq!(response.usage.output_tokens, 9);

    let mut said = String::new();
    for chunk in &chunks {
        if let StreamChunk::Text(t) = chunk {
            said.push_str(t);
        }
    }
    assert_eq!(said, "Let me look.");
    assert!(matches!(chunks.last(), Some(StreamChunk::Done)));
    assert_eq!(chunks.len(), 7);
}

#[test]
fn streams_can_be_fed_line_by_line() {
    let mut stream = SseStream::new();
    let mut chunks = 0;
    for line in streamed() {
        let step = stream.take_line(&line).unwrap();
        if step.chunk.is_some() {
            chunks += 1;
        }
        if step.over {
            break;
        }
    }
    let (response, last) = stream.finish();
    assert_eq!(chunks, 6);
    assert_eq!(response.content.len(), 2);
    assert!(matches!(last, StreamChunk::Done));
}

#[test]
fn broken_streams_are_errors() {
    assert_eq!(data_on("event: ping"), None);
    assert_eq!(data_on("data:   "), None);
    assert_eq!(data_on("data: {}").as_deref(), Some("{}"));
    let (_, response) = parse_sse_stream(&vec!["data: {".to_string()]);
    assert!(matches!(response, Err(ProviderError::Parse(_))));
}

#[test]
fn calls_without_readable_input_have_none() {
    let lines: Vec<String> = [
        "data: {\"type\":\"content_block_start\",\"content_block\":{\"type\":\"tool_use\",\"id\":\"c1\",\"name\":\"ls\"}}",
        "data: {\"type\":\"content_block_stop\"}",
    ]
    .iter()
    .map(|l| l.to_string())
    .collect();
    let (_, response) = parse_sse_stream(&lines);
    match &response.unwrap().content[0] {
        Content::ToolCall { input, .. } => assert_eq!(*input, Json::Null),
        other => panic!("expected a call, got {other:?}"),
    }
}

#[test]
fn calls_are_announced_and_the_end_comes_once() {
    let (chunks, _) = parse_sse_stream(&streamed());
    let start = chunks
        .iter()
        .position(|c| matches!(c, StreamChunk::ToolCallStart { id, name } if id == "c1" && name == "ls"))
        .unwrap();
    let end = chunks
        .iter()
        .position(|c| matches!(c, StreamChunk::ToolCallEnd { id } if id == "c1"))
        .unwrap();
    assert!(start < end);
    let ends = chunks.iter().filter(|c| matches!(c, StreamChunk::Done)).count();
    assert_eq!(ends, 1);

    // A stream that breaks off has no end, and an end without a start is none.
    let (chunks, response) = parse_sse_stream(&vec![
        "data: {\"type\":\"content_block_stop\"}".to_string(),
        "data: {\"type\":\"content_block_delta\",\"delta\":{\"type\":\"text_delta\",\"text\":\"a\"}}"
            .to_string(),
        "data: {".to_string(),
    ]);
    assert!(response.is_err());
    assert_eq!(chunks.len(), 1);
    assert!(matches!(&chunks[0], StreamChunk::Text(t) if t == "a"));
}

#[test]
fn whole_responses_are_told_as_streams() {
    let chunks = synthesized_chunks(&Response {
        content: vec![
            text("hi"),
            Content::ToolCall {
                id: "c".to_string(),
                name: "ls".to_string(),
                input: Json::object(),
            },
        ],
        usage: Usage::default(),
        stop_reason: StopReason::ToolUse,
    });
    assert!(matches!(&chunks[0], StreamChunk::Text(t) if t == "hi"));
    assert!(matches!(chunks.last(), Some(StreamChunk::Done)));
}

// ---------------------------------------------------------------------------
// The echo provider
// ---------------------------------------------------------------------------

#[test]
fn the_echo_repeats_what_the_user_said_last() {
    let response = EchoProvider.complete(&prompt(vec![
        message(Role::User, vec![text("first")]),
        message(Role::User, vec![text("second")]),
        message(Role::Assistant, vec![text("third")]),
    ]));
    match &response.content[0] {
        Content::Text(t) => assert!(t.starts_with("[echo provider] You said: second"), "{t}"),
        other => panic!("expected text, got {other:?}"),
    }
    assert_eq!(response.usage.input_tokens, 1);
    let silent = EchoProvider.complete(&prompt(vec![]));
    assert!(matches!(&silent.content[0], Content::Text(t) if t.contains("(no user input)")));
}

#[test]
fn tokens_are_a_fourth_of_the_bytes() {
    assert_eq!(count_tokens(&text("12345678")), 2);
    let call = Content::ToolCall {
        id: "c".to_string(),
        name: "n".to_string(),
        input: parsed("{\"a\":1}"),
    };
    assert_eq!(count_tokens(&call), 1);
}
