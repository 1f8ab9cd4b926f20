use agent_kernel::event_log::read_events;
use agent_kernel::json::Json;
use agent_kernel::members::{find_content_end, find_item, find_members};
use agent_kernel::session_events::{
    default_events_path, fingerprint_of, millis_at, now_millis, EventLog, FingerprintMatch,
    HttpSink, NullSink, SessionEvent, SessionEventSink, TeeSink, WorkspaceFingerprint,
};
use agent_kernel::types::SessionId;
use std::cell::RefCell;
use std::rc::Rc;

fn fingerprint(commit: Option<&str>, branch: Option<&str>, path: &str) -> WorkspaceFingerprint {
    WorkspaceFingerprint {
        commit: commit.map(|c| c.to_string()),
        branch: branch.map(|b| b.to_string()),
        dirty: false,
        workspace_path: path.to_string(),
    }
}

#[test]
fn session_events_workspace_fingerprint_matches_semantics() {
    let a = fingerprint(Some("abc"), Some("main"), "/tmp/a");
    assert_eq!(a.matches(&a), FingerprintMatch::Identical);

    let mut dirty = a.clone();
    dirty.dirty = true;
    assert_eq!(a.matches(&dirty), FingerprintMatch::SameCommitDirty);
    assert_eq!(dirty.matches(&a), FingerprintMatch::SameCommitDirty);

    let other = fingerprint(Some("def"), Some("main"), "/tmp/a");
    assert_eq!(a.matches(&other), FingerprintMatch::CommitMismatch);

    let no_commit = fingerprint(None, None, "/tmp/none");
    assert_eq!(a.matches(&no_commit), FingerprintMatch::Unknown);
    assert_eq!(no_commit.matches(&a), FingerprintMatch::Unknown);
    assert_eq!(no_commit.matches(&no_commit), FingerprintMatch::Unknown);
}

#[test]
fn http_sink_new_rejects_non_http_urls() {
    match HttpSink::new(SessionId(0), "https://example.com/events", None) {
        Ok(_) => panic!("expected error"),
        Err(e) => assert!(e.contains("http://")),
    }
    match HttpSink::new(SessionId(0), "ftp://example.com", None) {
        Ok(_) => panic!("expected error"),
        Err(e) => assert!(e.contains("http://")),
    }
}

#[test]
fn http_sink_new_parses_host_and_port() {
    let sink = HttpSink::new(SessionId(0), "http://example.com/events", None).unwrap();
    assert_eq!(sink.endpoint(), "http://example.com:80/events");

    let sink = HttpSink::new(SessionId(0), "http://localhost:9000/x", None).unwrap();
    assert_eq!(sink.endpoint(), "http://localhost:9000/x");

    let sink = HttpSink::new(SessionId(0), "http://127.0.0.1:3000", None).unwrap();
    assert_eq!(sink.endpoint(), "http://127.0.0.1:3000/");
}

#[test]
fn workspace_fingerprint_matches_semantics() {
    let a = fingerprint(Some("abc123"), Some("main"), "/tmp/a");
    let a_clone = a.clone();
    assert_eq!(a.matches(&a_clone), FingerprintMatch::Identical);

    let mut a_dirty = a.clone();
    a_dirty.dirty = true;
    assert_eq!(a.matches(&a_dirty), FingerprintMatch::SameCommitDirty);
    assert_eq!(a_dirty.matches(&a), FingerprintMatch::SameCommitDirty);

    let different = WorkspaceFingerprint { commit: Some("def456".to_string()), ..a.clone() };
    assert_eq!(a.matches(&different), FingerprintMatch::CommitMismatch);

    let no_commit = fingerprint(None, None, "/tmp/non-git");
    assert_eq!(a.matches(&no_commit), FingerprintMatch::Unknown);
    assert_eq!(no_commit.matches(&a), FingerprintMatch::Unknown);
    assert_eq!(no_commit.matches(&no_commit), FingerprintMatch::Unknown);
}

fn sample_user_input(turn_index: usize, text: &str) -> SessionEvent {
    SessionEvent::UserInput {
        timestamp_ms: 1_700_000_000_000,
        turn_index,
        text: text.to_string(),
    }
}

#[test]
fn null_sink_drops_events() {
    let mut sink = NullSink::new(SessionId(42));
    assert_eq!(sink.session_id(), SessionId(42));
    sink.record(sample_user_input(0, "ignored"));
    sink.record(SessionEvent::SystemMessage {
        timestamp_ms: 0,
        turn_index: 0,
        text: "also ignored".to_string(),
    });
    assert_eq!(sink.session_id(), SessionId(42));
}

#[test]
fn default_events_path_resolves_base_dir() {
    let home = Some("/tmp/ak-test-home".to_string());
    let p = default_events_path(
        SessionId(7),
        Some("/tmp/ak-test-override".to_string()),
        home.clone(),
    );
    assert_eq!(p, "/tmp/ak-test-override/sessions/7/events.jsonl");

    let p = default_events_path(SessionId(8), None, home);
    assert_eq!(p, "/tmp/ak-test-home/.agent-kernel/sessions/8/events.jsonl");

    let p = default_events_path(SessionId(9), None, None);
    assert_eq!(p, ".agent-kernel/sessions/9/events.jsonl");
}

#[test]
fn read_events_from_file_roundtrips_jsonl() {
    let written = [
        sample_user_input(0, "first"),
        SessionEvent::AssistantResponse {
            timestamp_ms: 0,
            turn_index: 0,
            text: "hello".to_string(),
        },
        sample_user_input(1, "second"),
    ];
    let mut log = String::new();
    for event in &written {
        log.push_str(&event.to_line());
        log.push('\n');
    }
    let events = read_events(&log).expect("read events");
    assert_eq!(events.len(), 3);
    assert!(matches!(events[0], SessionEvent::UserInput { ref text, .. } if text == "first"));
    assert!(
        matches!(events[1], SessionEvent::AssistantResponse { ref text, .. } if text == "hello")
    );
    assert!(matches!(events[2], SessionEvent::UserInput { ref text, .. } if text == "second"));
    assert_eq!(events, written);
}

#[test]
fn read_events_malformed_line_errors() {
    let log = "{\"type\":\"UserInput\",\"timestamp_ms\":0,\"turn_index\":0,\"text\":\"ok\"}\nthis is not json\n";
    let err = read_events(log).expect_err("should fail");
    assert!(err.contains("line 2"), "expected line number in error, got: {err}");
}

#[test]
fn blank_lines_of_a_log_are_skipped() {
    assert_eq!(read_events("\n   \n").unwrap().len(), 0);
}

#[derive(Clone)]
struct VecSink {
    session_id: SessionId,
    events: Rc<RefCell<Vec<SessionEvent>>>,
}

impl VecSink {
    fn new(session_id: SessionId) -> Self {
        VecSink { session_id, events: Rc::new(RefCell::new(Vec::new())) }
    }
}

impl SessionEventSink for VecSink {
    fn id(&self) -> SessionId {
        self.session_id
    }

    fn log(&self) -> EventLog {
        unreachable!()
    }

    fn session_id(&self) -> SessionId {
        self.session_id
    }

    fn record(&mut self, event: SessionEvent) {
        self.events.borrow_mut().push(event);
    }
}

#[test]
fn tee_sink_fans_out_to_both() {
    let a = VecSink::new(SessionId(1));
    let b = VecSink::new(SessionId(2));
    let a_handle = a.clone();
    let b_handle = b.clone();
    let mut tee = TeeSink::new(a, b);
    for i in 0..3 {
        tee.record(SessionEvent::UserInput {
            timestamp_ms: i,
            turn_index: i as usize,
            text: format!("msg {i}"),
        });
    }
    let a_events = a_handle.events.borrow();
    let b_events = b_handle.events.borrow();
    assert_eq!(a_events.len(), 3);
    assert_eq!(b_events.len(), 3);
    assert_eq!(*a_events, *b_events);
    assert_eq!(tee.session_id(), SessionId(1));
}

#[test]
fn http_sink_records_to_mock_server() {
    let sink = HttpSink::new(
        SessionId(42),
        "http://127.0.0.1:9000/events",
        Some("secret-token".to_string()),
    )
    .unwrap();
    let event = SessionEvent::UserInput {
        timestamp_ms: 1_700_000_000_000,
        turn_index: 0,
        text: "hello-from-test".to_string(),
    };
    let request = sink.request(&event.to_line());
    assert!(request.starts_with("POST /events HTTP/1.1"));
    assert!(request.contains("Content-Type: application/json"));
    assert!(request.contains("Authorization: Bearer secret-token"));
    assert!(request.contains("hello-from-test"));
    assert!(request.contains("UserInput"));
    assert_eq!(sink.failed_writes(), 0);
}

#[test]
fn http_sink_failed_post_bumps_counter() {
    let mut sink = HttpSink::new(SessionId(0), "http://127.0.0.1:1/events", None).unwrap();
    assert_eq!(sink.failed_writes(), 0);
    sink.note_failure();
    assert!(sink.failed_writes() >= 1);
}

#[test]
fn fingerprint_workspace_non_git_dir() {
    let fp = fingerprint_of("/tmp/plain".to_string(), None, None, None);
    assert!(fp.commit.is_none());
    assert!(fp.branch.is_none());
    assert!(!fp.dirty);
    assert!(!fp.workspace_path.is_empty());
}

#[test]
fn fingerprint_workspace_on_this_repo() {
    let fp = fingerprint_of(
        "/tmp/repo".to_string(),
        Some("0123456789abcdef0123456789abcdef01234567\n".to_string()),
        Some("main\n".to_string()),
        Some(b" M src/lib.rs\n".to_vec()),
    );
    assert_eq!(fp.commit.as_deref(), Some("0123456789abcdef0123456789abcdef01234567"));
    assert_eq!(fp.branch.as_deref(), Some("main"));
    assert!(fp.dirty);
}

#[test]
fn session_started_old_format_deserializes_with_none_fingerprint() {
    let old_json = "{\"type\":\"SessionStarted\",\"timestamp_ms\":0,\"turn_index\":0,\"workspace\":\"/tmp\",\"system_prompt\":\"sys\",\"policy_name\":\"test\"}";
    let doc = Json::parse(old_json).expect("parse old format");
    match SessionEvent::from_json(&doc) {
        Ok(SessionEvent::SessionStarted { fingerprint, .. }) => {
            assert!(fingerprint.is_none());
        }
        _ => panic!("expected SessionStarted"),
    }
}

#[test]
fn session_event_roundtrips_through_serde() {
    let event = SessionEvent::ToolExchange {
        timestamp_ms: 1_700_000_000_000,
        turn_index: 3,
        tool_name: "file_read".to_string(),
        input: Json::object().with("path", Json::text("src/main.rs")),
        result: Json::object().with("content", Json::text("fn main() {}")),
    };
    let doc = Json::parse(&event.to_line()).unwrap();
    assert_eq!(SessionEvent::from_json(&doc), Ok(event));
}

#[test]
fn session_event_roundtrip_lives_in_interfaces() {
    let event = sample_user_input(0, "hello");
    let doc = Json::parse(&event.to_line()).unwrap();
    assert_eq!(SessionEvent::from_json(&doc), Ok(event));
}

#[test]
fn a_session_start_reads_back_with_its_fingerprint() {
    let event = SessionEvent::SessionStarted {
        timestamp_ms: 5,
        turn_index: 0,
        workspace: "/w".to_string(),
        system_prompt: "line one\nline \"two\"".to_string(),
        policy_name: "p".to_string(),
        fingerprint: Some(fingerprint(Some("abc"), None, "/w")),
    };
    let line = event.to_line();
    assert!(!line.contains('\n'));
    assert_eq!(read_events(&line).unwrap(), vec![event]);
}

fn read_error(record: &str) -> String {
    read_events(record).unwrap_err()
}

#[test]
fn unknown_events_do_not_read() {
    assert_eq!(
        read_error("{\"type\":\"Nope\"}"),
        "line 1: unknown variant `Nope`, expected one of `SessionStarted`, `UserInput`, \
         `AssistantResponse`, `ToolExchange`, `SystemMessage` at line 1 column 14"
    );
    assert_eq!(
        read_error("null"),
        "line 1: invalid type: null, expected internally tagged enum SessionEvent at line 1 column 4"
    );
    assert_eq!(read_error("{}"), "line 1: missing field `type` at line 1 column 2");
    assert_eq!(
        read_error("{\"type\": \"UserInput\", \"type\": \"X\"}"),
        "line 1: duplicate field `type` at line 1 column 28"
    );
}

#[test]
fn errors_name_the_member() {
    let head = "{\"type\":\"UserInput\",\"timestamp_ms\":0,\"turn_index\":";
    assert_eq!(read_error(&format!("{head}0}}")), "line 1: missing field `text`");
    assert_eq!(
        read_error(&format!("{head}0,\"text\":7}}")),
        "line 1: invalid type: integer `7`, expected a string"
    );
    assert_eq!(
        read_error(&format!("{head}-1,\"text\":\"\"}}")),
        "line 1: invalid value: integer `-1`, expected usize"
    );
    assert_eq!(
        read_error(&format!("{head}\"x\",\"text\":\"\"}}")),
        "line 1: invalid type: string \"x\", expected usize"
    );
    let start = "{\"type\":\"SessionStarted\",\"timestamp_ms\":0,\"turn_index\":0,\"workspace\":\"/w\",\"system_prompt\":\"s\",\"policy_name\":\"p\",\"fingerprint\":";
    assert_eq!(
        read_error(&format!("{start}{{\"dirty\":1,\"workspace_path\":\"/w\"}}}}")),
        "line 1: invalid type: integer `1`, expected a boolean"
    );
}

#[test]
fn members_are_found_where_they_stand() {
    let line: Vec<char> =
        " { \"a\" : [1, {\"b\":\"}\"}], \"\\u0062\":\"x\\\"y\",\"c\":-1.5 } ".chars().collect();
    let found = find_members(&line);
    let names: Vec<&str> = found.iter().map(|m| m.name.as_str()).collect();
    assert_eq!(names, vec!["a", "b", "c"]);
    let values: Vec<String> =
        found.iter().map(|m| line[m.start..m.end].iter().collect()).collect();
    assert_eq!(values, vec!["[1, {\"b\":\"}\"}]", "\"x\\\"y\"", "-1.5"]);
    assert!(found.iter().all(|m| line[m.colon] == ':'));
    assert_eq!(find_content_end(&line), line.len() - 1);

    let list: Vec<char> = "[\"a,b\", 7 , [1,2]]".chars().collect();
    assert_eq!(find_item(&list, 0), (1, 6));
    assert_eq!(find_item(&list, 1), (8, 9));
    assert_eq!(find_item(&list, 2), (12, 17));
    assert!(find_members(&list).is_empty());
}

#[test]
fn members_given_twice_do_not_read() {
    let head = "{\"type\":\"UserInput\",\"timestamp_ms\":0,\"turn_index\":0,";
    assert_eq!(
        read_error(&format!("{head}\"text\":\"a\",\"text\":\"b\"}}")),
        "line 1: duplicate field `text`"
    );
    // The same name, written in another way.
    assert_eq!(
        read_error(&format!("{head}\"text\":\"a\",\"te\\u0078t\":\"b\"}}")),
        "line 1: duplicate field `text`"
    );
    // The fault that comes first is told.
    assert_eq!(
        read_error(&format!("{head}\"text\":7,\"text\":\"b\"}}")),
        "line 1: invalid type: integer `7`, expected a string"
    );
    let start = "{\"type\":\"SessionStarted\",\"timestamp_ms\":0,\"turn_index\":0,\"workspace\":\"/w\",\"system_prompt\":\"s\",\"policy_name\":\"p\",\"fingerprint\":";
    assert_eq!(
        read_error(&format!(
            "{start}{{\"dirty\":true,\"workspace_path\":\"/w\",\"dirty\":true}}}}"
        )),
        "line 1: duplicate field `dirty`"
    );
    // What an event does not have is passed over, once or twice.
    assert_eq!(
        read_events(&format!("{head}\"x\":1,\"text\":\"a\",\"x\":[2]}}")).unwrap().len(),
        1
    );
    // A name inside a text is no member.
    assert_eq!(
        read_events(&format!("{head}\"text\":\"\\\"text\\\":1,\"}}")).unwrap(),
        vec![SessionEvent::UserInput {
            timestamp_ms: 0,
            turn_index: 0,
            text: "\"text\":1,".to_string()
        }]
    );
}

#[test]
fn members_may_be_given_by_their_places() {
    let events = read_events("[\"UserInput\", 5, 1, \"hi\"]\n").unwrap();
    assert_eq!(
        events,
        vec![SessionEvent::UserInput {
            timestamp_ms: 5,
            turn_index: 1,
            text: "hi".to_string()
        }]
    );
    assert_eq!(
        read_error("[\"UserInput\", 5, 1, \"hi\", 3]"),
        "line 1: invalid length 4, expected 3 elements in sequence"
    );
    assert_eq!(
        read_error("[\"UserInput\", 5]"),
        "line 1: invalid length 1, expected struct variant SessionEvent::UserInput with 3 elements"
    );
    let start = "[\"SessionStarted\", 0, 0, \"/w\", \"s\", \"p\", [\"abc\", null, true, \"/w\"]]";
    match &read_events(start).unwrap()[0] {
        SessionEvent::SessionStarted { fingerprint: Some(f), .. } => {
            assert_eq!(f.commit.as_deref(), Some("abc"));
            assert!(f.dirty);
        }
        other => panic!("expected a start, got {other:?}"),
    }
}

#[test]
fn a_reopened_log_reads_back() {
    let mut log = String::new();
    for text in ["first", "second"] {
        log.push_str(&sample_user_input(0, text).to_entry());
    }
    // Opened again, and appended to.
    log.push_str(&sample_user_input(2, "third").to_entry());
    let events = read_events(&log).unwrap();
    let texts: Vec<&str> = events
        .iter()
        .map(|e| match e {
            SessionEvent::UserInput { text, .. } => text.as_str(),
            other => panic!("unexpected event {other:?}"),
        })
        .collect();
    assert_eq!(texts, vec!["first", "second", "third"]);
}

#[test]
fn failed_posts_are_counted() {
    let mut sink = HttpSink::new(SessionId(0), "http://127.0.0.1:1/events", None).unwrap();
    for posted in [true, false, true, false, false] {
        sink.note_outcome(posted);
    }
    assert_eq!(sink.failed_writes(), 3);
    assert_eq!(sink.endpoint(), "http://127.0.0.1:1/events");
}

#[test]
fn a_workspace_of_which_git_cannot_say_all_is_plain() {
    let head = || Some("abc\n".to_string());
    let branch = || Some("main\n".to_string());
    let status = || Some(b"?? new\n".to_vec());
    for (h, b, s) in [
        (None, None, status()),
        (None, branch(), status()),
        (head(), None, status()),
        (head(), branch(), None),
    ] {
        let fp = fingerprint_of("/w".to_string(), h, b, s);
        assert_eq!(fp, fingerprint(None, None, "/w"));
    }
    let fp = fingerprint_of("/w".to_string(), head(), branch(), status());
    assert_eq!(fp.commit.as_deref(), Some("abc"));
    assert!(fp.dirty);
}

#[test]
fn endpoints_parse_back() {
    for url in ["http://example.com/events", "http://localhost:9000/x/y", "http://h"] {
        let endpoint = HttpSink::new(SessionId(0), url, None).unwrap().endpoint();
        assert_eq!(HttpSink::new(SessionId(0), &endpoint, None).unwrap().endpoint(), endpoint);
    }
    assert!(HttpSink::new(SessionId(0), "http://h:port/x", None).is_err());
}

#[test]
fn timestamps_are_the_low_bits_of_the_reading() {
    assert_eq!(millis_at(None), 0);
    assert_eq!(millis_at(Some(1_700_000_000_000)), 1_700_000_000_000);
    assert_eq!(millis_at(Some(u64::MAX as u128)), u64::MAX);
    assert_eq!(millis_at(Some(u64::MAX as u128 + 8)), 7);
    // No clock is set to a time before 2001.
    assert!(now_millis() > 1_000_000_000_000);
}
