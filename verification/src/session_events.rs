//! The session's event stream: the append-only record of everything that
//! changes a conversation.

use crate::json;
use crate::json::Json;
use crate::paths;
use crate::text;
use crate::text::{
    byte_len_of, chars_of, decimal_of, last_char_at, next_char_at, parse_port, starts_with,
    string_of, trimmed,
};
use crate::types::SessionId;
use vstd::prelude::*;
use vstd::string::*;

verus! {

// ---------------------------------------------------------------------------
// Fingerprints
// ---------------------------------------------------------------------------

/// The git state of a workspace when a session was created. Outside git there
/// is neither commit nor branch, and nothing counts as dirty.
#[derive(Debug, PartialEq)]
pub struct WorkspaceFingerprint {
    pub commit: Option<String>,
    pub branch: Option<String>,
    pub dirty: bool,
    pub workspace_path: String,
}

#[verifier::ext_equal]
pub ghost struct FingerprintView {
    pub commit: Option<Seq<char>>,
    pub branch: Option<Seq<char>>,
    pub dirty: bool,
    pub workspace_path: Seq<char>,
}

impl DeepView for WorkspaceFingerprint {
    type V = FingerprintView;

    open spec fn deep_view(&self) -> FingerprintView {
        FingerprintView {
            commit: self.commit.deep_view(),
            branch: self.branch.deep_view(),
            dirty: self.dirty,
            workspace_path: self.workspace_path@,
        }
    }
}

impl Clone for WorkspaceFingerprint {
    fn clone(&self) -> (r: Self)
        ensures
            r.deep_view() == self.deep_view(),
    {
        WorkspaceFingerprint {
            commit: self.commit.clone(),
            branch: self.branch.clone(),
            dirty: self.dirty,
            workspace_path: self.workspace_path.clone(),
        }
    }
}

/// How two fingerprints compare.
#[derive(Debug, Clone, Copy, PartialEq, Eq, Structural)]
pub enum FingerprintMatch {
    /// Commits match and both are clean.
    Identical,
    /// Commits match but at least one side has uncommitted changes.
    SameCommitDirty,
    /// Commits differ.
    CommitMismatch,
    /// One or both lack git state.
    Unknown,
}

impl FingerprintView {
    pub open spec fn matches(self, other: Self) -> FingerprintMatch {
        if self.commit is None || other.commit is None {
            FingerprintMatch::Unknown
        } else if self.commit != other.commit {
            FingerprintMatch::CommitMismatch
        } else if self.dirty || other.dirty {
            FingerprintMatch::SameCommitDirty
        } else {
            FingerprintMatch::Identical
        }
    }
}

impl WorkspaceFingerprint {
    /// How this fingerprint compares with another.
    pub fn matches(&self, other: &Self) -> (r: FingerprintMatch)
        ensures
            r == self.deep_view().matches(other.deep_view()),
    {
        match (&self.commit, &other.commit) {
            (Some(a), Some(b)) => {
                if *a == *b {
                    if self.dirty || other.dirty {
                        FingerprintMatch::SameCommitDirty
                    } else {
                        FingerprintMatch::Identical
                    }
                } else {
                    FingerprintMatch::CommitMismatch
                }
            },
            _ => FingerprintMatch::Unknown,
        }
    }
}

/// The comparison is the same from either side.
pub proof fn law_fingerprints_compare_symmetrically(a: FingerprintView, b: FingerprintView)
    ensures
        a.matches(b) == b.matches(a),
{
}

/// What a git command printed, where it succeeded and printed anything.
pub open spec fn git_answer(output: Option<Seq<char>>) -> Option<Seq<char>> {
    match output {
        Some(s) => if text::trim(s).len() > 0 {
            Some(text::trim(s))
        } else {
            None
        },
        None => None,
    }
}

fn git_answer_of(output: Option<String>) -> (r: Option<String>)
    ensures
        r.deep_view() == git_answer(output.deep_view()),
{
    match output {
        Some(s) => {
            let t = trimmed(s.as_str());
            if t.as_str().is_empty() {
                None
            } else {
                Some(t)
            }
        },
        None => None,
    }
}

/// The fingerprint of a workspace of which git could not say all.
pub open spec fn plain_fingerprint(workspace_path: Seq<char>) -> FingerprintView {
    FingerprintView { commit: None, branch: None, dirty: false, workspace_path }
}

/// The fingerprint of a workspace from what git printed of its commit and its
/// branch, and from how much it printed of what is not committed.
pub open spec fn git_fingerprint(
    workspace_path: Seq<char>,
    head: Option<Seq<char>>,
    branch: Option<Seq<char>>,
    status: Option<nat>,
) -> FingerprintView {
    match (head, branch, status) {
        (Some(head), Some(branch), Some(printed)) => FingerprintView {
            commit: git_answer(Some(head)),
            branch: git_answer(Some(branch)),
            dirty: printed > 0,
            workspace_path,
        },
        _ => plain_fingerprint(workspace_path),
    }
}

/// The fingerprint of a workspace from what git said of it: the output of
/// `rev-parse HEAD`, of `rev-parse --abbrev-ref HEAD` and of
/// `status --porcelain`, each where the command succeeded. Where any of them
/// failed, there is neither commit nor branch, and nothing counts as dirty.
pub fn fingerprint_of(
    workspace_path: String,
    head: Option<String>,
    branch: Option<String>,
    status: Option<Vec<u8>>,
) -> (r: WorkspaceFingerprint)
    ensures
        r.deep_view() == git_fingerprint(
            workspace_path@,
            head.deep_view(),
            branch.deep_view(),
            match status {
                Some(printed) => Some(printed@.len()),
                None => None,
            },
        ),
{
    match (head, branch, status) {
        (Some(head), Some(branch), Some(status)) => WorkspaceFingerprint {
            commit: git_answer_of(Some(head)),
            branch: git_answer_of(Some(branch)),
            dirty: status.len() > 0,
            workspace_path,
        },
        _ => WorkspaceFingerprint { commit: None, branch: None, dirty: false, workspace_path },
    }
}

// ---------------------------------------------------------------------------
// Events
// ---------------------------------------------------------------------------

/// One event in the session's event stream. Each carries a millisecond UNIX
/// timestamp and the index of the turn at the time of the event.
#[derive(Debug, PartialEq)]
pub enum SessionEvent {
    SessionStarted {
        timestamp_ms: u64,
        turn_index: usize,
        workspace: String,
        system_prompt: String,
        policy_name: String,
        fingerprint: Option<WorkspaceFingerprint>,
    },
    UserInput { timestamp_ms: u64, turn_index: usize, text: String },
    AssistantResponse { timestamp_ms: u64, turn_index: usize, text: String },
    ToolExchange {
        timestamp_ms: u64,
        turn_index: usize,
        tool_name: String,
        input: Json,
        result: Json,
    },
    SystemMessage { timestamp_ms: u64, turn_index: usize, text: String },
}

/// What an event says happened.
#[verifier::ext_equal]
pub ghost enum Happening {
    SessionStarted {
        workspace: Seq<char>,
        system_prompt: Seq<char>,
        policy_name: Seq<char>,
        fingerprint: Option<FingerprintView>,
    },
    UserInput { text: Seq<char> },
    AssistantResponse { text: Seq<char> },
    ToolExchange { tool_name: Seq<char>, input: json::JsonView, result: json::JsonView },
    SystemMessage { text: Seq<char> },
}

#[verifier::ext_equal]
pub ghost struct EventView {
    pub timestamp_ms: u64,
    pub turn_index: usize,
    pub what: Happening,
}

impl DeepView for SessionEvent {
    type V = EventView;

    open spec fn deep_view(&self) -> EventView {
        match self {
            SessionEvent::SessionStarted {
                timestamp_ms,
                turn_index,
                workspace,
                system_prompt,
                policy_name,
                fingerprint,
            } => EventView {
                timestamp_ms: *timestamp_ms,
                turn_index: *turn_index,
                what: Happening::SessionStarted {
                    workspace: workspace@,
                    system_prompt: system_prompt@,
                    policy_name: policy_name@,
                    fingerprint: fingerprint.deep_view(),
                },
            },
            SessionEvent::UserInput { timestamp_ms, turn_index, text } => EventView {
                timestamp_ms: *timestamp_ms,
                turn_index: *turn_index,
                what: Happening::UserInput { text: text@ },
            },
            SessionEvent::AssistantResponse { timestamp_ms, turn_index, text } => EventView {
                timestamp_ms: *timestamp_ms,
                turn_index: *turn_index,
                what: Happening::AssistantResponse { text: text@ },
            },
            SessionEvent::ToolExchange { timestamp_ms, turn_index, tool_name, input, result } =>
            EventView {
                timestamp_ms: *timestamp_ms,
                turn_index: *turn_index,
                what: Happening::ToolExchange {
                    tool_name: tool_name@,
                    input: input.deep_view(),
                    result: result.deep_view(),
                },
            },
            SessionEvent::SystemMessage { timestamp_ms, turn_index, text } => EventView {
                timestamp_ms: *timestamp_ms,
                turn_index: *turn_index,
                what: Happening::SystemMessage { text: text@ },
            },
        }
    }
}

impl Clone for SessionEvent {
    fn clone(&self) -> (r: Self)
        ensures
            r.deep_view() == self.deep_view(),
    {
        match self {
            SessionEvent::SessionStarted {
                timestamp_ms,
                turn_index,
                workspace,
                system_prompt,
                policy_name,
                fingerprint,
            } => SessionEvent::SessionStarted {
                timestamp_ms: *timestamp_ms,
                turn_index: *turn_index,
                workspace: workspace.clone(),
                system_prompt: system_prompt.clone(),
                policy_name: policy_name.clone(),
                fingerprint: match fingerprint {
                    Some(f) => Some(f.clone()),
                    None => None,
                },
            },
            SessionEvent::UserInput { timestamp_ms, turn_index, text } => SessionEvent::UserInput {
                timestamp_ms: *timestamp_ms,
                turn_index: *turn_index,
                text: text.clone(),
            },
            SessionEvent::AssistantResponse { timestamp_ms, turn_index, text } =>
            SessionEvent::AssistantResponse {
                timestamp_ms: *timestamp_ms,
                turn_index: *turn_index,
                text: text.clone(),
            },
            SessionEvent::ToolExchange { timestamp_ms, turn_index, tool_name, input, result } =>
            SessionEvent::ToolExchange {
                timestamp_ms: *timestamp_ms,
                turn_index: *turn_index,
                tool_name: tool_name.clone(),
                input: input.clone(),
                result: result.clone(),
            },
            SessionEvent::SystemMessage { timestamp_ms, turn_index, text } =>
            SessionEvent::SystemMessage {
                timestamp_ms: *timestamp_ms,
                turn_index: *turn_index,
                text: text.clone(),
            },
        }
    }
}

// ---------------------------------------------------------------------------
// Sinks
// ---------------------------------------------------------------------------

/// The events that a sink took, in the order in which they came.
pub type EventLog = Seq<EventView>;

/// Append-only sink for session events. Writes are best-effort: a sink whose
/// storage fails still takes every event.
pub trait SessionEventSink {
    /// The session whose events the sink takes.
    spec fn id(&self) -> SessionId;

    /// The events handed to the sink so far.
    spec fn log(&self) -> EventLog;

    fn session_id(&self) -> (r: SessionId)
        ensures
            r == self.id(),
    ;

    /// Takes one more event.
    fn record(&mut self, event: SessionEvent)
        ensures
            final(self).log() == old(self).log().push(event.deep_view()),
    ;
}

/// A sink that keeps nothing.
pub struct NullSink {
    session_id: SessionId,
    taken: Ghost<Seq<EventView>>,
}

impl NullSink {
    pub fn new(session_id: SessionId) -> (r: Self)
        ensures
            r.id() == session_id,
            r.log() == Seq::<EventView>::empty(),
    {
        NullSink { session_id, taken: Ghost(Seq::empty()) }
    }
}

impl Default for NullSink {
    fn default() -> (r: Self)
        ensures
            r.id() == SessionId(0),
            r.log() == Seq::<EventView>::empty(),
    {
        NullSink::new(SessionId(0))
    }
}

impl SessionEventSink for NullSink {
    closed spec fn id(&self) -> SessionId {
        self.session_id
    }

    closed spec fn log(&self) -> EventLog {
        self.taken@
    }

    fn session_id(&self) -> (r: SessionId) {
        self.session_id
    }

    fn record(&mut self, event: SessionEvent) {
        self.taken = Ghost(self.taken@.push(event.deep_view()));
    }
}

/// A sink that hands every event to two others.
pub struct TeeSink<A: SessionEventSink, B: SessionEventSink> {
    pub primary: A,
    pub secondary: B,
}

impl<A: SessionEventSink, B: SessionEventSink> TeeSink<A, B> {
    pub fn new(primary: A, secondary: B) -> (r: Self)
        ensures
            r.primary == primary,
            r.secondary == secondary,
    {
        TeeSink { primary, secondary }
    }
}

impl<A: SessionEventSink, B: SessionEventSink> SessionEventSink for TeeSink<A, B> {
    open spec fn id(&self) -> SessionId {
        self.primary.id()
    }

    open spec fn log(&self) -> EventLog {
        self.primary.log()
    }

    fn session_id(&self) -> (r: SessionId) {
        self.primary.session_id()
    }

    fn record(&mut self, event: SessionEvent)
        ensures
            final(self).primary.log() == old(self).primary.log().push(event.deep_view()),
            final(self).secondary.log() == old(self).secondary.log().push(event.deep_view()),
    {
        self.primary.record(event.clone());
        self.secondary.record(event);
    }
}

/// Where the events of a session are posted: an HTTP endpoint, taken apart.
pub struct HttpSink {
    session_id: SessionId,
    host: String,
    port: u16,
    path: String,
    bearer_token: Option<String>,
    failed_writes: u64,
}

/// An HTTP endpoint.
#[verifier::ext_equal]
pub ghost struct Endpoint {
    pub host: Seq<char>,
    pub port: int,
    pub path: Seq<char>,
}

/// The endpoint that a URL names, or what is wrong with it. A URL is `http://`,
/// a host, a colon and a port where it is not 80, and a path where it is not
/// `/`.
pub open spec fn parse_endpoint(url: Seq<char>) -> Result<Endpoint, Seq<char>> {
    if !text::begins_with(url, "http://"@) {
        Err("HttpSink only accepts http:// URLs, got "@ + url)
    } else {
        let rest = url.skip("http://"@.len() as int);
        let slash = text::next_char(rest, '/', 0);
        let host_port = rest.take(slash);
        let path = if slash < rest.len() {
            rest.skip(slash)
        } else {
            "/"@
        };
        let colon = text::last_char(host_port, ':');
        if colon >= 0 && text::port_number(host_port.skip(colon + 1)) is None {
            Err("invalid port in URL: "@ + url)
        } else {
            let host = if colon >= 0 {
                host_port.take(colon)
            } else {
                host_port
            };
            let port = if colon >= 0 {
                text::port_number(host_port.skip(colon + 1))->0
            } else {
                80
            };
            if host.len() == 0 {
                Err("empty host in URL: "@ + url)
            } else {
                Ok(Endpoint { host, port, path })
            }
        }
    }
}

impl Endpoint {
    /// The URL of the endpoint, with its port and path written out.
    pub open spec fn url(self) -> Seq<char> {
        "http://"@ + self.host + ":"@ + text::decimal(self.port as nat) + self.path
    }
}

impl HttpSink {
    pub closed spec fn target(&self) -> Endpoint {
        Endpoint { host: self.host@, port: self.port as int, path: self.path@ }
    }

    pub closed spec fn session(&self) -> SessionId {
        self.session_id
    }

    pub closed spec fn token(&self) -> Option<Seq<char>> {
        self.bearer_token.deep_view()
    }

    pub closed spec fn failures(&self) -> u64 {
        self.failed_writes
    }

    /// The sink that posts to `endpoint_url`, with a bearer token if there is
    /// one.
    pub fn new(session_id: SessionId, endpoint_url: &str, bearer_token: Option<String>) -> (r:
        Result<Self, String>)
        ensures
            match r {
                Ok(sink) => parse_endpoint(endpoint_url@) == Ok::<Endpoint, Seq<char>>(
                    sink.target(),
                ) && sink.session() == session_id && sink.token() == bearer_token.deep_view()
                    && sink.failures() == 0,
                Err(e) => parse_endpoint(endpoint_url@) == Err::<Endpoint, Seq<char>>(e@),
            },
    {
        let scheme = "http://";
        if !starts_with(endpoint_url, scheme) {
            let mut e = "HttpSink only accepts http:// URLs, got ".to_owned();
            e.push_str(endpoint_url);
            return Err(e);
        }
        let n: usize = scheme.unicode_len();
        let v = chars_of(endpoint_url);
        let rest_text = string_of(&v, n, v.len());
        let rest = chars_of(rest_text.as_str());
        assert(rest@ =~= endpoint_url@.skip("http://"@.len() as int));
        let slash: usize = next_char_at(&rest, '/', 0);
        let path = if slash < rest.len() {
            string_of(&rest, slash, rest.len())
        } else {
            "/".to_owned()
        };
        assert(slash < rest@.len() ==> path@ =~= rest@.skip(slash as int));
        let ghost host_port = rest@.take(slash as int);
        let (host, port): (String, u16) = match last_char_at(&rest, ':', slash) {
            Some(colon) => {
                let port_text = string_of(&rest, colon + 1, slash);
                assert(port_text@ =~= host_port.skip(colon + 1));
                match parse_port(port_text.as_str()) {
                    Some(port) => {
                        let host = string_of(&rest, 0, colon);
                        assert(host@ =~= host_port.take(colon as int));
                        (host, port)
                    },
                    None => {
                        let mut e = "invalid port in URL: ".to_owned();
                        e.push_str(endpoint_url);
                        return Err(e);
                    },
                }
            },
            None => {
                let host = string_of(&rest, 0, slash);
                assert(host@ =~= host_port);
                (host, 80)
            },
        };
        if host.as_str().is_empty() {
            let mut e = "empty host in URL: ".to_owned();
            e.push_str(endpoint_url);
            return Err(e);
        }
        Ok(HttpSink { session_id, host, port, path, bearer_token, failed_writes: 0 })
    }

    /// How many events could not be posted.
    pub fn failed_writes(&self) -> (r: u64)
        ensures
            r == self.failures(),
    {
        self.failed_writes
    }

    /// The URL of the endpoint.
    pub fn endpoint(&self) -> (r: String)
        ensures
            r@ == self.target().url(),
    {
        let mut r = "http://".to_owned();
        r.push_str(self.host.as_str());
        r.push_str(":");
        r.push_str(decimal_of(self.port as u64).as_str());
        r.push_str(self.path.as_str());
        r
    }

    /// The host to connect to.
    pub fn host(&self) -> (r: &str)
        ensures
            r@ == self.target().host,
    {
        self.host.as_str()
    }

    /// The port to connect to.
    pub fn port(&self) -> (r: u16)
        ensures
            r == self.target().port,
    {
        self.port
    }

    /// The HTTP request that posts `body`.
    pub fn request(&self, body: &str) -> (r: String)
        ensures
            r@ == post_request(self.target(), self.token(), body@),
    {
        let mut r = "POST ".to_owned();
        r.push_str(self.path.as_str());
        r.push_str(" HTTP/1.1\r\nHost: ");
        r.push_str(self.host.as_str());
        r.push_str(":");
        r.push_str(decimal_of(self.port as u64).as_str());
        r.push_str("\r\nContent-Type: application/json\r\nContent-Length: ");
        r.push_str(decimal_of(byte_len_of(body) as u64).as_str());
        r.push_str("\r\n");
        match &self.bearer_token {
            Some(t) => {
                r.push_str("Authorization: Bearer ");
                r.push_str(t.as_str());
                r.push_str("\r\n");
            },
            None => {},
        }
        r.push_str("Connection: close\r\n\r\n");
        r.push_str(body);
        r
    }

    /// Notes that an event could not be posted.
    pub fn note_failure(&mut self)
        ensures
            final(self).failures() == if old(self).failures() == u64::MAX {
                u64::MAX
            } else {
                (old(self).failures() + 1) as u64
            },
            final(self).target() == old(self).target(),
            final(self).token() == old(self).token(),
            final(self).session() == old(self).session(),
    {
        self.failed_writes = self.failed_writes.saturating_add(1);
    }

    /// Notes whether an event was posted.
    pub fn note_outcome(&mut self, posted: bool)
        ensures
            noted(*old(self), posted, *final(self)),
    {
        if !posted {
            self.note_failure();
        }
    }
}

/// Whether `after` is the sink `before` once one more event was posted, or was
/// not: the target stays, and a failure is counted.
pub open spec fn noted(before: HttpSink, posted: bool, after: HttpSink) -> bool {
    &&& after.failures() == (if posted || before.failures() == u64::MAX {
        before.failures()
    } else {
        (before.failures() + 1) as u64
    })
    &&& after.target() == before.target()
    &&& after.token() == before.token()
    &&& after.session() == before.session()
}

/// How many of some events were not posted.
pub open spec fn failed_count(posted: Seq<bool>) -> nat
    decreases posted.len(),
{
    if posted.len() == 0 {
        0
    } else {
        failed_count(posted.drop_last()) + if posted.last() {
            0nat
        } else {
            1nat
        }
    }
}

/// A new sink that was handed some events counts exactly those that were not
/// posted, as far as the counter goes, and posts to the same endpoint as before.
pub proof fn law_failed_writes_are_counted(sinks: Seq<HttpSink>, posted: Seq<bool>)
    requires
        sinks.len() == posted.len() + 1,
        sinks[0].failures() == 0,
        forall|i: int|
            0 <= i < posted.len() ==> noted(#[trigger] sinks[i], posted[i], sinks[i + 1]),
    ensures
        failed_count(posted) <= posted.len(),
        failed_count(posted) <= u64::MAX ==> sinks.last().failures() == failed_count(posted),
        failed_count(posted) > u64::MAX ==> sinks.last().failures() == u64::MAX,
        sinks.last().target() == sinks[0].target(),
    decreases posted.len(),
{
    if posted.len() > 0 {
        let n = posted.len() - 1;
        assert forall|i: int| 0 <= i < n implies noted(
            #[trigger] sinks.drop_last()[i],
            posted.drop_last()[i],
            sinks.drop_last()[i + 1],
        ) by {
            assert(noted(sinks[i], posted[i], sinks[i + 1]));
        }
        law_failed_writes_are_counted(sinks.drop_last(), posted.drop_last());
        assert(noted(sinks[n], posted[n], sinks[n + 1]));
    }
}

/// The HTTP request that posts a JSON body to an endpoint.
pub open spec fn post_request(target: Endpoint, token: Option<Seq<char>>, body: Seq<char>) -> Seq<
    char,
> {
    let head = "POST "@ + target.path + " HTTP/1.1\r\nHost: "@ + target.host + ":"@ + text::decimal(
        target.port as nat,
    ) + "\r\nContent-Type: application/json\r\nContent-Length: "@ + text::decimal(
        text::byte_len(body),
    ) + "\r\n"@;
    let auth = match token {
        Some(t) => head + "Authorization: Bearer "@ + t + "\r\n"@,
        None => head,
    };
    auth + "Connection: close\r\n\r\n"@ + body
}

/// The URL of a parsed endpoint names that endpoint again.
pub proof fn law_endpoint_url_parses_back(url: Seq<char>, target: Endpoint)
    requires
        parse_endpoint(url) == Ok::<Endpoint, Seq<char>>(target),
    ensures
        parse_endpoint(target.url()) == Ok::<Endpoint, Seq<char>>(target),
{
    reveal_strlit("http://");
    reveal_strlit(":");
    reveal_strlit("/");
    let rest0 = url.skip("http://"@.len() as int);
    let slash0 = text::next_char(rest0, '/', 0);
    text::lemma_next_char(rest0, '/', 0);
    let colon0 = text::last_char(rest0.take(slash0), ':');
    if colon0 >= 0 {
        let given = rest0.take(slash0).skip(colon0 + 1);
        let digits = if given.len() > 0 && given[0] == '+' {
            given.drop_first()
        } else {
            given
        };
        text::lemma_digits_grow(digits, 0);
        assert(digits.take(0) =~= Seq::<char>::empty());
    }
    assert(0 <= target.port <= 65535);
    let port_text = text::decimal(target.port as nat);
    text::lemma_decimal(target.port as nat);
    let host_port = target.host + ":"@ + port_text;
    let again = target.url();
    let rest = again.skip("http://"@.len() as int);
    assert(again.subrange(0, "http://"@.len() as int) =~= "http://"@);
    assert(rest =~= host_port + target.path);
    let host_port0 = rest0.take(slash0);
    lemma_last_char_free(host_port0, ':');
    assert(forall|i: int| 0 <= i < target.host.len() ==> target.host[i] == rest0[i]);
    assert forall|i: int| 0 <= i < host_port.len() implies rest[i] != '/' by {
        if i < target.host.len() {
            assert(rest[i] == rest0[i]);
        } else if i == target.host.len() {
        } else {
            assert(text::is_digit(port_text[i - target.host.len() - 1]));
        }
    }
    assert(target.path[0] == '/');
    text::lemma_next_char_is(rest, '/', 0, host_port.len() as int);
    assert(rest.take(host_port.len() as int) =~= host_port);
    assert(rest.skip(host_port.len() as int) =~= target.path);
    lemma_last_char_is(host_port, ':', target.host.len() as int);
    assert(host_port.skip(target.host.len() as int + 1) =~= port_text);
    assert(host_port.take(target.host.len() as int) =~= target.host);
    assert(text::is_digit(port_text[0]));
    assert(text::port_number(port_text) == Some(target.port));
}

proof fn lemma_last_char_is(s: Seq<char>, c: char, at: int)
    requires
        0 <= at < s.len(),
        s[at] == c,
        forall|i: int| at < i < s.len() ==> s[i] != c,
    ensures
        text::last_char(s, c) == at,
    decreases s.len(),
{
    if at < s.len() - 1 {
        lemma_last_char_is(s.drop_last(), c, at);
    }
}

proof fn lemma_last_char_free(s: Seq<char>, c: char)
    ensures
        -1 <= text::last_char(s, c) < s.len(),
    decreases s.len(),
{
    if s.len() > 0 {
        lemma_last_char_free(s.drop_last(), c);
    }
}

// ---------------------------------------------------------------------------
// Files
// ---------------------------------------------------------------------------

/// The file that holds the events of a session, below the kernel's own
/// directory where one is set, else below the user's home, else below the
/// current directory.
pub open spec fn events_path(
    session_id: SessionId,
    kernel_home: Option<Seq<char>>,
    home: Option<Seq<char>>,
) -> Seq<char> {
    let base = match kernel_home {
        Some(dir) => dir,
        None => match home {
            Some(dir) => paths::join(dir, ".agent-kernel"@),
            None => ".agent-kernel"@,
        },
    };
    paths::join(
        paths::join(paths::join(base, "sessions"@), text::decimal(session_id.0 as nat)),
        "events.jsonl"@,
    )
}

/// The file that holds the events of a session, given the values of
/// `AGENT_KERNEL_HOME` and `HOME` where they are set.
pub fn default_events_path(
    session_id: SessionId,
    kernel_home: Option<String>,
    home: Option<String>,
) -> (r: String)
    ensures
        r@ == events_path(session_id, kernel_home.deep_view(), home.deep_view()),
{
    let base: String = match kernel_home {
        Some(dir) => dir,
        None => match home {
            Some(dir) => paths::joined(dir.as_str(), ".agent-kernel"),
            None => ".agent-kernel".to_owned(),
        },
    };
    let sessions = paths::joined(base.as_str(), "sessions");
    let own = paths::joined(sessions.as_str(), decimal_of(session_id.0).as_str());
    paths::joined(own.as_str(), "events.jsonl")
}

/// `std::time::SystemTime`, a point of time on the system clock.
#[verifier::external_type_specification]
#[verifier::external_body]
pub struct ExSystemTime(std::time::SystemTime);

/// `SystemTime::now`. Nothing is claimed of the time.
#[verifier::external_body]
fn system_now() -> (r: std::time::SystemTime) {
    std::time::SystemTime::now()
}

/// `SystemTime::duration_since` the UNIX epoch; there is none where the clock
/// stands before it. Nothing is claimed of the time.
#[verifier::external_body]
fn since_epoch(time: &std::time::SystemTime) -> (r: Option<std::time::Duration>) {
    time.duration_since(std::time::UNIX_EPOCH).ok()
}

/// `Duration::as_millis`. Nothing is claimed of the time.
#[verifier::external_body]
fn millis_of(d: &std::time::Duration) -> (r: u128) {
    d.as_millis()
}

/// The timestamp for a reading of the clock: the lowest 64 bits of the
/// milliseconds since the UNIX epoch, or 0 where the clock stands before it.
pub fn millis_at(since_epoch: Option<u128>) -> (r: u64)
    ensures
        r as int == (match since_epoch {
            Some(millis) => millis as int % 0x1_0000_0000_0000_0000,
            None => 0,
        }),
{
    match since_epoch {
        Some(millis) => {
            let low: u128 = millis % 0x1_0000_0000_0000_0000;
            low as u64
        },
        None => 0,
    }
}

/// The milliseconds since the UNIX epoch, by the system clock. What is returned
/// for each reading of the clock, `millis_at` says; nothing is claimed of the
/// reading.
pub fn now_millis() -> (r: u64) {
    let reading: Option<u128> = match since_epoch(&system_now()) {
        Some(d) => Some(millis_of(&d)),
        None => None,
    };
    millis_at(reading)
}

// ---------------------------------------------------------------------------
// Laws
// ---------------------------------------------------------------------------

/// Two workspaces are the same where they are at one commit and nothing is
/// uncommitted in either; uncommitted changes on either side are told, other
/// commits are told apart, and without git nothing is known.
pub proof fn law_how_fingerprints_compare(a: FingerprintView, b: FingerprintView)
    ensures
        a.matches(b) == FingerprintMatch::Unknown <==> a.commit is None || b.commit is None,
        a.commit is Some && b.commit is Some ==> (a.matches(b) == FingerprintMatch::CommitMismatch
            <==> a.commit->0 != b.commit->0),
        a.matches(b) == FingerprintMatch::Identical <==> a.commit is Some && a.commit == b.commit
            && !a.dirty && !b.dirty,
        a.commit is Some && a.commit == b.commit && (a.dirty || b.dirty) ==> a.matches(b)
            == FingerprintMatch::SameCommitDirty,
{
}

/// What git printed counts without the white space around it, and blank output is
/// none. Where git could not say all, the path is all that is known.
pub proof fn law_what_git_said(s: Seq<char>, path: Seq<char>)
    ensures
        git_answer(Some(s)) is Some <==> text::trim(s).len() > 0,
        git_answer(Some(s)) matches Some(t) ==> t == text::trim(s),
        git_answer(None) is None,
        plain_fingerprint(path).commit is None,
        plain_fingerprint(path).branch is None,
        !plain_fingerprint(path).dirty,
        plain_fingerprint(path).workspace_path == path,
{
}

/// A URL names the host, port and path that it is made of. Without a port it is
/// that of HTTP, and without a path the root.
pub proof fn law_urls_name_their_parts(host: Seq<char>, port: nat, path: Seq<char>)
    requires
        host.len() > 0,
        forall|i: int| 0 <= i < host.len() ==> host[i] != '/' && host[i] != ':',
        port <= 65535,
        path.len() > 0,
        path[0] == '/',
    ensures
        parse_endpoint("http://"@ + host + ":"@ + text::decimal(port) + path) == Ok::<
            Endpoint,
            Seq<char>,
        >(Endpoint { host, port: port as int, path }),
        parse_endpoint("http://"@ + host + path) == Ok::<Endpoint, Seq<char>>(
            Endpoint { host, port: 80, path },
        ),
        parse_endpoint("http://"@ + host) == Ok::<Endpoint, Seq<char>>(
            Endpoint { host, port: 80, path: seq!['/'] },
        ),
{
    let scheme = "http://"@;
    reveal_strlit("/");
    assert("/"@ =~= seq!['/']);
    // Without a path.
    let bare = scheme + host;
    assert(bare.subrange(0, scheme.len() as int) =~= scheme);
    assert(bare.skip(scheme.len() as int) =~= host);
    text::lemma_next_char(host, '/', 0);
    assert(host.take(host.len() as int) =~= host);
    lemma_no_last_char(host, ':');
    // Without a port.
    let plain = scheme + host + path;
    let rest = host + path;
    assert(plain.subrange(0, scheme.len() as int) =~= scheme);
    assert(plain.skip(scheme.len() as int) =~= rest);
    text::lemma_next_char_is(rest, '/', 0, host.len() as int);
    assert(rest.take(host.len() as int) =~= host);
    assert(rest.skip(host.len() as int) =~= path);
    // With both.
    let digits = text::decimal(port);
    let full = scheme + host + ":"@ + digits + path;
    let named = host + ":"@ + digits;
    reveal_strlit(":");
    assert(":"@.len() == 1 && ":"@[0] == ':');
    text::lemma_decimal(port);
    assert(full.subrange(0, scheme.len() as int) =~= scheme);
    assert(full.skip(scheme.len() as int) =~= named + path);
    assert forall|i: int| 0 <= i < named.len() implies (named + path)[i] != '/' by {
        if i > host.len() {
            assert((named + path)[i] == digits[i - host.len() - 1]);
            assert(text::is_digit(digits[i - host.len() - 1]));
        }
    }
    text::lemma_next_char_is(named + path, '/', 0, named.len() as int);
    assert((named + path).take(named.len() as int) =~= named);
    assert((named + path).skip(named.len() as int) =~= path);
    assert forall|i: int| host.len() < i < named.len() implies named[i] != ':' by {
        assert(named[i] == digits[i - host.len() - 1]);
        assert(text::is_digit(digits[i - host.len() - 1]));
    }
    assert(named[host.len() as int] == ':');
    lemma_last_char_is(named, ':', host.len() as int);
    assert(named.skip(host.len() as int + 1) =~= digits);
    assert(named.take(host.len() as int) =~= host);
    assert(text::is_digit(digits[0]));
}

proof fn lemma_no_last_char(s: Seq<char>, c: char)
    requires
        forall|i: int| 0 <= i < s.len() ==> s[i] != c,
    ensures
        text::last_char(s, c) == -1,
    decreases s.len(),
{
    if s.len() > 0 {
        lemma_no_last_char(s.drop_last(), c);
    }
}

/// A URL that is not for HTTP is refused.
pub proof fn law_other_urls_are_refused(url: Seq<char>)
    requires
        !text::begins_with(url, "http://"@),
    ensures
        parse_endpoint(url) == Err::<Endpoint, Seq<char>>(
            "HttpSink only accepts http:// URLs, got "@ + url,
        ),
{
}

/// A request posts the body as it is, behind an empty line, says how many bytes it
/// has, goes to the path and host of the endpoint, and carries the token where
/// there is one.
pub proof fn law_requests_post_the_body(
    target: Endpoint,
    token: Option<Seq<char>>,
    body: Seq<char>,
)
    ensures
        ({
            let request = post_request(target, token, body);
            let host = target.host + ":"@ + text::decimal(target.port as nat);
            &&& text::begins_with(request, "POST "@ + target.path + " HTTP/1.1\r\n"@)
            &&& text::contains_text(request, "\r\nHost: "@ + host + "\r\n"@)
            &&& text::contains_text(
                request,
                "Content-Length: "@ + text::decimal(text::byte_len(body)) + "\r\n"@,
            )
            &&& token matches Some(t) ==> text::contains_text(
                request,
                "Authorization: Bearer "@ + t + "\r\n"@,
            )
            &&& request.len() >= body.len() + 4
            &&& request.skip(request.len() - body.len()) == body
            &&& request.subrange(
                request.len() - body.len() - 4,
                request.len() - body.len(),
            ) == seq!['\r', '\n', '\r', '\n']
        }),
{
    let request = post_request(target, token, body);
    let host = target.host + ":"@ + text::decimal(target.port as nat);
    let size = text::decimal(text::byte_len(body));
    reveal_strlit(" HTTP/1.1\r\nHost: ");
    reveal_strlit(" HTTP/1.1\r\n");
    reveal_strlit("\r\nHost: ");
    reveal_strlit("\r\n");
    reveal_strlit("\r\nContent-Type: application/json\r\nContent-Length: ");
    reveal_strlit("Content-Length: ");
    reveal_strlit("Connection: close\r\n\r\n");
    let verb = "POST "@ + target.path;
    let line = verb + " HTTP/1.1\r\n"@;
    let kind = "\r\nContent-Type: application/json\r\n"@;
    reveal_strlit("\r\nContent-Type: application/json\r\n");
    assert(" HTTP/1.1\r\nHost: "@ =~= " HTTP/1.1"@ + "\r\nHost: "@) by {
        reveal_strlit(" HTTP/1.1");
    }
    assert(" HTTP/1.1\r\n"@ =~= " HTTP/1.1"@ + "\r\n"@) by {
        reveal_strlit(" HTTP/1.1");
    }
    assert("\r\nContent-Type: application/json\r\nContent-Length: "@ =~= kind
        + "Content-Length: "@);
    let end = "Connection: close\r\n\r\n"@ + body;
    let auth: Seq<char> = match token {
        Some(t) => "Authorization: Bearer "@ + t + "\r\n"@,
        None => Seq::empty(),
    };
    let length = "Content-Length: "@ + size + "\r\n"@;
    let hosted = "\r\nHost: "@ + host;
    let head = verb + " HTTP/1.1"@ + hosted + kind + length;
    assert(request =~= head + auth + end);
    assert(request.subrange(0, line.len() as int) =~= line) by {
        reveal_strlit(" HTTP/1.1");
    }
    text::lemma_contained_between(verb + " HTTP/1.1"@ + hosted + kind, length, auth + end);
    assert(request =~= verb + " HTTP/1.1"@ + hosted + kind + length + (auth + end));
    let told = hosted + "\r\n"@;
    let behind = "Content-Type: application/json\r\n"@ + length + auth + end;
    reveal_strlit("Content-Type: application/json\r\n");
    assert(kind =~= "\r\n"@ + "Content-Type: application/json\r\n"@);
    text::lemma_contained_between(verb + " HTTP/1.1"@, told, behind);
    assert(request =~= verb + " HTTP/1.1"@ + told + behind);
    if let Some(t) = token {
        text::lemma_contained_between(head, auth, end);
    }
    assert(request.skip(request.len() - body.len()) =~= body);
    assert(request.subrange(request.len() - body.len() - 4, request.len() - body.len()) =~= seq![
        '\r',
        '\n',
        '\r',
        '\n',
    ]);
}

/// The events of two sessions stand in two files, below the directory that is set.
pub proof fn law_sessions_have_files_of_their_own(
    a: SessionId,
    b: SessionId,
    home: Option<Seq<char>>,
    user: Option<Seq<char>>,
)
    ensures
        events_path(a, home, user) == events_path(b, home, user) ==> a == b,
        home matches Some(dir) ==> text::begins_with(events_path(a, home, user), dir),
        home is None && user is Some ==> text::begins_with(
            events_path(a, home, user),
            paths::join(user->0, ".agent-kernel"@),
        ),
        home is None && user is None ==> text::begins_with(
            events_path(a, home, user),
            ".agent-kernel"@,
        ),
{
    let base = match home {
        Some(dir) => dir,
        None => match user {
            Some(dir) => paths::join(dir, ".agent-kernel"@),
            None => ".agent-kernel"@,
        },
    };
    reveal_strlit("sessions");
    reveal_strlit("events.jsonl");
    reveal_strlit("/");
    let dir = paths::join(base, "sessions"@);
    let x = text::decimal(a.0 as nat);
    let y = text::decimal(b.0 as nat);
    text::lemma_decimal(a.0 as nat);
    text::lemma_decimal(b.0 as nat);
    assert(text::is_digit(x[0]) && text::is_digit(x.last()));
    assert(text::is_digit(y[0]) && text::is_digit(y.last()));
    assert(dir.last() == "sessions"@.last());
    let p = paths::join(dir, x);
    let q = paths::join(dir, y);
    assert(p == dir + "/"@ + x);
    assert(q == dir + "/"@ + y);
    let s = paths::join(p, "events.jsonl"@);
    let t = paths::join(q, "events.jsonl"@);
    assert(s == p + "/"@ + "events.jsonl"@);
    assert(t == q + "/"@ + "events.jsonl"@);
    if s == t {
        assert(s.len() == p.len() + 1 + "events.jsonl"@.len());
        assert(t.len() == q.len() + 1 + "events.jsonl"@.len());
        assert(s.take(p.len() as int) =~= p);
        assert(t.take(q.len() as int) =~= q);
        assert(p.skip(dir.len() as int + 1) =~= x);
        assert(q.skip(dir.len() as int + 1) =~= y);
    }
    assert(s.subrange(0, base.len() as int) =~= base);
}

/// A workspace is at the commit and on the branch that git printed, and has
/// uncommitted changes where git printed any; where git could not say all of it,
/// nothing of it counts.
pub proof fn law_fingerprints_tell_what_git_said(
    path: Seq<char>,
    head: Seq<char>,
    branch: Seq<char>,
    printed: nat,
)
    requires
        text::trim(head).len() > 0,
        text::trim(branch).len() > 0,
    ensures
        ({
            let f = git_fingerprint(path, Some(head), Some(branch), Some(printed));
            &&& f.commit == Some(text::trim(head))
            &&& f.branch == Some(text::trim(branch))
            &&& f.dirty <==> printed > 0
            &&& f.workspace_path == path
        }),
        git_fingerprint(path, None, Some(branch), Some(printed)) == plain_fingerprint(path),
        git_fingerprint(path, Some(head), None, Some(printed)) == plain_fingerprint(path),
        git_fingerprint(path, Some(head), Some(branch), None) == plain_fingerprint(path),
{
}

} // verus!
