//! The vocabulary of the kernel: identifiers, capabilities, messages and
//! budgets.

use crate::json;
use crate::json::Json;
use crate::text;
use crate::text::{copy_texts, same, starts_with};
use vstd::prelude::*;
use vstd::string::*;

verus! {

/// Unique identifier for a session.
#[derive(Debug, Clone, Copy, PartialEq, Eq, Structural, Hash)]
pub struct SessionId(pub u64);

/// Unique identifier for a turn within a session.
#[derive(Debug, Clone, Copy, PartialEq, Eq, Structural, Hash)]
pub struct TurnId(pub u64);

// ---------------------------------------------------------------------------
// Capabilities
// ---------------------------------------------------------------------------

/// A system resource that a tool touches, such as `fs:read`, `shell:exec` or
/// `net:api.github.com`.
#[derive(Debug, PartialEq, Eq, Hash)]
pub struct Capability(pub String);

impl DeepView for Capability {
    type V = Seq<char>;

    open spec fn deep_view(&self) -> Seq<char> {
        self.0@
    }
}

impl Clone for Capability {
    fn clone(&self) -> (r: Self)
        ensures
            r.deep_view() == self.deep_view(),
    {
        Capability(self.0.clone())
    }
}

/// Whether the capability `cap` falls under `pattern`: a pattern that ends in
/// `:*` takes every capability that begins with what stands before the `*`,
/// any other pattern takes itself alone.
pub open spec fn capability_matches(cap: Seq<char>, pattern: Seq<char>) -> bool {
    if is_wildcard(pattern) {
        text::begins_with(cap, pattern.drop_last())
    } else {
        cap == pattern
    }
}

/// Whether `pattern` ends in `:*`.
pub open spec fn is_wildcard(pattern: Seq<char>) -> bool {
    pattern.len() >= 2 && pattern[pattern.len() - 2] == ':' && pattern.last() == '*'
}

impl Capability {
    pub fn new(s: &str) -> (r: Self)
        ensures
            r.deep_view() == s@,
    {
        Capability(s.to_owned())
    }

    /// Whether this capability falls under `pattern`.
    pub fn matches(&self, pattern: &Capability) -> (r: bool)
        ensures
            r == capability_matches(self.deep_view(), pattern.deep_view()),
    {
        let p: &str = pattern.0.as_str();
        let n: usize = p.unicode_len();
        if n >= 2 && p.get_char(n - 2) == ':' && p.get_char(n - 1) == '*' {
            let prefix = p.substring_char(0, n - 1);
            assert(prefix@ =~= p@.drop_last());
            starts_with(self.0.as_str(), prefix)
        } else {
            same(self.0.as_str(), p)
        }
    }
}

/// The capabilities that a tool declares; none occurs twice.
#[derive(Debug)]
pub struct CapabilitySet {
    caps: Vec<Capability>,
}

impl CapabilitySet {
    /// The capabilities in the order in which they were declared.
    pub closed spec fn list(&self) -> Seq<Seq<char>> {
        self.caps.deep_view()
    }

    #[verifier::type_invariant]
    spec fn inv(self) -> bool {
        self.caps.deep_view().no_duplicates()
    }

    /// The set without capabilities.
    pub fn new() -> (r: Self)
        ensures
            r.list() == Seq::<Seq<char>>::empty(),
    {
        let caps: Vec<Capability> = Vec::new();
        assert(caps.deep_view() =~= Seq::<Seq<char>>::empty());
        CapabilitySet { caps }
    }

    /// The set with the one capability `cap`.
    pub fn of(cap: &str) -> (r: Self)
        ensures
            r.list() == seq![cap@],
    {
        let mut caps: Vec<Capability> = Vec::new();
        caps.push(Capability::new(cap));
        assert(caps.deep_view() =~= seq![cap@]);
        CapabilitySet { caps }
    }

    /// Whether `cap` is in the set.
    pub fn contains(&self, cap: &str) -> (r: bool)
        ensures
            r == self.list().contains(cap@),
    {
        let mut i: usize = 0;
        while i < self.caps.len()
            invariant
                i <= self.caps@.len(),
                forall|k: int| 0 <= k < i ==> self.list()[k] != cap@,
            decreases self.caps@.len() - i,
        {
            if same(self.caps[i].0.as_str(), cap) {
                assert(self.list()[i as int] == cap@);
                return true;
            }
            i += 1;
        }
        false
    }

    /// The set with `cap` in it.
    pub fn and(self, cap: &str) -> (r: Self)
        ensures
            r.list() == if self.list().contains(cap@) {
                self.list()
            } else {
                self.list().push(cap@)
            },
    {
        proof {
            use_type_invariant(&self);
        }
        if self.contains(cap) {
            self
        } else {
            let ghost before = self.list();
            let mut caps = self.caps;
            caps.push(Capability::new(cap));
            proof {
                assert(caps.deep_view() =~= before.push(cap@));
            }
            CapabilitySet { caps }
        }
    }

    /// The number of capabilities, no two of which are the same.
    pub fn len(&self) -> (n: usize)
        ensures
            n == self.list().len(),
            self.list().no_duplicates(),
    {
        proof {
            use_type_invariant(self);
        }
        self.caps.len()
    }

    /// The capability at position `i`.
    pub fn at(&self, i: usize) -> (c: &Capability)
        requires
            i < self.list().len(),
        ensures
            c.deep_view() == self.list()[i as int],
    {
        &self.caps[i]
    }

    /// The capabilities as texts.
    pub fn texts(&self) -> (r: Vec<String>)
        ensures
            r.deep_view() == self.list(),
    {
        let mut r: Vec<String> = Vec::new();
        let mut i: usize = 0;
        assert(r.deep_view() =~= self.list().take(0));
        while i < self.caps.len()
            invariant
                i <= self.caps@.len() == self.list().len(),
                r.deep_view() == self.list().take(i as int),
            decreases self.caps@.len() - i,
        {
            let ghost before = r.deep_view();
            r.push(self.caps[i].0.clone());
            assert(r.deep_view() =~= before.push(self.list()[i as int]));
            assert(self.list().take(i + 1) =~= before.push(self.list()[i as int]));
            i += 1;
        }
        assert(self.list().take(i as int) =~= self.list());
        r
    }
}

impl Clone for CapabilitySet {
    fn clone(&self) -> (r: Self)
        ensures
            r.list() == self.list(),
    {
        proof {
            use_type_invariant(self);
        }
        let texts = self.texts();
        let mut caps: Vec<Capability> = Vec::new();
        let mut i: usize = 0;
        assert(caps.deep_view() =~= texts.deep_view().take(0));
        while i < texts.len()
            invariant
                i <= texts@.len() == texts.deep_view().len(),
                caps.deep_view() == texts.deep_view().take(i as int),
            decreases texts@.len() - i,
        {
            let ghost before = caps.deep_view();
            caps.push(Capability::new(texts[i].as_str()));
            assert(caps.deep_view() =~= before.push(texts.deep_view()[i as int]));
            assert(texts.deep_view().take(i + 1) =~= before.push(texts.deep_view()[i as int]));
            i += 1;
        }
        assert(texts.deep_view().take(i as int) =~= self.list());
        CapabilitySet { caps }
    }
}

/// Token count estimate.
#[derive(Debug, Clone, Copy, PartialEq, Eq, Structural)]
pub struct TokenEstimate(pub usize);

/// What makes a tool a candidate for being brought into context.
#[derive(Debug)]
pub struct RelevanceSignal {
    /// Words in the model's output or the user's input that point to the tool.
    pub keywords: Vec<String>,
    /// Free-form tags for categorization.
    pub tags: Vec<String>,
}

impl Clone for RelevanceSignal {
    fn clone(&self) -> (r: Self)
        ensures
            r.keywords.deep_view() == self.keywords.deep_view(),
            r.tags.deep_view() == self.tags.deep_view(),
    {
        RelevanceSignal { keywords: copy_texts(&self.keywords), tags: copy_texts(&self.tags) }
    }
}

// ---------------------------------------------------------------------------
// Invalidations and decisions
// ---------------------------------------------------------------------------

/// What the run of a tool made stale in the kernel's cached state.
#[derive(Debug)]
pub enum Invalidation {
    /// These cached file contents are stale.
    Files(Vec<String>),
    /// The workspace root has changed: all relative paths are stale.
    WorkingDirectory(String),
    /// The set of available tools has changed.
    ToolRegistry,
    /// These environment variables changed.
    Environment(Vec<String>),
}

#[verifier::ext_equal]
pub ghost enum InvalidationView {
    Files(Seq<Seq<char>>),
    WorkingDirectory(Seq<char>),
    ToolRegistry,
    Environment(Seq<Seq<char>>),
}

impl DeepView for Invalidation {
    type V = InvalidationView;

    open spec fn deep_view(&self) -> InvalidationView {
        match self {
            Invalidation::Files(paths) => InvalidationView::Files(paths.deep_view()),
            Invalidation::WorkingDirectory(path) => InvalidationView::WorkingDirectory(path@),
            Invalidation::ToolRegistry => InvalidationView::ToolRegistry,
            Invalidation::Environment(names) => InvalidationView::Environment(names.deep_view()),
        }
    }
}

impl Clone for Invalidation {
    fn clone(&self) -> (r: Self)
        ensures
            r.deep_view() == self.deep_view(),
    {
        match self {
            Invalidation::Files(paths) => Invalidation::Files(copy_texts(paths)),
            Invalidation::WorkingDirectory(path) => Invalidation::WorkingDirectory(path.clone()),
            Invalidation::ToolRegistry => Invalidation::ToolRegistry,
            Invalidation::Environment(names) => Invalidation::Environment(copy_texts(names)),
        }
    }
}

/// The result of a permission evaluation.
#[derive(Debug, PartialEq, Eq)]
pub enum Decision {
    Allow,
    Deny(String),
    Ask,
}

pub ghost enum DecisionView {
    Allow,
    Deny(Seq<char>),
    Ask,
}

impl DeepView for Decision {
    type V = DecisionView;

    open spec fn deep_view(&self) -> DecisionView {
        match self {
            Decision::Allow => DecisionView::Allow,
            Decision::Deny(reason) => DecisionView::Deny(reason@),
            Decision::Ask => DecisionView::Ask,
        }
    }
}

impl Clone for Decision {
    fn clone(&self) -> (r: Self)
        ensures
            r.deep_view() == self.deep_view(),
    {
        match self {
            Decision::Allow => Decision::Allow,
            Decision::Deny(reason) => Decision::Deny(reason.clone()),
            Decision::Ask => Decision::Ask,
        }
    }
}

/// How a session operates: with a human attached, or driven by its policy.
#[derive(Debug, Clone, Copy, PartialEq, Eq, Structural)]
pub enum SessionMode {
    Interactive,
    Autonomous,
}

// ---------------------------------------------------------------------------
// Messages
// ---------------------------------------------------------------------------

/// Content that can appear in a prompt message.
#[derive(Debug)]
pub enum Content {
    Text(String),
    ToolCall { id: String, name: String, input: Json },
    ToolResult { id: String, result: Json },
}

#[verifier::ext_equal]
pub ghost enum ContentView {
    Text(Seq<char>),
    ToolCall { id: Seq<char>, name: Seq<char>, input: json::JsonView },
    ToolResult { id: Seq<char>, result: json::JsonView },
}

impl DeepView for Content {
    type V = ContentView;

    open spec fn deep_view(&self) -> ContentView {
        match self {
            Content::Text(t) => ContentView::Text(t@),
            Content::ToolCall { id, name, input } => ContentView::ToolCall {
                id: id@,
                name: name@,
                input: input.deep_view(),
            },
            Content::ToolResult { id, result } => ContentView::ToolResult {
                id: id@,
                result: result.deep_view(),
            },
        }
    }
}

impl Clone for Content {
    fn clone(&self) -> (r: Self)
        ensures
            r.deep_view() == self.deep_view(),
    {
        match self {
            Content::Text(t) => Content::Text(t.clone()),
            Content::ToolCall { id, name, input } => Content::ToolCall {
                id: id.clone(),
                name: name.clone(),
                input: input.clone(),
            },
            Content::ToolResult { id, result } => Content::ToolResult {
                id: id.clone(),
                result: result.clone(),
            },
        }
    }
}

/// Who speaks a message.
#[derive(Debug, Clone, Copy, PartialEq, Eq, Structural)]
pub enum Role {
    System,
    User,
    Assistant,
}

/// A message in the conversation.
#[derive(Debug)]
pub struct Message {
    pub role: Role,
    pub content: Vec<Content>,
}

#[verifier::ext_equal]
pub ghost struct MessageView {
    pub role: Role,
    pub content: Seq<ContentView>,
}

impl DeepView for Message {
    type V = MessageView;

    open spec fn deep_view(&self) -> MessageView {
        MessageView { role: self.role, content: self.content.deep_view() }
    }
}

/// A copy of the contents in `v`.
pub fn copy_contents(v: &Vec<Content>) -> (r: Vec<Content>)
    ensures
        r.deep_view() == v.deep_view(),
{
    let r = v.clone();
    assert(r.deep_view() =~= v.deep_view());
    r
}

impl Clone for Message {
    fn clone(&self) -> (r: Self)
        ensures
            r.deep_view() == self.deep_view(),
    {
        Message { role: self.role, content: copy_contents(&self.content) }
    }
}

/// A fully assembled prompt ready to send to a provider.
#[derive(Debug)]
pub struct Prompt {
    pub system: String,
    pub messages: Vec<Message>,
    pub tool_definitions: Vec<Json>,
}

#[verifier::ext_equal]
pub ghost struct PromptView {
    pub system: Seq<char>,
    pub messages: Seq<MessageView>,
    pub tool_definitions: Seq<json::JsonView>,
}

impl DeepView for Prompt {
    type V = PromptView;

    open spec fn deep_view(&self) -> PromptView {
        PromptView {
            system: self.system@,
            messages: self.messages.deep_view(),
            tool_definitions: self.tool_definitions.deep_view(),
        }
    }
}

/// Configuration for a completion request.
#[derive(Debug)]
pub struct CompletionConfig {
    pub max_tokens: usize,
    /// The sampling temperature, as the number that the request carries.
    pub temperature: Option<Json>,
    pub stop_sequences: Vec<String>,
}

#[verifier::ext_equal]
pub ghost struct CompletionConfigView {
    pub max_tokens: usize,
    pub temperature: Option<json::JsonView>,
    pub stop_sequences: Seq<Seq<char>>,
}

impl DeepView for CompletionConfig {
    type V = CompletionConfigView;

    open spec fn deep_view(&self) -> CompletionConfigView {
        CompletionConfigView {
            max_tokens: self.max_tokens,
            temperature: self.temperature.deep_view(),
            stop_sequences: self.stop_sequences.deep_view(),
        }
    }
}

impl Default for CompletionConfig {
    fn default() -> (r: Self)
        ensures
            r.deep_view() == (CompletionConfigView {
                max_tokens: 4096,
                temperature: None,
                stop_sequences: Seq::empty(),
            }),
    {
        let stop_sequences: Vec<String> = Vec::new();
        assert(stop_sequences.deep_view() =~= Seq::empty());
        CompletionConfig { max_tokens: 4096, temperature: None, stop_sequences }
    }
}

impl Clone for CompletionConfig {
    fn clone(&self) -> (r: Self)
        ensures
            r.deep_view() == self.deep_view(),
    {
        CompletionConfig {
            max_tokens: self.max_tokens,
            temperature: match &self.temperature {
                Some(t) => Some(t.clone()),
                None => None,
            },
            stop_sequences: copy_texts(&self.stop_sequences),
        }
    }
}

/// A streaming chunk from the model.
#[derive(Debug)]
pub enum StreamChunk {
    Text(String),
    ToolCallStart { id: String, name: String },
    ToolCallDelta { id: String, input_json: String },
    ToolCallEnd { id: String },
    Done,
}

#[verifier::ext_equal]
pub ghost enum StreamChunkView {
    Text(Seq<char>),
    ToolCallStart { id: Seq<char>, name: Seq<char> },
    ToolCallDelta { id: Seq<char>, input_json: Seq<char> },
    ToolCallEnd { id: Seq<char> },
    Done,
}

impl DeepView for StreamChunk {
    type V = StreamChunkView;

    open spec fn deep_view(&self) -> StreamChunkView {
        match self {
            StreamChunk::Text(t) => StreamChunkView::Text(t@),
            StreamChunk::ToolCallStart { id, name } => StreamChunkView::ToolCallStart {
                id: id@,
                name: name@,
            },
            StreamChunk::ToolCallDelta { id, input_json } => StreamChunkView::ToolCallDelta {
                id: id@,
                input_json: input_json@,
            },
            StreamChunk::ToolCallEnd { id } => StreamChunkView::ToolCallEnd { id: id@ },
            StreamChunk::Done => StreamChunkView::Done,
        }
    }
}

/// Resource budget limits.
#[derive(Debug, Clone, Copy, PartialEq, Eq, Structural)]
pub struct ResourceBudget {
    pub max_tokens_per_session: usize,
    pub max_tool_invocations_per_turn: usize,
    pub max_wall_time_per_tool_secs: u64,
    pub max_output_size_bytes: usize,
}

impl Default for ResourceBudget {
    fn default() -> (r: Self)
        ensures
            r == (ResourceBudget {
                max_tokens_per_session: 1_000_000,
                max_tool_invocations_per_turn: 20,
                max_wall_time_per_tool_secs: 120,
                max_output_size_bytes: 102_400,
            }),
    {
        ResourceBudget {
            max_tokens_per_session: 1_000_000,
            max_tool_invocations_per_turn: 20,
            max_wall_time_per_tool_secs: 120,
            max_output_size_bytes: 100 * 1024,
        }
    }
}

// ---------------------------------------------------------------------------
// Laws
// ---------------------------------------------------------------------------

/// A pattern takes itself. One that ends in `:*` takes what goes on behind its
/// colon, whatever that is, and nothing that begins otherwise; any other takes
/// nothing but itself.
pub proof fn law_what_a_pattern_takes(head: Seq<char>, rest: Seq<char>, cap: Seq<char>)
    ensures
        capability_matches(cap, cap),
        capability_matches(head + seq![':'] + rest, head + seq![':', '*']),
        capability_matches(cap, head + seq![':', '*']) ==> cap.len() > head.len() && cap.subrange(
            0,
            head.len() as int,
        ) == head && cap[head.len() as int] == ':',
        forall|pattern: Seq<char>|
            pattern.len() < 2 || pattern.subrange(pattern.len() - 2, pattern.len() as int) != seq![
                ':',
                '*',
            ] ==> (#[trigger] capability_matches(cap, pattern) <==> cap == pattern),
{
    if is_wildcard(cap) {
        assert(cap.subrange(0, cap.drop_last().len() as int) =~= cap.drop_last());
    }
    let pattern = head + seq![':', '*'];
    let start = head + seq![':'];
    assert(pattern.drop_last() =~= start);
    let whole = head + seq![':'] + rest;
    assert(whole.subrange(0, start.len() as int) =~= start);
    if capability_matches(cap, pattern) {
        let got = cap.subrange(0, start.len() as int);
        assert(got == start);
        assert(cap.subrange(0, head.len() as int) =~= got.subrange(0, head.len() as int));
        assert(start.subrange(0, head.len() as int) =~= head);
        assert(cap[head.len() as int] == got[head.len() as int]);
    }
    assert forall|pattern: Seq<char>|
        pattern.len() < 2 || pattern.subrange(pattern.len() - 2, pattern.len() as int) != seq![
            ':',
            '*',
        ] implies (#[trigger] capability_matches(cap, pattern) <==> cap == pattern) by {
        if is_wildcard(pattern) {
            assert(pattern.subrange(pattern.len() - 2, pattern.len() as int) =~= seq![':', '*']);
        }
    }
}

} // verus!
