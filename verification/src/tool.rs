//! Tools as the kernel sees them: what they declare, what they return, and
//! where the output of a running tool goes.

use crate::json;
use crate::json::Json;
use crate::types;
use crate::types::{CapabilitySet, Invalidation, RelevanceSignal, TokenEstimate};
use vstd::prelude::*;
use vstd::string::*;

verus! {

/// Errors from tool execution.
#[derive(Debug)]
pub enum ToolError {
    /// The input was invalid.
    InvalidInput(String),
    /// The tool execution failed.
    ExecutionFailed(String),
    /// The tool timed out.
    Timeout,
    /// Permission was denied by the dispatch gate.
    PermissionDenied(String),
    /// The transport to a tool outside the process failed.
    Transport(String),
}

pub ghost enum ToolErrorView {
    InvalidInput(Seq<char>),
    ExecutionFailed(Seq<char>),
    Timeout,
    PermissionDenied(Seq<char>),
    Transport(Seq<char>),
}

impl DeepView for ToolError {
    type V = ToolErrorView;

    open spec fn deep_view(&self) -> ToolErrorView {
        match self {
            ToolError::InvalidInput(m) => ToolErrorView::InvalidInput(m@),
            ToolError::ExecutionFailed(m) => ToolErrorView::ExecutionFailed(m@),
            ToolError::Timeout => ToolErrorView::Timeout,
            ToolError::PermissionDenied(m) => ToolErrorView::PermissionDenied(m@),
            ToolError::Transport(m) => ToolErrorView::Transport(m@),
        }
    }
}

impl ToolErrorView {
    /// The message of the error.
    pub open spec fn message(self) -> Seq<char> {
        match self {
            ToolErrorView::InvalidInput(m) => "invalid input: "@ + m,
            ToolErrorView::ExecutionFailed(m) => "execution failed: "@ + m,
            ToolErrorView::Timeout => "tool execution timed out"@,
            ToolErrorView::PermissionDenied(m) => "permission denied: "@ + m,
            ToolErrorView::Transport(m) => "tool transport error: "@ + m,
        }
    }
}

impl ToolError {
    /// The message of the error.
    pub fn message(&self) -> (r: String)
        ensures
            r@ == self.deep_view().message(),
    {
        match self {
            ToolError::InvalidInput(m) => {
                let mut r = "invalid input: ".to_owned();
                r.push_str(m.as_str());
                r
            },
            ToolError::ExecutionFailed(m) => {
                let mut r = "execution failed: ".to_owned();
                r.push_str(m.as_str());
                r
            },
            ToolError::Timeout => "tool execution timed out".to_owned(),
            ToolError::PermissionDenied(m) => {
                let mut r = "permission denied: ".to_owned();
                r.push_str(m.as_str());
                r
            },
            ToolError::Transport(m) => {
                let mut r = "tool transport error: ".to_owned();
                r.push_str(m.as_str());
                r
            },
        }
    }
}

/// The result of a tool execution and what it made stale.
#[derive(Debug)]
pub struct ToolOutput {
    /// The result the model sees.
    pub result: Json,
    /// What the execution made stale; empty for tools that only read.
    pub invalidations: Vec<Invalidation>,
}

#[verifier::ext_equal]
pub ghost struct ToolOutputView {
    pub result: json::JsonView,
    pub invalidations: Seq<types::InvalidationView>,
}

impl DeepView for ToolOutput {
    type V = ToolOutputView;

    open spec fn deep_view(&self) -> ToolOutputView {
        ToolOutputView {
            result: self.result.deep_view(),
            invalidations: self.invalidations.deep_view(),
        }
    }
}

/// What the model is told of a call that was denied.
pub open spec fn denied_result(reason: Seq<char>) -> json::JsonView {
    json::json_object().with("error"@, json::JsonView::Str("permission_denied"@)).with(
        "reason"@,
        json::JsonView::Str(reason),
    )
}

impl ToolOutput {
    /// The output of a tool that only read.
    pub fn readonly(result: Json) -> (r: Self)
        ensures
            r.deep_view() == (ToolOutputView {
                result: result.deep_view(),
                invalidations: Seq::empty(),
            }),
    {
        let invalidations: Vec<Invalidation> = Vec::new();
        assert(invalidations.deep_view() =~= Seq::empty());
        ToolOutput { result, invalidations }
    }

    /// The output of a tool that made something stale.
    pub fn with_invalidations(result: Json, invalidations: Vec<Invalidation>) -> (r: Self)
        ensures
            r.deep_view() == (ToolOutputView {
                result: result.deep_view(),
                invalidations: invalidations.deep_view(),
            }),
    {
        ToolOutput { result, invalidations }
    }

    /// The output of a call that was denied, to feed back to the model.
    pub fn denied(reason: &str) -> (r: Self)
        ensures
            r.deep_view() == (ToolOutputView {
                result: denied_result(reason@),
                invalidations: Seq::empty(),
            }),
    {
        ToolOutput::readonly(
            Json::object().with("error", Json::text("permission_denied")).with(
                "reason",
                Json::text(reason),
            ),
        )
    }
}

// ---------------------------------------------------------------------------
// Streaming
// ---------------------------------------------------------------------------

/// The stream that a chunk of tool output belongs to.
#[derive(Debug, Clone, Copy, PartialEq, Eq, Structural)]
pub enum ToolChunkStream {
    Stdout,
    Stderr,
    Text,
}

/// A chunk of output of a tool that is still running.
#[derive(Debug)]
pub struct ToolChunk {
    pub stream: ToolChunkStream,
    pub data: String,
}

/// The chunks that a sink took, in the order in which they came.
pub type ChunkLog = Seq<ToolChunk>;

/// Takes the chunks that running tools emit.
pub trait ChunkSink {
    /// The chunks handed to the sink so far.
    spec fn log(&self) -> ChunkLog;

    /// Takes one more chunk.
    fn accept(&mut self, chunk: ToolChunk)
        ensures
            final(self).log() == old(self).log().push(chunk),
    ;
}

/// A sink that keeps nothing.
pub struct NoSink {
    taken: Ghost<ChunkLog>,
}

impl ChunkSink for NoSink {
    closed spec fn log(&self) -> ChunkLog {
        self.taken@
    }

    fn accept(&mut self, chunk: ToolChunk) {
        self.taken = Ghost(self.taken@.push(chunk));
    }
}

/// What a tool execution is handed: a sink for chunks of its output.
pub struct ToolExecutionCtx<'a, S: ChunkSink = NoSink> {
    /// Where chunks go, if anywhere.
    pub chunk_sink: Option<&'a mut S>,
}

impl ToolExecutionCtx<'static, NoSink> {
    /// A context without a sink: chunks go nowhere.
    pub fn null() -> (r: Self)
        ensures
            !r.has_sink(),
    {
        ToolExecutionCtx { chunk_sink: None }
    }
}

impl<'a, S: ChunkSink> ToolExecutionCtx<'a, S> {
    /// Whether chunks go anywhere.
    pub open spec fn has_sink(&self) -> bool {
        self.chunk_sink is Some
    }

    /// The chunks that the sink took so far.
    pub open spec fn taken(&self) -> ChunkLog {
        match self.chunk_sink {
            Some(sink) => sink.log(),
            None => Seq::empty(),
        }
    }

    /// A context whose chunks go to `sink`.
    pub fn with_sink(sink: &'a mut S) -> (r: Self)
        ensures
            r.chunk_sink matches Some(held) && *held == *old(sink) && *final(held) == *final(sink),
    {
        ToolExecutionCtx { chunk_sink: Some(sink) }
    }

    /// Hands a chunk to the sink, if there is one.
    pub fn emit_chunk(&mut self, chunk: ToolChunk)
        ensures
            final(self).has_sink() == old(self).has_sink(),
            final(self).taken() == (if old(self).has_sink() {
                old(self).taken().push(chunk)
            } else {
                old(self).taken()
            }),
            match (old(self).chunk_sink, final(self).chunk_sink) {
                (Some(before), Some(after)) => *final(before) == *final(after),
                _ => true,
            },
    {
        match &mut self.chunk_sink {
            Some(sink) => {
                sink.accept(chunk);
            },
            None => {},
        }
    }
}

/// Chunks that are emitted one after the other reach the sink in that order,
/// each once and as it was: where the sink's log grows by each of them in turn,
/// it has grown by all of them.
pub proof fn law_chunks_arrive_in_order(logs: Seq<ChunkLog>, chunks: Seq<ToolChunk>)
    requires
        logs.len() == chunks.len() + 1,
        forall|i: int|
            0 <= i < chunks.len() ==> #[trigger] logs[i + 1] == logs[i].push(chunks[i]),
    ensures
        logs.last() == logs[0] + chunks,
    decreases chunks.len(),
{
    if chunks.len() == 0 {
        assert(logs[0] + chunks =~= logs[0]);
    } else {
        let n = chunks.len() - 1;
        law_chunks_arrive_in_order(logs.drop_last(), chunks.drop_last());
        assert(logs[n + 1] == logs[n].push(chunks[n]));
        assert(logs.drop_last().last() == logs[n]);
        assert(logs[0] + chunks =~= (logs[0] + chunks.drop_last()).push(chunks[n]));
    }
}

// ---------------------------------------------------------------------------
// Registration
// ---------------------------------------------------------------------------

/// What a tool declares of itself.
#[derive(Debug)]
pub struct ToolSchema {
    /// Name for dispatch and display.
    pub name: String,
    /// Description for the model.
    pub description: String,
    /// What system resources the tool touches.
    pub capabilities: CapabilitySet,
    /// JSON Schema of the input.
    pub schema: Json,
    /// Approximate tokens that the schema takes in context.
    pub cost: TokenEstimate,
    /// When the tool should be brought into context.
    pub relevance: RelevanceSignal,
}

#[verifier::ext_equal]
pub ghost struct ToolSchemaView {
    pub name: Seq<char>,
    pub description: Seq<char>,
    pub capabilities: Seq<Seq<char>>,
    pub schema: json::JsonView,
    pub cost: TokenEstimate,
    pub keywords: Seq<Seq<char>>,
    pub tags: Seq<Seq<char>>,
}

impl DeepView for ToolSchema {
    type V = ToolSchemaView;

    open spec fn deep_view(&self) -> ToolSchemaView {
        ToolSchemaView {
            name: self.name@,
            description: self.description@,
            capabilities: self.capabilities.list(),
            schema: self.schema.deep_view(),
            cost: self.cost,
            keywords: self.relevance.keywords.deep_view(),
            tags: self.relevance.tags.deep_view(),
        }
    }
}

impl Clone for ToolSchema {
    fn clone(&self) -> (r: Self)
        ensures
            r.deep_view() == self.deep_view(),
    {
        ToolSchema {
            name: self.name.clone(),
            description: self.description.clone(),
            capabilities: self.capabilities.clone(),
            schema: self.schema.clone(),
            cost: self.cost,
            relevance: self.relevance.clone(),
        }
    }
}

/// Copies of some tool declarations.
pub fn copy_tools(tools: &Vec<ToolSchema>) -> (r: Vec<ToolSchema>)
    ensures
        r.deep_view() == tools.deep_view(),
{
    let ghost all = tools.deep_view();
    let mut r: Vec<ToolSchema> = Vec::new();
    let mut i: usize = 0;
    assert(r.deep_view() =~= all.take(0));
    while i < tools.len()
        invariant
            all == tools.deep_view(),
            i <= all.len(),
            r.deep_view() == all.take(i as int),
        decreases all.len() - i,
    {
        let ghost before = r.deep_view();
        r.push(tools[i].clone());
        assert(r.deep_view() =~= before.push(all[i as int]));
        assert(all.take(i + 1) =~= before.push(all[i as int]));
        i += 1;
    }
    assert(all.take(i as int) =~= all);
    r
}

/// What the model is told of a tool.
pub open spec fn tool_definition(
    name: Seq<char>,
    description: Seq<char>,
    schema: json::JsonView,
) -> json::JsonView {
    json::json_object().with("name"@, json::JsonView::Str(name)).with(
        "description"@,
        json::JsonView::Str(description),
    ).with("input_schema"@, schema)
}

impl ToolSchema {
    pub open spec fn definition_view(&self) -> json::JsonView {
        tool_definition(self.name@, self.description@, self.schema.deep_view())
    }

    /// What the model is told of the tool.
    pub fn definition(&self) -> (r: Json)
        ensures
            r.deep_view() == self.definition_view(),
    {
        Json::object().with("name", Json::text(self.name.as_str())).with(
            "description",
            Json::text(self.description.as_str()),
        ).with("input_schema", self.schema.clone())
    }
}

// ---------------------------------------------------------------------------
// Laws
// ---------------------------------------------------------------------------

pub proof fn lemma_definition_words_differ()
    ensures
        "name"@ != "description"@,
        "name"@ != "input_schema"@,
        "description"@ != "input_schema"@,
        "error"@ != "reason"@,
{
    reveal_strlit("name");
    reveal_strlit("description");
    reveal_strlit("input_schema");
    reveal_strlit("error");
    reveal_strlit("reason");
    assert("name"@.len() == 4);
    assert("description"@.len() == 11);
    assert("input_schema"@.len() == 12);
    assert("error"@.len() == 5);
    assert("reason"@.len() == 6);
}

/// A denial says that it is one, and why, and a call that was denied made nothing
/// stale.
pub proof fn law_a_denial_says_why(reason: Seq<char>)
    ensures
        denied_result(reason).get_str("error"@) == Some("permission_denied"@),
        denied_result(reason).get_str("reason"@) == Some(reason),
{
    lemma_definition_words_differ();
}

/// The definition of a tool has its name, its description and its schema, each as
/// the tool declares it.
pub proof fn law_a_definition_tells_the_tool(
    name: Seq<char>,
    description: Seq<char>,
    schema: json::JsonView,
)
    ensures
        tool_definition(name, description, schema).get_str("name"@) == Some(name),
        tool_definition(name, description, schema).get_str("description"@) == Some(description),
        tool_definition(name, description, schema).get("input_schema"@) == Some(schema),
{
    lemma_definition_words_differ();
}

/// The message of an error says what kind of error it is, and ends with what was
/// wrong.
pub proof fn law_messages_tell_the_error(m: Seq<char>)
    ensures
        ToolErrorView::InvalidInput(m).message() == "invalid input: "@ + m,
        ToolErrorView::ExecutionFailed(m).message() == "execution failed: "@ + m,
        ToolErrorView::PermissionDenied(m).message() == "permission denied: "@ + m,
        ToolErrorView::Transport(m).message() == "tool transport error: "@ + m,
        ToolErrorView::Timeout.message() == "tool execution timed out"@,
{
}

} // verus!
