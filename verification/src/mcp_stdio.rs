//! Tools that live in another process, spoken to in JSON-RPC over its standard
//! input and output, one message per line.
//!
//! A call may report progress, each report with a chunk of output. The chunks
//! are passed on as they come, and kept: where the final response has no
//! content of its own, they are the result.

use crate::json;
use crate::json::Json;
use crate::manifest;
use crate::manifest::{Toml, ToolsetEntry};
use crate::text;
use crate::text::{ascii_lower_of, contains, decimal_of, is_blank, joined, same, trimmed};
use crate::tool;
use crate::tool::{ToolChunk, ToolChunkStream, ToolError, ToolOutput, ToolSchema};
use crate::turn_loop;
use crate::types::{CapabilitySet, RelevanceSignal, TokenEstimate};
use vstd::prelude::*;
use vstd::string::*;

verus! {

// ---------------------------------------------------------------------------
// Discovery
// ---------------------------------------------------------------------------

/// The capability that a tool's name suggests.
pub open spec fn inferred(name: Seq<char>) -> Seq<char> {
    let lower = text::ascii_lower(name);
    if lower == "shell"@ || text::contains_text(lower, "exec"@) {
        "shell:exec"@
    } else if text::contains_text(lower, "write"@) || text::contains_text(lower, "edit"@)
        || text::contains_text(lower, "create"@) {
        "fs:write"@
    } else {
        "fs:read"@
    }
}

/// The capability that a tool's name suggests: servers do not advertise any.
pub fn infer_capabilities(name: &str) -> (r: CapabilitySet)
    ensures
        r.list() == seq![inferred(name@)],
{
    let lower = ascii_lower_of(name);
    let lower = lower.as_str();
    if same(lower, "shell") || contains(lower, "exec") {
        CapabilitySet::of("shell:exec")
    } else if contains(lower, "write") || contains(lower, "edit") || contains(lower, "create") {
        CapabilitySet::of("fs:write")
    } else {
        CapabilitySet::of("fs:read")
    }
}

/// The tool that an entry of the advertised list declares.
pub open spec fn listed_tool(entry: json::JsonView) -> Option<tool::ToolSchemaView> {
    match entry.get_str("name"@) {
        None => None,
        Some(name) => Some(
            tool::ToolSchemaView {
                name,
                description: match entry.get_str("description"@) {
                    Some(d) => d,
                    None => ""@,
                },
                capabilities: seq![inferred(name)],
                schema: match entry.get("inputSchema"@) {
                    Some(schema) => schema,
                    None => json::JsonView::Null,
                },
                cost: TokenEstimate(150),
                keywords: Seq::empty(),
                tags: seq!["mcp"@],
            },
        ),
    }
}

/// The tools that some entries of the advertised list declare, where each
/// declares one.
pub open spec fn listed_tools(entries: Seq<json::JsonView>) -> Option<Seq<tool::ToolSchemaView>>
    decreases entries.len(),
{
    if entries.len() == 0 {
        Some(Seq::empty())
    } else {
        match (listed_tools(entries.drop_last()), listed_tool(entries.last())) {
            (Some(rest), Some(t)) => Some(rest.push(t)),
            _ => None,
        }
    }
}

proof fn lemma_unlisted(entries: Seq<json::JsonView>, i: int)
    requires
        0 <= i < entries.len(),
        listed_tool(entries[i]) is None,
    ensures
        listed_tools(entries) is None,
    decreases entries.len(),
{
    if i < entries.len() - 1 {
        lemma_unlisted(entries.drop_last(), i);
    }
}

fn tool_of_entry(entry: &Json) -> (r: Option<ToolSchema>)
    ensures
        r.deep_view() == listed_tool(entry.deep_view()),
{
    let name: String = match entry.get_str("name") {
        Some(n) => n.to_owned(),
        None => {
            return None;
        },
    };
    let description: String = match entry.get_str("description") {
        Some(d) => d.to_owned(),
        None => "".to_owned(),
    };
    let schema: Json = match entry.get("inputSchema") {
        Some(s) => s.clone(),
        None => Json::Null,
    };
    let capabilities = infer_capabilities(name.as_str());
    let keywords: Vec<String> = Vec::new();
    let mut tags: Vec<String> = Vec::new();
    tags.push("mcp".to_owned());
    assert(keywords.deep_view() =~= Seq::empty());
    assert(tags.deep_view() =~= seq!["mcp"@]);
    Some(
        ToolSchema {
            name,
            description,
            capabilities,
            schema,
            cost: TokenEstimate(150),
            relevance: RelevanceSignal { keywords, tags },
        },
    )
}

/// The tools that a server's answer to `tools/list` declares.
pub fn parse_tools_list(result: &Json) -> (r: Result<Vec<ToolSchema>, String>)
    ensures
        match (result.deep_view().get("tools"@), r) {
            (Some(json::JsonView::Array(entries)), Ok(tools)) => listed_tools(entries) == Some(
                tools.deep_view(),
            ),
            (Some(json::JsonView::Array(entries)), Err(e)) => listed_tools(entries) is None && e@
                == "tool entry missing name"@,
            (_, Ok(_)) => false,
            (_, Err(e)) => e@ == "tools/list response missing 'tools' array"@,
        },
{
    let entries: &Vec<Json> = match result.get("tools") {
        Some(Json::Array(entries)) => entries,
        _ => {
            return Err("tools/list response missing 'tools' array".to_owned());
        },
    };
    broadcast use json::lemma_json_items;

    let ghost all = json::json_items(entries@);
    let mut tools: Vec<ToolSchema> = Vec::new();
    let mut i: usize = 0;
    assert(tools.deep_view() =~= Seq::empty());
    assert(all.take(0) =~= Seq::empty());
    while i < entries.len()
        invariant
            all == json::json_items(entries@),
            all.len() == entries@.len(),
            i <= all.len(),
            result.deep_view().get("tools"@) == Some(json::JsonView::Array(all)),
            listed_tools(all.take(i as int)) == Some(tools.deep_view()),
        decreases all.len() - i,
    {
        broadcast use json::lemma_json_items;

        let ghost before = tools.deep_view();
        assert(all.take(i + 1).drop_last() =~= all.take(i as int));
        assert(all[i as int] == entries@[i as int].deep_view());
        match tool_of_entry(&entries[i]) {
            Some(t) => {
                let ghost view = t.deep_view();
                tools.push(t);
                assert(tools.deep_view() =~= before.push(view));
            },
            None => {
                proof {
                    lemma_unlisted(all, i as int);
                }
                return Err("tool entry missing name".to_owned());
            },
        }
        i += 1;
    }
    assert(all.take(i as int) =~= all);
    Ok(tools)
}

// ---------------------------------------------------------------------------
// Messages
// ---------------------------------------------------------------------------

/// A JSON-RPC request.
pub open spec fn request_doc(
    id: u64,
    method: Seq<char>,
    params: json::JsonView,
) -> json::JsonView {
    json::json_object().with("jsonrpc"@, json::JsonView::Str("2.0"@)).with(
        "id"@,
        json::JsonView::Number(json::JsonNumber::U64(id)),
    ).with("method"@, json::JsonView::Str(method)).with("params"@, params)
}

/// A JSON-RPC request.
fn request_of(id: u64, method: &str, params: Json) -> (r: Json)
    ensures
        r.deep_view() == request_doc(id, method@, params.deep_view()),
{
    Json::object().with("jsonrpc", Json::text("2.0")).with("id", Json::natural(id)).with(
        "method",
        Json::text(method),
    ).with("params", params)
}

/// What a server is told when it is started.
pub open spec fn initialize_doc(init_params: json::JsonView) -> json::JsonView {
    json::json_object().with("protocolVersion"@, json::JsonView::Str("2024-11-05"@)).with(
        "clientInfo"@,
        json::json_object().with("name"@, json::JsonView::Str("agent-kernel"@)).with(
            "version"@,
            json::JsonView::Str("0.1.0"@),
        ),
    ).with("capabilities"@, json::json_object()).with("agent_kernel"@, init_params)
}

/// What a server is told when it is started.
pub fn initialize_params(init_params: Json) -> (r: Json)
    ensures
        r.deep_view() == initialize_doc(init_params.deep_view()),
{
    let client = Json::object().with("name", Json::text("agent-kernel")).with(
        "version",
        Json::text("0.1.0"),
    );
    Json::object().with("protocolVersion", Json::text("2024-11-05")).with("clientInfo", client).with(
        "capabilities",
        Json::object(),
    ).with("agent_kernel", init_params)
}

/// The message on a line, or none where the line is blank.
pub open spec fn line_message(line: Seq<char>) -> Result<Option<json::JsonView>, Seq<char>> {
    if text::trim(line).len() == 0 {
        Ok(None)
    } else {
        match json::json_parsed(text::trim(line)) {
            Ok(doc) => Ok(Some(doc)),
            Err(e) => Err("malformed MCP message: "@ + e),
        }
    }
}

/// The message on a line, or none where the line is blank.
pub fn message_on(line: &str) -> (r: Result<Option<Json>, String>)
    ensures
        match r {
            Ok(m) => line_message(line@) == Ok::<Option<json::JsonView>, Seq<char>>(m.deep_view()),
            Err(e) => line_message(line@) == Err::<Option<json::JsonView>, Seq<char>>(e@),
        },
{
    if is_blank(line) {
        return Ok(None);
    }
    let body = trimmed(line);
    match Json::parse(body.as_str()) {
        Ok(doc) => Ok(Some(doc)),
        Err(e) => {
            let mut message = "malformed MCP message: ".to_owned();
            message.push_str(e.as_str());
            Err(message)
        },
    }
}

/// Whether a message is the response to the request of the given id.
pub open spec fn responds_to(msg: json::JsonView, id: u64) -> bool {
    msg.get_u64("id"@) == Some(id)
}

/// The result in a response, or null.
pub open spec fn result_in(msg: json::JsonView) -> json::JsonView {
    match msg.get("result"@) {
        Some(result) => result,
        None => json::JsonView::Null,
    }
}

/// What a message means to a request of the given id: nothing, where it is not
/// the response to it.
pub open spec fn answer_to(id: u64, method: Seq<char>, msg: json::JsonView) -> Option<
    Result<json::JsonView, Seq<char>>,
> {
    if !responds_to(msg, id) {
        None
    } else {
        match msg.get("error"@) {
            Some(err) => Some(Err("MCP error on "@ + method + ": "@ + json::json_text(err))),
            None => Some(Ok(result_in(msg))),
        }
    }
}

/// The result of a request, or its error.
pub open spec fn answer_view(r: Option<Result<Json, String>>) -> Option<
    Result<json::JsonView, Seq<char>>,
> {
    match r {
        None => None,
        Some(Ok(doc)) => Some(Ok(doc.deep_view())),
        Some(Err(e)) => Some(Err(e@)),
    }
}

fn is_response(msg: &Json, id: u64) -> (r: bool)
    ensures
        r == responds_to(msg.deep_view(), id),
{
    match msg.get_u64("id") {
        Some(found) => found == id,
        None => false,
    }
}

fn result_of(msg: &Json) -> (r: Json)
    ensures
        r.deep_view() == result_in(msg.deep_view()),
{
    match msg.get("result") {
        Some(result) => result.clone(),
        None => Json::Null,
    }
}

/// What a message means to a request of the given id and method.
pub fn answer(id: u64, method: &str, msg: &Json) -> (r: Option<Result<Json, String>>)
    ensures
        answer_view(r) == answer_to(id, method@, msg.deep_view()),
{
    if !is_response(msg, id) {
        return None;
    }
    match msg.get("error") {
        Some(err) => {
            let mut e = "MCP error on ".to_owned();
            e.push_str(method);
            e.push_str(": ");
            e.push_str(err.to_text().as_str());
            Some(Err(e))
        },
        None => Some(Ok(result_of(msg))),
    }
}

/// What is said where a server's output ends before it answered a request.
pub fn eof_error(method: &str) -> (r: String)
    ensures
        r@ == "subprocess EOF while waiting for "@ + method@,
{
    let mut e = "subprocess EOF while waiting for ".to_owned();
    e.push_str(method);
    e
}

// ---------------------------------------------------------------------------
// Calls
// ---------------------------------------------------------------------------

/// The counters of a connection to a server.
#[derive(Debug)]
pub struct McpClient {
    next_id: u64,
    next_progress: u64,
}

/// The number after `n`, or zero after the last.
pub open spec fn bumped(n: u64) -> u64 {
    if n == u64::MAX {
        0
    } else {
        (n + 1) as u64
    }
}

/// The request to call a tool.
pub open spec fn call_doc(
    id: u64,
    token: Seq<char>,
    name: Seq<char>,
    input: json::JsonView,
) -> json::JsonView {
    request_doc(
        id,
        "tools/call"@,
        json::json_object().with("name"@, json::JsonView::Str(name)).with("arguments"@, input).with(
            "_meta"@,
            json::json_object().with("progressToken"@, json::JsonView::Str(token)),
        ),
    )
}

/// The token under which a call reports its progress.
pub open spec fn progress_token(n: u64) -> Seq<char> {
    "p"@ + text::decimal(n as nat)
}

impl McpClient {
    /// The id of the next request.
    pub closed spec fn id(&self) -> u64 {
        self.next_id
    }

    /// The number of the next progress token.
    pub closed spec fn progress(&self) -> u64 {
        self.next_progress
    }

    /// A connection on which nothing was said yet.
    pub fn new() -> (r: Self)
        ensures
            r.id() == 1,
            r.progress() == 1,
    {
        McpClient { next_id: 1, next_progress: 1 }
    }

    /// A request to send, with its id.
    pub fn request(&mut self, method: &str, params: Json) -> (r: (u64, Json))
        ensures
            r.0 == old(self).id(),
            r.1.deep_view() == request_doc(old(self).id(), method@, params.deep_view()),
            final(self).id() == bumped(old(self).id()),
            final(self).progress() == old(self).progress(),
    {
        let id: u64 = self.next_id;
        self.next_id = self.next_id.wrapping_add(1);
        (id, request_of(id, method, params))
    }

    /// A request to call a tool, and the call that is then under way.
    pub fn call(&mut self, name: &str, input: Json) -> (r: (McpCall, Json))
        ensures
            ({
                let token = progress_token(old(self).progress());
                &&& r.0@ == (CallView { id: old(self).id(), token, chunks: Seq::empty() })
                &&& r.1.deep_view() == call_doc(old(self).id(), token, name@, input.deep_view())
            }),
            final(self).id() == bumped(old(self).id()),
            final(self).progress() == bumped(old(self).progress()),
    {
        let mut token = "p".to_owned();
        token.push_str(decimal_of(self.next_progress).as_str());
        self.next_progress = self.next_progress.wrapping_add(1);
        let meta = Json::object().with("progressToken", Json::text(token.as_str()));
        let params = Json::object().with("name", Json::text(name)).with("arguments", input).with(
            "_meta",
            meta,
        );
        let (id, request) = self.request("tools/call", params);
        let chunks = String::new();
        assert(chunks@ =~= Seq::empty());
        (McpCall { id, token, chunks }, request)
    }
}

/// A call under way.
#[derive(Debug)]
pub struct McpCall {
    id: u64,
    token: String,
    chunks: String,
}

#[verifier::ext_equal]
pub ghost struct CallView {
    pub id: u64,
    pub token: Seq<char>,
    /// The output so far.
    pub chunks: Seq<char>,
}

impl View for McpCall {
    type V = CallView;

    closed spec fn view(&self) -> CallView {
        CallView { id: self.id, token: self.token@, chunks: self.chunks@ }
    }
}

/// What a message means to a call under way.
#[derive(Debug)]
pub enum CallStep {
    /// Nothing.
    Unrelated,
    /// A chunk of output.
    Chunk(ToolChunk),
    /// The call failed.
    Failed(String),
    /// The call is over.
    Done(ToolOutput),
}

#[verifier::ext_equal]
pub ghost enum CallStepView {
    Unrelated,
    Chunk { stream: ToolChunkStream, data: Seq<char> },
    Failed(Seq<char>),
    Done(tool::ToolOutputView),
}

impl DeepView for CallStep {
    type V = CallStepView;

    open spec fn deep_view(&self) -> CallStepView {
        match self {
            CallStep::Unrelated => CallStepView::Unrelated,
            CallStep::Chunk(chunk) => CallStepView::Chunk {
                stream: chunk.stream,
                data: chunk.data@,
            },
            CallStep::Failed(e) => CallStepView::Failed(e@),
            CallStep::Done(output) => CallStepView::Done(output.deep_view()),
        }
    }
}

/// The chunk that a progress report of the given token carries.
pub open spec fn chunk_in(msg: json::JsonView, token: Seq<char>) -> Option<json::JsonView> {
    if msg.get_str("method"@) != Some("notifications/progress"@) {
        None
    } else {
        match msg.get("params"@) {
            None => None,
            Some(params) => if params.get_str("progressToken"@) != Some(token) {
                None
            } else {
                match params.get("_meta"@) {
                    None => None,
                    Some(meta) => meta.get("agent_kernel/chunk"@),
                }
            },
        }
    }
}

/// The output in a chunk, which ends with a line break.
pub open spec fn chunk_data(chunk: json::JsonView) -> Seq<char> {
    let data = match chunk.get_str("data"@) {
        Some(data) => data,
        None => ""@,
    };
    if data.len() > 0 && data.last() == '\n' {
        data
    } else {
        data + "\n"@
    }
}

/// The stream that a chunk belongs to.
pub open spec fn chunk_stream(chunk: json::JsonView) -> ToolChunkStream {
    if chunk.get_str("stream"@) == Some("stderr"@) {
        ToolChunkStream::Stderr
    } else if chunk.get_str("stream"@) == Some("text"@) {
        ToolChunkStream::Text
    } else {
        ToolChunkStream::Stdout
    }
}

/// The texts of the items that have one.
pub open spec fn item_texts(items: Seq<json::JsonView>) -> Seq<Seq<char>>
    decreases items.len(),
{
    if items.len() == 0 {
        Seq::empty()
    } else {
        let rest = item_texts(items.drop_last());
        match items.last().get_str("text"@) {
            Some(t) => rest.push(t),
            None => rest,
        }
    }
}

/// The text that a call comes to: that of the response, or else what was
/// reported on the way.
pub open spec fn call_text(response: json::JsonView, chunks: Seq<char>) -> Seq<char> {
    match response.get("content"@) {
        Some(json::JsonView::Array(items)) => {
            let said = text::join(item_texts(items), ""@);
            if said.len() > 0 {
                said
            } else {
                chunks
            }
        },
        _ => chunks,
    }
}

/// The document that a text holds, or else the text itself.
pub open spec fn read_or_text(
    parsed: Result<json::JsonView, Seq<char>>,
    t: Seq<char>,
) -> json::JsonView {
    match parsed {
        Ok(doc) => doc,
        Err(_) => json::JsonView::Str(t),
    }
}

/// The document that was read from a text, or else the text itself.
pub fn document_or_text(parsed: Result<Json, String>, t: String) -> (r: Json)
    ensures
        r.deep_view() == (match parsed {
            Ok(doc) => doc.deep_view(),
            Err(_) => json::JsonView::Str(t@),
        }),
{
    match parsed {
        Ok(doc) => doc,
        Err(_) => Json::Str(t),
    }
}

impl CallView {
    /// What a message means to the call.
    pub open spec fn step(self, msg: json::JsonView) -> CallStepView {
        if responds_to(msg, self.id) {
            match msg.get("error"@) {
                Some(err) => CallStepView::Failed(json::json_text(err)),
                None => {
                    let t = call_text(result_in(msg), self.chunks);
                    CallStepView::Done(
                        tool::ToolOutputView {
                            result: read_or_text(json::json_parsed(t), t),
                            invalidations: Seq::empty(),
                        },
                    )
                },
            }
        } else {
            match chunk_in(msg, self.token) {
                Some(chunk) => CallStepView::Chunk {
                    stream: chunk_stream(chunk),
                    data: chunk_data(chunk),
                },
                None => CallStepView::Unrelated,
            }
        }
    }

    /// The call after a message.
    pub open spec fn after(self, msg: json::JsonView) -> CallView {
        match self.step(msg) {
            CallStepView::Chunk { data, .. } => CallView { chunks: self.chunks + data, ..self },
            _ => self,
        }
    }
}

fn chunk_of<'a>(msg: &'a Json, token: &str) -> (r: Option<&'a Json>)
    ensures
        r.deep_view() == chunk_in(msg.deep_view(), token@),
{
    match msg.get_str("method") {
        Some(method) => if !same(method, "notifications/progress") {
            return None;
        },
        None => {
            return None;
        },
    }
    match msg.get("params") {
        None => None,
        Some(params) => {
            match params.get_str("progressToken") {
                Some(found) => if !same(found, token) {
                    return None;
                },
                None => {
                    return None;
                },
            }
            match params.get("_meta") {
                None => None,
                Some(meta) => meta.get("agent_kernel/chunk"),
            }
        },
    }
}

fn tool_chunk(chunk: &Json) -> (r: ToolChunk)
    ensures
        r.stream == chunk_stream(chunk.deep_view()),
        r.data@ == chunk_data(chunk.deep_view()),
{
    let mut data: String = match chunk.get_str("data") {
        Some(d) => d.to_owned(),
        None => "".to_owned(),
    };
    let n: usize = data.as_str().unicode_len();
    if !(n > 0 && data.as_str().get_char(n - 1) == '\n') {
        data.push_str("\n");
    }
    let stream = match chunk.get_str("stream") {
        Some(s) => if same(s, "stderr") {
            ToolChunkStream::Stderr
        } else if same(s, "text") {
            ToolChunkStream::Text
        } else {
            ToolChunkStream::Stdout
        },
        None => ToolChunkStream::Stdout,
    };
    ToolChunk { stream, data }
}

fn call_text_of(response: &Json, chunks: &str) -> (r: String)
    ensures
        r@ == call_text(response.deep_view(), chunks@),
{
    match response.get("content") {
        Some(Json::Array(items)) => {
            let ghost all = json::json_items(items@);
            let mut texts: Vec<String> = Vec::new();
            let mut i: usize = 0;
            assert(texts.deep_view() =~= Seq::empty());
            assert(all.take(0) =~= Seq::empty());
            proof {
                json::lemma_json_items(items@);
            }
            while i < items.len()
                invariant
                    all == json::json_items(items@),
                    all.len() == items@.len(),
                    forall|k: int| 0 <= k < items@.len() ==> #[trigger] all[k]
                        == items@[k].deep_view(),
                    i <= all.len(),
                    texts.deep_view() == item_texts(all.take(i as int)),
                decreases all.len() - i,
            {
                let ghost before = texts.deep_view();
                assert(all.take(i + 1).drop_last() =~= all.take(i as int));
                assert(all[i as int] == items@[i as int].deep_view());
                match items[i].get_str("text") {
                    Some(t) => {
                        texts.push(t.to_owned());
                        assert(texts.deep_view() =~= before.push(t@));
                    },
                    None => {},
                }
                i += 1;
            }
            assert(all.take(i as int) =~= all);
            let said = joined(&texts, "");
            if said.as_str().unicode_len() > 0 {
                said
            } else {
                chunks.to_owned()
            }
        },
        _ => chunks.to_owned(),
    }
}

impl McpCall {
    /// Takes in a message from the server.
    pub fn take_message(&mut self, msg: &Json) -> (r: CallStep)
        ensures
            r.deep_view() == old(self)@.step(msg.deep_view()),
            final(self)@ == old(self)@.after(msg.deep_view()),
    {
        if is_response(msg, self.id) {
            match msg.get("error") {
                Some(err) => CallStep::Failed(err.to_text()),
                None => {
                    let t = call_text_of(&result_of(msg), self.chunks.as_str());
                    let parsed = Json::parse(t.as_str());
                    CallStep::Done(ToolOutput::readonly(document_or_text(parsed, t)))
                },
            }
        } else {
            match chunk_of(msg, self.token.as_str()) {
                Some(chunk) => {
                    let chunk = tool_chunk(chunk);
                    self.chunks.push_str(chunk.data.as_str());
                    CallStep::Chunk(chunk)
                },
                None => CallStep::Unrelated,
            }
        }
    }
}

// ---------------------------------------------------------------------------
// Recovery
// ---------------------------------------------------------------------------

/// Why a call came to nothing.
#[derive(Debug)]
pub enum CallError {
    /// The server could not be spoken to.
    Transport(String),
    /// The server said that the call failed.
    Execution(String),
}

/// What follows a try to call a tool.
#[derive(Debug)]
pub enum AfterTry {
    /// The server is started anew, and the call tried once more.
    Respawn,
    /// The call is over.
    Finish(Result<ToolOutput, ToolError>),
}

/// Whether a call is tried again after its outcome `tried`, and what it comes
/// to if not. The server is started anew at most once, and only where it could
/// not be spoken to.
pub open spec fn recovery(
    first: bool,
    tried: Result<ToolOutput, CallError>,
) -> Option<Result<tool::ToolOutputView, tool::ToolErrorView>> {
    match tried {
        Ok(output) => Some(Ok(output.deep_view())),
        Err(CallError::Execution(e)) => Some(Err(tool::ToolErrorView::ExecutionFailed(e@))),
        Err(CallError::Transport(e)) => if first {
            None
        } else {
            Some(Err(tool::ToolErrorView::Transport(e@)))
        },
    }
}

/// What follows a try to call a tool, where `first` says whether it was the
/// first.
pub fn after_try(first: bool, tried: Result<ToolOutput, CallError>) -> (r: AfterTry)
    ensures
        match r {
            AfterTry::Respawn => recovery(first, tried) is None,
            AfterTry::Finish(result) => recovery(first, tried) == Some(turn_loop::outcome(result)),
        },
{
    match tried {
        Ok(output) => AfterTry::Finish(Ok(output)),
        Err(CallError::Execution(e)) => AfterTry::Finish(Err(ToolError::ExecutionFailed(e))),
        Err(CallError::Transport(e)) => {
            if first {
                AfterTry::Respawn
            } else {
                AfterTry::Finish(Err(ToolError::Transport(e)))
            }
        },
    }
}

/// What a new start of a server can fail at.
#[derive(Debug, Clone, Copy, PartialEq, Eq, Structural)]
pub enum RespawnStep {
    Spawn,
    Initialize,
    ListTools,
}

/// What a call comes to where the server could not be started anew.
pub open spec fn respawn_message(step: RespawnStep, e: Seq<char>) -> Seq<char> {
    match step {
        RespawnStep::Spawn => "respawn failed: "@ + e,
        RespawnStep::Initialize => "respawn initialize: "@ + e,
        RespawnStep::ListTools => "respawn tools/list: "@ + e,
    }
}

/// What a call comes to where the server could not be started anew.
pub fn respawn_error(step: RespawnStep, e: &str) -> (r: ToolError)
    ensures
        r.deep_view() == tool::ToolErrorView::Transport(respawn_message(step, e@)),
{
    let mut message = match step {
        RespawnStep::Spawn => "respawn failed: ".to_owned(),
        RespawnStep::Initialize => "respawn initialize: ".to_owned(),
        RespawnStep::ListTools => "respawn tools/list: ".to_owned(),
    };
    message.push_str(e);
    ToolError::Transport(message)
}

// ---------------------------------------------------------------------------
// Configuration
// ---------------------------------------------------------------------------

/// How a server is started.
#[derive(Debug)]
pub struct McpLaunch {
    pub id: String,
    pub command: String,
    pub args: Vec<String>,
    pub init_params: Json,
}

#[verifier::ext_equal]
pub ghost struct McpLaunchView {
    pub id: Seq<char>,
    pub command: Seq<char>,
    pub args: Seq<Seq<char>>,
    pub init_params: json::JsonView,
}

impl DeepView for McpLaunch {
    type V = McpLaunchView;

    open spec fn deep_view(&self) -> McpLaunchView {
        McpLaunchView {
            id: self.id@,
            command: self.command@,
            args: self.args.deep_view(),
            init_params: self.init_params.deep_view(),
        }
    }
}

/// How the server of an entry is started: by its `command`, with its `args`,
/// and told all else that is configured. There is no default command.
pub open spec fn launch(entry: ToolsetEntry) -> Option<McpLaunchView> {
    match entry.config.member("command"@) {
        Some(Toml::Str(command)) => Some(
            McpLaunchView {
                id: match entry.id {
                    Some(id) => id@,
                    None => "mcp.stdio"@,
                },
                command: command@,
                args: match entry.config.member("args"@) {
                    Some(args) => args.texts(),
                    None => Seq::empty(),
                },
                init_params: manifest::toml_json(entry.config).without("command"@).without(
                    "args"@,
                ),
            },
        ),
        _ => None,
    }
}

/// How the server of an entry is started.
pub fn from_entry(entry: &ToolsetEntry) -> (r: Result<McpLaunch, String>)
    ensures
        match r {
            Ok(found) => launch(*entry) == Some(found.deep_view()),
            Err(e) => launch(*entry) is None && e@
                == "mcp.stdio toolset requires config.command (string)"@,
        },
{
    let command: String = match entry.config.get("command") {
        Some(Toml::Str(command)) => command.clone(),
        _ => {
            return Err("mcp.stdio toolset requires config.command (string)".to_owned());
        },
    };
    let args: Vec<String> = match entry.config.get("args") {
        Some(args) => args.text_items(),
        None => Vec::new(),
    };
    assert(entry.config.member("args"@) is None ==> args.deep_view() =~= Seq::empty());
    let init_params = manifest::toml_to_json(&entry.config).without("command").without("args");
    let id: String = match &entry.id {
        Some(id) => id.clone(),
        None => "mcp.stdio".to_owned(),
    };
    Ok(McpLaunch { id, command, args, init_params })
}

// ---------------------------------------------------------------------------
// Laws
// ---------------------------------------------------------------------------

impl CallView {
    /// The call after some messages.
    pub open spec fn after_all(self, msgs: Seq<json::JsonView>) -> CallView
        decreases msgs.len(),
    {
        if msgs.len() == 0 {
            self
        } else {
            self.after_all(msgs.drop_last()).after(msgs.last())
        }
    }
}

/// What the reports of the given token among some messages say, put together.
pub open spec fn reported(msgs: Seq<json::JsonView>, id: u64, token: Seq<char>) -> Seq<char>
    decreases msgs.len(),
{
    if msgs.len() == 0 {
        Seq::empty()
    } else {
        let rest = reported(msgs.drop_last(), id, token);
        match chunk_in(msgs.last(), token) {
            Some(chunk) => if responds_to(msgs.last(), id) {
                rest
            } else {
                rest + chunk_data(chunk)
            },
            None => rest,
        }
    }
}

/// Where the response to a call has no content, the call comes to all that was
/// reported on the way, in order, and to nothing else.
pub proof fn law_reports_become_the_result(
    call: CallView,
    msgs: Seq<json::JsonView>,
    response: json::JsonView,
)
    requires
        call.chunks.len() == 0,
        responds_to(response, call.id),
        response.get("error"@) is None,
        result_in(response).get("content"@) is None || result_in(response).get("content"@) == Some(
            json::JsonView::Array(Seq::empty()),
        ),
    ensures
        ({
            let said = reported(msgs, call.id, call.token);
            call.after_all(msgs).step(response) == CallStepView::Done(
                tool::ToolOutputView {
                    result: read_or_text(json::json_parsed(said), said),
                    invalidations: Seq::empty(),
                },
            )
        }),
{
    lemma_reports(call, msgs);
    assert(text::join(item_texts(Seq::empty()), ""@).len() == 0);
}

proof fn lemma_reports(call: CallView, msgs: Seq<json::JsonView>)
    requires
        call.chunks.len() == 0,
    ensures
        ({
            let after = call.after_all(msgs);
            after.chunks == reported(msgs, call.id, call.token) && after.id == call.id
                && after.token == call.token
        }),
    decreases msgs.len(),
{
    if msgs.len() > 0 {
        lemma_reports(call, msgs.drop_last());
    } else {
        assert(call.chunks =~= Seq::empty());
    }
}

/// Where the response to a call has content, that is the result, whatever was
/// reported on the way.
pub proof fn law_content_wins(
    call: CallView,
    msgs: Seq<json::JsonView>,
    response: json::JsonView,
    items: Seq<json::JsonView>,
)
    requires
        responds_to(response, call.id),
        response.get("error"@) is None,
        result_in(response).get("content"@) == Some(json::JsonView::Array(items)),
        text::join(item_texts(items), ""@).len() > 0,
    ensures
        call.after_all(msgs).step(response) == call.step(response),
        ({
            let said = text::join(item_texts(items), ""@);
            call.step(response) == CallStepView::Done(
                tool::ToolOutputView {
                    result: read_or_text(json::json_parsed(said), said),
                    invalidations: Seq::empty(),
                },
            )
        }),
{
    lemma_same_call(call, msgs);
}

proof fn lemma_same_call(call: CallView, msgs: Seq<json::JsonView>)
    ensures
        call.after_all(msgs).id == call.id,
        call.after_all(msgs).token == call.token,
    decreases msgs.len(),
{
    if msgs.len() > 0 {
        lemma_same_call(call, msgs.drop_last());
    }
}

/// A server that cannot be spoken to is started anew once, and no more.
pub proof fn law_one_respawn(first: Result<ToolOutput, CallError>, second: Result<ToolOutput, CallError>)
    ensures
        recovery(true, first) is None <==> first matches Err(CallError::Transport(_)),
        recovery(false, second) is Some,
{
}

/// The capability that a name suggests does not depend on capitals: executing for
/// a shell and for what executes, writing for what writes, edits or creates, and
/// reading for the rest.
pub proof fn law_names_suggest_capabilities(name: Seq<char>)
    ensures
        ({
            let lower = text::ascii_lower(name);
            &&& lower == "shell"@ || text::contains_text(lower, "exec"@) <==> inferred(name)
                == "shell:exec"@
            &&& inferred(name) == "fs:write"@ <==> !(lower == "shell"@ || text::contains_text(
                lower,
                "exec"@,
            )) && (text::contains_text(lower, "write"@) || text::contains_text(lower, "edit"@)
                || text::contains_text(lower, "create"@))
            &&& inferred(name) == "shell:exec"@ || inferred(name) == "fs:write"@ || inferred(name)
                == "fs:read"@
        }),
        inferred(text::ascii_lower(name)) == inferred(name),
{
    reveal_strlit("shell:exec");
    reveal_strlit("fs:write");
    reveal_strlit("fs:read");
    assert("shell:exec"@.len() == 10);
    assert("fs:write"@.len() == 8);
    assert("fs:read"@.len() == 7);
    assert(text::ascii_lower(text::ascii_lower(name)) =~= text::ascii_lower(name));
}

/// Listed tools are found in the order of the list, and one entry without a name
/// spoils the list.
pub proof fn law_lists_are_read_in_order(entries: Seq<json::JsonView>, more: json::JsonView)
    ensures
        listed_tools(entries.push(more)) == (match (listed_tools(entries), listed_tool(more)) {
            (Some(rest), Some(t)) => Some(rest.push(t)),
            _ => None,
        }),
        listed_tools(Seq::empty()) matches Some(none) && none.len() == 0,
        listed_tool(more) is Some <==> more.get_str("name"@) is Some,
        listed_tool(more) matches Some(t) ==> Some(t.name) == more.get_str("name"@)
            && t.capabilities == seq![inferred(t.name)] && (more.get("inputSchema"@) is Some
            ==> Some(t.schema) == more.get("inputSchema"@)) && (more.get_str("description"@) is Some
            ==> Some(t.description) == more.get_str("description"@)),
{
    assert(entries.push(more).drop_last() =~= entries);
}

/// A request says its id, its method and its parameters, and a call the tool, its
/// input and the token for reports.
pub proof fn law_requests_tell_what_is_asked(
    id: u64,
    method: Seq<char>,
    params: json::JsonView,
    token: Seq<char>,
    name: Seq<char>,
    input: json::JsonView,
)
    ensures
        ({
            let doc = request_doc(id, method, params);
            &&& doc.get_str("jsonrpc"@) == Some("2.0"@)
            &&& doc.get_u64("id"@) == Some(id)
            &&& doc.get_str("method"@) == Some(method)
            &&& doc.get("params"@) == Some(params)
        }),
        ({
            let doc = call_doc(id, token, name, input);
            &&& doc.get_u64("id"@) == Some(id)
            &&& doc.get_str("method"@) == Some("tools/call"@)
            &&& doc.get("params"@) matches Some(p) && p.get_str("name"@) == Some(name) && p.get(
                "arguments"@,
            ) == Some(input) && (p.get("_meta"@) matches Some(m) && m.get_str("progressToken"@)
                == Some(token))
        }),
        ({
            let doc = initialize_doc(params);
            &&& doc.get_str("protocolVersion"@) == Some("2024-11-05"@)
            &&& doc.get("agent_kernel"@) == Some(params)
        }),
{
    lemma_call_words_differ();
}

/// By these the words differ.
proof fn lemma_call_words_differ()
    ensures
        "jsonrpc"@.len() == 7,
        "id"@.len() == 2,
        "method"@.len() == 6 && "method"@[0] == 'm',
        "params"@.len() == 6 && "params"@[0] == 'p',
        "name"@.len() == 4,
        "arguments"@.len() == 9,
        "_meta"@.len() == 5,
        "progressToken"@.len() == 13,
        "protocolVersion"@.len() == 15,
        "clientInfo"@.len() == 10,
        "capabilities"@.len() == 12 && "capabilities"@[0] == 'c',
        "agent_kernel"@.len() == 12 && "agent_kernel"@[0] == 'a',
{
    reveal_strlit("jsonrpc");
    reveal_strlit("id");
    reveal_strlit("method");
    reveal_strlit("params");
    reveal_strlit("name");
    reveal_strlit("arguments");
    reveal_strlit("_meta");
    reveal_strlit("progressToken");
    reveal_strlit("protocolVersion");
    reveal_strlit("clientInfo");
    reveal_strlit("capabilities");
    reveal_strlit("agent_kernel");
}

/// An answer is taken for that to a request only where it has its id. An error is
/// told with the method, and otherwise the result is what the server gave.
pub proof fn law_answers_go_by_their_id(id: u64, method: Seq<char>, msg: json::JsonView)
    ensures
        answer_to(id, method, msg) is Some <==> msg.get_u64("id"@) == Some(id),
        msg.get_u64("id"@) == Some(id) ==> match msg.get("error"@) {
            Some(err) => answer_to(id, method, msg) == Some(
                Err::<json::JsonView, Seq<char>>(
                    "MCP error on "@ + method + ": "@ + json::json_text(err),
                ),
            ),
            None => answer_to(id, method, msg) matches Some(Ok(result)) && (msg.get("result"@) is Some
                ==> Some(result) == msg.get("result"@)),
        },
{
}

/// Blank lines say nothing, and the white space around a message does not matter.
pub proof fn law_blank_lines_say_nothing(line: Seq<char>)
    ensures
        line_message(line) == Ok::<Option<json::JsonView>, Seq<char>>(None) <==> text::trim(
            line,
        ).len() == 0,
        text::trim(line).len() > 0 ==> match json::json_parsed(text::trim(line)) {
            Ok(doc) => line_message(line) == Ok::<Option<json::JsonView>, Seq<char>>(Some(doc)),
            Err(e) => line_message(line) == Err::<Option<json::JsonView>, Seq<char>>(
                "malformed MCP message: "@ + e,
            ),
        },
{
}

/// The texts of a response come in its order, and the items without one are passed
/// over.
pub proof fn law_texts_keep_their_order(
    a: Seq<json::JsonView>,
    b: Seq<json::JsonView>,
    one: json::JsonView,
)
    ensures
        item_texts(a + b) == item_texts(a) + item_texts(b),
        item_texts(seq![one]) == (match one.get_str("text"@) {
            Some(t) => seq![t],
            None => Seq::empty(),
        }),
    decreases b.len(),
{
    reveal_with_fuel(item_texts, 2);
    assert(seq![one].drop_last() =~= Seq::empty());
    if let Some(t) = one.get_str("text"@) {
        assert(item_texts(seq![one]) =~= seq![t]);
    }
    if b.len() == 0 {
        assert(a + b =~= a);
        assert(item_texts(a) + item_texts(b) =~= item_texts(a));
    } else {
        assert((a + b).drop_last() =~= a + b.drop_last());
        law_texts_keep_their_order(a, b.drop_last(), one);
        assert(item_texts(a + b) =~= item_texts(a) + item_texts(b));
    }
}

/// A call fails where the server says so, with what it says, and is not touched by
/// messages that are neither its answer nor reports under its token.
pub proof fn law_messages_of_others_do_not_matter(call: CallView, msg: json::JsonView)
    ensures
        msg.get_u64("id"@) == Some(call.id) && msg.get("error"@) is Some ==> call.step(msg)
            == CallStepView::Failed(json::json_text(msg.get("error"@)->0)),
        msg.get_u64("id"@) == Some(call.id) && msg.get("error"@) is None ==> call.step(msg) is Done,
        msg.get_u64("id"@) != Some(call.id) && msg.get_str("method"@) != Some(
            "notifications/progress"@,
        ) ==> call.step(msg) is Unrelated && call.after(msg) == call,
        msg.get_u64("id"@) != Some(call.id) && (msg.get("params"@) matches Some(p) && p.get_str(
            "progressToken"@,
        ) != Some(call.token)) ==> call.step(msg) is Unrelated && call.after(msg) == call,
        call.after(msg).id == call.id,
        call.after(msg).token == call.token,
        call.step(msg) matches CallStepView::Chunk { data, .. } ==> call.after(msg).chunks
            == call.chunks + data,
{
}

/// What a call comes to after a try: its output as it is, the error that the server
/// told, or, where the server could not be spoken to again, that.
pub proof fn law_tries_come_to_their_outcome(first: bool, output: ToolOutput, e: String)
    ensures
        recovery(first, Ok(output)) == Some(
            Ok::<tool::ToolOutputView, tool::ToolErrorView>(output.deep_view()),
        ),
        recovery(first, Err(CallError::Execution(e))) == Some(
            Err::<tool::ToolOutputView, tool::ToolErrorView>(
                tool::ToolErrorView::ExecutionFailed(e@),
            ),
        ),
        recovery(false, Err(CallError::Transport(e))) == Some(
            Err::<tool::ToolOutputView, tool::ToolErrorView>(tool::ToolErrorView::Transport(e@)),
        ),
        respawn_message(RespawnStep::Spawn, e@) == "respawn failed: "@ + e@,
        respawn_message(RespawnStep::Initialize, e@) == "respawn initialize: "@ + e@,
        respawn_message(RespawnStep::ListTools, e@) == "respawn tools/list: "@ + e@,
{
}

/// A server is started by the command of its entry, with its arguments, and is told
/// every other member of the configuration, and none of these two.
pub proof fn law_servers_are_started_as_configured(entry: ToolsetEntry)
    ensures
        launch(entry) is Some <==> (entry.config.member("command"@) matches Some(Toml::Str(_))),
        launch(entry) matches Some(l) ==> {
            &&& entry.config.member("command"@) matches Some(Toml::Str(c)) && l.command == c@
            &&& entry.config.member("args"@) matches Some(args) ==> l.args == args.texts()
            &&& entry.config.member("args"@) is None ==> l.args.len() == 0
            &&& entry.id matches Some(id) ==> l.id == id@
            &&& l.init_params.get("command"@) is None
            &&& l.init_params.get("args"@) is None
            &&& forall|key: Seq<char>|
                key != "command"@ && key != "args"@ ==> #[trigger] l.init_params.get(key)
                    == manifest::toml_json(entry.config).get(key)
        },
{
    reveal_strlit("command");
    reveal_strlit("args");
    assert("command"@.len() == 7);
    assert("args"@.len() == 4);
}

/// Ids count up, and start anew after the last.
pub proof fn law_ids_count_up(n: u64)
    ensures
        n < u64::MAX ==> bumped(n) == n + 1,
        bumped(u64::MAX) == 0,
{
}

/// No two calls report under one token, as long as the numbers last.
pub proof fn law_tokens_differ(a: u64, b: u64)
    ensures
        progress_token(a) == progress_token(b) <==> a == b,
{
    text::lemma_decimal(a as nat);
    text::lemma_decimal(b as nat);
    let x = progress_token(a);
    let y = progress_token(b);
    assert(x.skip("p"@.len() as int) =~= text::decimal(a as nat));
    assert(y.skip("p"@.len() as int) =~= text::decimal(b as nat));
}

} // verus!
