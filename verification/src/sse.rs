//! Streamed responses of the Anthropic provider: the lines of a stream of
//! server-sent events become chunks as they come, and a response at the end.

use crate::anthropic;
use crate::anthropic::{count_of, stop_reason_of};
use crate::json;
use crate::json::{string_in, Json};
use crate::provider;
use crate::provider::{ProviderError, Response, StopReason, Usage};
use crate::text;
use crate::text::{chars_of, is_blank, same, starts_with, string_of};
use crate::types;
use crate::types::{Content, StreamChunk};
use vstd::prelude::*;
use vstd::string::*;

verus! {

/// A stream under way.
#[derive(Debug)]
pub struct SseStream {
    content: Vec<Content>,
    usage: Usage,
    stop_reason: StopReason,
    text: String,
    tool_id: String,
    tool_name: String,
    tool_json: String,
}

#[verifier::ext_equal]
pub ghost struct SseView {
    /// The content that is complete.
    pub content: Seq<types::ContentView>,
    pub usage: Usage,
    pub stop_reason: StopReason,
    /// The text since the last tool call.
    pub text: Seq<char>,
    /// The tool call under way; its id is empty where there is none.
    pub tool_id: Seq<char>,
    pub tool_name: Seq<char>,
    pub tool_json: Seq<char>,
}

impl View for SseStream {
    type V = SseView;

    closed spec fn view(&self) -> SseView {
        SseView {
            content: self.content.deep_view(),
            usage: self.usage,
            stop_reason: self.stop_reason,
            text: self.text@,
            tool_id: self.tool_id@,
            tool_name: self.tool_name@,
            tool_json: self.tool_json@,
        }
    }
}

/// A stream of which nothing came yet.
pub open spec fn new_stream() -> SseView {
    SseView {
        content: Seq::empty(),
        usage: provider::no_usage(),
        stop_reason: StopReason::EndTurn,
        text: Seq::empty(),
        tool_id: Seq::empty(),
        tool_name: Seq::empty(),
        tool_json: Seq::empty(),
    }
}

/// The member `key` of an event, or null.
pub open spec fn part(event: json::JsonView, key: Seq<char>) -> json::JsonView {
    match event.get(key) {
        Some(doc) => doc,
        None => json::JsonView::Null,
    }
}

/// What an event makes of a stream: the stream after it, the chunk to pass on,
/// if there is one, and whether the stream is over.
#[verifier::ext_equal]
pub ghost struct SseMove {
    pub stream: SseView,
    pub chunk: Option<types::StreamChunkView>,
    pub over: bool,
}

impl SseView {
    /// The content, with the text that was not complete yet.
    pub open spec fn flushed(self) -> Seq<types::ContentView> {
        if self.text.len() == 0 {
            self.content
        } else {
            self.content.push(types::ContentView::Text(self.text))
        }
    }

    /// The response that the stream comes to if it ends here.
    pub open spec fn response(self) -> provider::ResponseView {
        provider::ResponseView {
            content: self.flushed(),
            usage: self.usage,
            stop_reason: self.stop_reason,
        }
    }

    /// Nothing changes.
    pub open spec fn stay(self) -> SseMove {
        SseMove { stream: self, chunk: None, over: false }
    }

    /// A block starts. Only the start of a tool call matters; it completes the
    /// text before it.
    pub open spec fn block_start(self, event: json::JsonView) -> SseMove {
        let block = part(event, "content_block"@);
        if json::str_or(block, "type"@, ""@) == "tool_use"@ {
            let id = json::str_or(block, "id"@, ""@);
            let name = json::str_or(block, "name"@, ""@);
            SseMove {
                stream: SseView {
                    content: self.flushed(),
                    text: Seq::empty(),
                    tool_id: id,
                    tool_name: name,
                    tool_json: Seq::empty(),
                    ..self
                },
                chunk: Some(types::StreamChunkView::ToolCallStart { id, name }),
                over: false,
            }
        } else {
            self.stay()
        }
    }

    /// A block goes on: more text, or more of the input of a tool call.
    pub open spec fn block_delta(self, event: json::JsonView) -> SseMove {
        let delta = part(event, "delta"@);
        let kind = json::str_or(delta, "type"@, ""@);
        if kind == "text_delta"@ {
            let more = json::str_or(delta, "text"@, ""@);
            if more.len() == 0 {
                self.stay()
            } else {
                SseMove {
                    stream: SseView { text: self.text + more, ..self },
                    chunk: Some(types::StreamChunkView::Text(more)),
                    over: false,
                }
            }
        } else if kind == "input_json_delta"@ {
            let more = json::str_or(delta, "partial_json"@, ""@);
            SseMove {
                stream: SseView { tool_json: self.tool_json + more, ..self },
                chunk: Some(
                    types::StreamChunkView::ToolCallDelta { id: self.tool_id, input_json: more },
                ),
                over: false,
            }
        } else {
            self.stay()
        }
    }

    /// A block ends, which completes a tool call if one is under way. Its input
    /// was read as `parsed`; what could not be read is null.
    pub open spec fn block_stop(self, parsed: Result<json::JsonView, Seq<char>>) -> SseMove {
        if self.tool_id.len() == 0 {
            self.stay()
        } else {
            SseMove {
                stream: SseView {
                    content: self.content.push(
                        types::ContentView::ToolCall {
                            id: self.tool_id,
                            name: self.tool_name,
                            input: match parsed {
                                Ok(doc) => doc,
                                Err(_) => json::JsonView::Null,
                            },
                        },
                    ),
                    tool_id: Seq::empty(),
                    tool_name: Seq::empty(),
                    tool_json: Seq::empty(),
                    ..self
                },
                chunk: Some(types::StreamChunkView::ToolCallEnd { id: self.tool_id }),
                over: false,
            }
        }
    }

    /// The message is about to end: why, and after how many tokens.
    pub open spec fn message_delta(self, event: json::JsonView) -> SseMove {
        SseMove {
            stream: SseView {
                stop_reason: anthropic::stop_reason_in(part(event, "delta"@)),
                usage: match event.get("usage"@) {
                    Some(u) => Usage {
                        output_tokens: anthropic::count_in(u, "output_tokens"@),
                        ..self.usage
                    },
                    None => self.usage,
                },
                ..self
            },
            chunk: None,
            over: false,
        }
    }

    /// The message starts, with the tokens that it took to read the prompt.
    pub open spec fn message_start(self, event: json::JsonView) -> SseMove {
        SseMove {
            stream: SseView {
                usage: match part(event, "message"@).get("usage"@) {
                    Some(u) => Usage {
                        input_tokens: anthropic::count_in(u, "input_tokens"@),
                        cache_creation_input_tokens: anthropic::count_in(
                            u,
                            "cache_creation_input_tokens"@,
                        ),
                        cache_read_input_tokens: anthropic::count_in(
                            u,
                            "cache_read_input_tokens"@,
                        ),
                        ..self.usage
                    },
                    None => self.usage,
                },
                ..self
            },
            chunk: None,
            over: false,
        }
    }

    /// What an event makes of the stream.
    pub open spec fn take(self, event: json::JsonView) -> SseMove {
        let kind = json::str_or(event, "type"@, ""@);
        if kind == "content_block_start"@ {
            self.block_start(event)
        } else if kind == "content_block_delta"@ {
            self.block_delta(event)
        } else if kind == "content_block_stop"@ {
            self.block_stop(json::json_parsed(self.tool_json))
        } else if kind == "message_delta"@ {
            self.message_delta(event)
        } else if kind == "message_start"@ {
            self.message_start(event)
        } else if kind == "message_stop"@ {
            SseMove { stream: self, chunk: None, over: true }
        } else {
            self.stay()
        }
    }

    /// What a line makes of the stream. Only lines with data matter.
    pub open spec fn take_line(self, line: Seq<char>) -> Result<SseMove, Seq<char>> {
        match line_data(line) {
            None => Ok(self.stay()),
            Some(data) => match json::json_parsed(data) {
                Ok(event) => Ok(self.take(event)),
                Err(e) => Err("SSE JSON: "@ + e),
            },
        }
    }
}

/// The data on a line, where there is any.
pub open spec fn line_data(line: Seq<char>) -> Option<Seq<char>> {
    if !text::begins_with(line, "data: "@) {
        None
    } else {
        let data = line.skip("data: "@.len() as int);
        if text::trim(data).len() == 0 {
            None
        } else {
            Some(data)
        }
    }
}

/// What a line of a stream comes to.
#[derive(Debug)]
pub struct SseStep {
    /// The chunk to pass on.
    pub chunk: Option<StreamChunk>,
    /// Whether the stream is over.
    pub over: bool,
}

fn part_of<'a>(event: &'a Json, key: &str, null: &'a Json) -> (r: &'a Json)
    requires
        null.deep_view() == json::JsonView::Null,
    ensures
        r.deep_view() == part(event.deep_view(), key@),
{
    match event.get(key) {
        Some(doc) => doc,
        None => null,
    }
}

fn stays() -> (r: SseStep)
    ensures
        r.chunk is None,
        !r.over,
{
    SseStep { chunk: None, over: false }
}

/// Whether a step is what a move says.
pub open spec fn is_step(step: SseStep, done: SseMove) -> bool {
    step.chunk.deep_view() == done.chunk && step.over == done.over
}

/// The data on a line, where there is any.
pub fn data_on(line: &str) -> (r: Option<String>)
    ensures
        r.deep_view() == line_data(line@),
{
    let prefix = "data: ";
    if !starts_with(line, prefix) {
        return None;
    }
    let v = chars_of(line);
    let n: usize = prefix.unicode_len();
    let data = string_of(&v, n, v.len());
    assert(data@ =~= line@.skip("data: "@.len() as int));
    if is_blank(data.as_str()) {
        None
    } else {
        Some(data)
    }
}

impl SseStream {
    pub fn new() -> (r: Self)
        ensures
            r@ == new_stream(),
    {
        let r = SseStream {
            content: Vec::new(),
            usage: Usage::default(),
            stop_reason: StopReason::EndTurn,
            text: String::new(),
            tool_id: String::new(),
            tool_name: String::new(),
            tool_json: String::new(),
        };
        assert(r@.content =~= Seq::empty());
        assert(r@.text =~= Seq::empty());
        assert(r@.tool_id =~= Seq::empty());
        assert(r@.tool_name =~= Seq::empty());
        assert(r@.tool_json =~= Seq::empty());
        r
    }

    fn flush(&mut self)
        ensures
            final(self)@ == (SseView {
                content: old(self)@.flushed(),
                text: Seq::empty(),
                ..old(self)@
            }),
    {
        let ghost before = self.content.deep_view();
        let ghost said = self.text@;
        if self.text.as_str().unicode_len() > 0 {
            self.content.push(Content::Text(self.text.clone()));
            assert(self.content.deep_view() =~= before.push(types::ContentView::Text(said)));
        }
        self.text = String::new();
        assert(self.text@ =~= Seq::empty());
    }

    fn start_block(&mut self, event: &Json) -> (r: SseStep)
        ensures
            final(self)@ == old(self)@.block_start(event.deep_view()).stream,
            is_step(r, old(self)@.block_start(event.deep_view())),
    {
        let null = Json::Null;
        let block = part_of(event, "content_block", &null);
        if !same(string_in(block, "type", "").as_str(), "tool_use") {
            return stays();
        }
        self.flush();
        self.tool_id = string_in(block, "id", "");
        self.tool_name = string_in(block, "name", "");
        self.tool_json = String::new();
        assert(self.tool_json@ =~= Seq::empty());
        SseStep {
            chunk: Some(
                StreamChunk::ToolCallStart {
                    id: self.tool_id.clone(),
                    name: self.tool_name.clone(),
                },
            ),
            over: false,
        }
    }

    fn extend_block(&mut self, event: &Json) -> (r: SseStep)
        ensures
            final(self)@ == old(self)@.block_delta(event.deep_view()).stream,
            is_step(r, old(self)@.block_delta(event.deep_view())),
    {
        let null = Json::Null;
        let delta = part_of(event, "delta", &null);
        let kind = string_in(delta, "type", "");
        if same(kind.as_str(), "text_delta") {
            let more = string_in(delta, "text", "");
            if more.as_str().unicode_len() == 0 {
                return stays();
            }
            self.text.push_str(more.as_str());
            SseStep { chunk: Some(StreamChunk::Text(more)), over: false }
        } else if same(kind.as_str(), "input_json_delta") {
            let more = string_in(delta, "partial_json", "");
            self.tool_json.push_str(more.as_str());
            SseStep {
                chunk: Some(
                    StreamChunk::ToolCallDelta { id: self.tool_id.clone(), input_json: more },
                ),
                over: false,
            }
        } else {
            stays()
        }
    }

    /// Ends a block, where the input of the tool call under way was read as
    /// `parsed`.
    pub fn end_block(&mut self, parsed: Result<Json, String>) -> (r: SseStep)
        ensures
            ({
                let read = match parsed {
                    Ok(doc) => Ok(doc.deep_view()),
                    Err(e) => Err(e@),
                };
                &&& final(self)@ == old(self)@.block_stop(read).stream
                &&& is_step(r, old(self)@.block_stop(read))
            }),
    {
        if self.tool_id.as_str().unicode_len() == 0 {
            return stays();
        }
        let ghost before = self.content.deep_view();
        let input = match parsed {
            Ok(doc) => doc,
            Err(_) => Json::Null,
        };
        let id = self.tool_id.clone();
        let call = Content::ToolCall { id: self.tool_id.clone(), name: self.tool_name.clone(), input };
        let ghost view = call.deep_view();
        self.content.push(call);
        assert(self.content.deep_view() =~= before.push(view));
        self.tool_id = String::new();
        self.tool_name = String::new();
        self.tool_json = String::new();
        assert(self.tool_id@ =~= Seq::empty());
        assert(self.tool_name@ =~= Seq::empty());
        assert(self.tool_json@ =~= Seq::empty());
        SseStep { chunk: Some(StreamChunk::ToolCallEnd { id }), over: false }
    }

    /// Takes in an event.
    pub fn take_event(&mut self, event: &Json) -> (r: SseStep)
        ensures
            final(self)@ == old(self)@.take(event.deep_view()).stream,
            is_step(r, old(self)@.take(event.deep_view())),
    {
        let kind_text = string_in(event, "type", "");
        let kind = kind_text.as_str();
        let null = Json::Null;
        if same(kind, "content_block_start") {
            self.start_block(event)
        } else if same(kind, "content_block_delta") {
            self.extend_block(event)
        } else if same(kind, "content_block_stop") {
            let parsed = Json::parse(self.tool_json.as_str());
            self.end_block(parsed)
        } else if same(kind, "message_delta") {
            self.stop_reason = stop_reason_of(part_of(event, "delta", &null));
            match event.get("usage") {
                Some(u) => {
                    self.usage.output_tokens = count_of(u, "output_tokens");
                },
                None => {},
            }
            stays()
        } else if same(kind, "message_start") {
            let message = part_of(event, "message", &null);
            match message.get("usage") {
                Some(u) => {
                    self.usage.input_tokens = count_of(u, "input_tokens");
                    self.usage.cache_creation_input_tokens = count_of(
                        u,
                        "cache_creation_input_tokens",
                    );
                    self.usage.cache_read_input_tokens = count_of(u, "cache_read_input_tokens");
                },
                None => {},
            }
            stays()
        } else if same(kind, "message_stop") {
            SseStep { chunk: None, over: true }
        } else {
            stays()
        }
    }

    /// Takes in a line.
    pub fn take_line(&mut self, line: &str) -> (r: Result<SseStep, ProviderError>)
        ensures
            match (old(self)@.take_line(line@), r) {
                (Ok(done), Ok(step)) => final(self)@ == done.stream && is_step(step, done),
                (Err(e), Err(error)) => final(self)@ == old(self)@ && error.deep_view()
                    == provider::ProviderErrorView::Parse(e),
                _ => false,
            },
    {
        match data_on(line) {
            None => Ok(stays()),
            Some(data) => match Json::parse(data.as_str()) {
                Ok(event) => Ok(self.take_event(&event)),
                Err(e) => {
                    let mut message = "SSE JSON: ".to_owned();
                    message.push_str(e.as_str());
                    Err(ProviderError::Parse(message))
                },
            },
        }
    }

    /// The response that the stream came to. The end mark is the last chunk.
    pub fn finish(self) -> (r: (Response, StreamChunk))
        ensures
            r.0.deep_view() == self@.response(),
            r.1.deep_view() == types::StreamChunkView::Done,
    {
        let mut stream = self;
        stream.flush();
        (
            Response {
                content: stream.content,
                usage: stream.usage,
                stop_reason: stream.stop_reason,
            },
            StreamChunk::Done,
        )
    }
}

// ---------------------------------------------------------------------------
// Whole streams
// ---------------------------------------------------------------------------

/// The chunks with one more, if there is one.
pub open spec fn with_chunk(
    chunks: Seq<types::StreamChunkView>,
    chunk: Option<types::StreamChunkView>,
) -> Seq<types::StreamChunkView> {
    match chunk {
        Some(c) => chunks.push(c),
        None => chunks,
    }
}

/// What the lines from position `i` on come to, after some chunks.
pub open spec fn run_from(
    lines: Seq<Seq<char>>,
    i: int,
    stream: SseView,
    chunks: Seq<types::StreamChunkView>,
) -> (Seq<types::StreamChunkView>, Result<provider::ResponseView, provider::ProviderErrorView>)
    decreases lines.len() - i,
{
    if i < 0 || i >= lines.len() {
        (chunks.push(types::StreamChunkView::Done), Ok(stream.response()))
    } else {
        match stream.take_line(lines[i]) {
            Err(e) => (chunks, Err(provider::ProviderErrorView::Parse(e))),
            Ok(done) => {
                let chunks = with_chunk(chunks, done.chunk);
                if done.over {
                    (chunks.push(types::StreamChunkView::Done), Ok(done.stream.response()))
                } else {
                    run_from(lines, i + 1, done.stream, chunks)
                }
            },
        }
    }
}

/// The chunks of a whole stream, and the response that it comes to. What stands
/// behind the end of the message is not read.
pub fn parse_sse_stream(lines: &Vec<String>) -> (r: (
    Vec<StreamChunk>,
    Result<Response, ProviderError>,
))
    ensures
        (r.0.deep_view(), anthropic::completion_view(r.1)) == run_from(
            lines.deep_view(),
            0,
            new_stream(),
            Seq::empty(),
        ),
{
    let ghost all = lines.deep_view();
    let ghost whole = run_from(all, 0, new_stream(), Seq::empty());
    let mut stream = SseStream::new();
    let mut chunks: Vec<StreamChunk> = Vec::new();
    let mut i: usize = 0;
    let mut over = false;
    assert(chunks.deep_view() =~= Seq::empty());
    while i < lines.len() && !over
        invariant
            all == lines.deep_view(),
            whole == run_from(all, 0, new_stream(), Seq::empty()),
            i <= all.len() == lines@.len(),
            !over ==> whole == run_from(all, i as int, stream@, chunks.deep_view()),
            over ==> whole == (
                chunks.deep_view().push(types::StreamChunkView::Done),
                Ok::<provider::ResponseView, provider::ProviderErrorView>(stream@.response()),
            ),
        decreases all.len() - i,
    {
        let ghost before = chunks.deep_view();
        match stream.take_line(lines[i].as_str()) {
            Err(e) => {
                return (chunks, Err(e));
            },
            Ok(step) => {
                match step.chunk {
                    Some(chunk) => {
                        let ghost view = chunk.deep_view();
                        chunks.push(chunk);
                        assert(chunks.deep_view() =~= before.push(view));
                    },
                    None => {},
                }
                over = step.over;
            },
        }
        i += 1;
    }
    let ghost before = chunks.deep_view();
    let (response, done) = stream.finish();
    chunks.push(done);
    assert(chunks.deep_view() =~= before.push(types::StreamChunkView::Done));
    (chunks, Ok(response))
}

// ---------------------------------------------------------------------------
// Laws
// ---------------------------------------------------------------------------

/// The text of some chunks, put together.
pub open spec fn chunk_text(chunks: Seq<types::StreamChunkView>) -> Seq<char>
    decreases chunks.len(),
{
    if chunks.len() == 0 {
        Seq::empty()
    } else {
        let rest = chunk_text(chunks.drop_last());
        match chunks.last() {
            types::StreamChunkView::Text(t) => rest + t,
            _ => rest,
        }
    }
}

/// The text of some content, put together.
pub open spec fn content_text(content: Seq<types::ContentView>) -> Seq<char>
    decreases content.len(),
{
    if content.len() == 0 {
        Seq::empty()
    } else {
        let rest = content_text(content.drop_last());
        match content.last() {
            types::ContentView::Text(t) => rest + t,
            _ => rest,
        }
    }
}

/// The tool calls that some chunks end.
pub open spec fn ended_calls(chunks: Seq<types::StreamChunkView>) -> Seq<Seq<char>>
    decreases chunks.len(),
{
    if chunks.len() == 0 {
        Seq::empty()
    } else {
        let rest = ended_calls(chunks.drop_last());
        match chunks.last() {
            types::StreamChunkView::ToolCallEnd { id } => rest.push(id),
            _ => rest,
        }
    }
}

/// The ids of the tool calls in some content.
pub open spec fn call_ids(content: Seq<types::ContentView>) -> Seq<Seq<char>>
    decreases content.len(),
{
    if content.len() == 0 {
        Seq::empty()
    } else {
        let rest = call_ids(content.drop_last());
        match content.last() {
            types::ContentView::ToolCall { id, .. } => rest.push(id),
            _ => rest,
        }
    }
}

/// Whether the chunks passed on so far and the stream tell the same.
pub open spec fn in_step(stream: SseView, chunks: Seq<types::StreamChunkView>) -> bool {
    &&& chunk_text(chunks) == content_text(stream.content) + stream.text
    &&& ended_calls(chunks) == call_ids(stream.content)
}

proof fn lemma_pushed(chunks: Seq<types::StreamChunkView>, c: types::StreamChunkView)
    ensures
        chunk_text(chunks.push(c)) == (match c {
            types::StreamChunkView::Text(t) => chunk_text(chunks) + t,
            _ => chunk_text(chunks),
        }),
        ended_calls(chunks.push(c)) == (match c {
            types::StreamChunkView::ToolCallEnd { id } => ended_calls(chunks).push(id),
            _ => ended_calls(chunks),
        }),
{
    assert(chunks.push(c).drop_last() =~= chunks);
}

proof fn lemma_content_pushed(content: Seq<types::ContentView>, c: types::ContentView)
    ensures
        content_text(content.push(c)) == (match c {
            types::ContentView::Text(t) => content_text(content) + t,
            _ => content_text(content),
        }),
        call_ids(content.push(c)) == (match c {
            types::ContentView::ToolCall { id, .. } => call_ids(content).push(id),
            _ => call_ids(content),
        }),
{
    assert(content.push(c).drop_last() =~= content);
}

proof fn lemma_flushed(stream: SseView)
    ensures
        content_text(stream.flushed()) == content_text(stream.content) + stream.text,
        call_ids(stream.flushed()) == call_ids(stream.content),
{
    lemma_content_pushed(stream.content, types::ContentView::Text(stream.text));
    if stream.text.len() == 0 {
        assert(content_text(stream.content) + stream.text =~= content_text(stream.content));
    }
}

/// An event keeps what was passed on and the stream in step.
proof fn lemma_take_in_step(
    stream: SseView,
    chunks: Seq<types::StreamChunkView>,
    event: json::JsonView,
)
    requires
        in_step(stream, chunks),
    ensures
        in_step(stream.take(event).stream, with_chunk(chunks, stream.take(event).chunk)),
{
    let done = stream.take(event);
    match done.chunk {
        Some(c) => {
            lemma_pushed(chunks, c);
        },
        None => {},
    }
    lemma_flushed(stream);
    let kind = json::str_or(event, "type"@, ""@);
    if kind == "content_block_start"@ {
        assert(content_text(stream.flushed()) + Seq::empty() =~= content_text(stream.flushed()));
    } else if kind == "content_block_delta"@ {
        let more = json::str_or(part(event, "delta"@), "text"@, ""@);
        assert(content_text(stream.content) + (stream.text + more) =~= content_text(stream.content)
            + stream.text + more);
    } else if kind == "content_block_stop"@ {
        if stream.tool_id.len() > 0 {
            lemma_content_pushed(stream.content, done.stream.content.last());
        }
    }
}

proof fn lemma_run_in_step(
    lines: Seq<Seq<char>>,
    i: int,
    stream: SseView,
    chunks: Seq<types::StreamChunkView>,
)
    requires
        in_step(stream, chunks),
        0 <= i,
    ensures
        ({
            let (all, result) = run_from(lines, i, stream, chunks);
            result matches Ok(response) ==> chunk_text(all) == content_text(response.content)
                && ended_calls(all) == call_ids(response.content)
        }),
    decreases lines.len() - i,
{
    if i >= lines.len() {
        lemma_pushed(chunks, types::StreamChunkView::Done);
        lemma_flushed(stream);
    } else {
        match stream.take_line(lines[i]) {
            Err(_) => {},
            Ok(done) => {
                match line_data(lines[i]) {
                    Some(data) => match json::json_parsed(data) {
                        Ok(event) => {
                            lemma_take_in_step(stream, chunks, event);
                        },
                        Err(_) => {},
                    },
                    None => {},
                }
                let more = with_chunk(chunks, done.chunk);
                if done.over {
                    lemma_pushed(more, types::StreamChunkView::Done);
                    lemma_flushed(done.stream);
                } else {
                    lemma_run_in_step(lines, i + 1, done.stream, more);
                }
            },
        }
    }
}

/// What is passed on while a response is streamed tells the same as the
/// response in the end: the same text, and the same tool calls in the same
/// order.
pub proof fn law_streams_tell_the_response(lines: Seq<Seq<char>>)
    ensures
        ({
            let (chunks, result) = run_from(lines, 0, new_stream(), Seq::empty());
            result matches Ok(response) ==> chunk_text(chunks) == content_text(response.content)
                && ended_calls(chunks) == call_ids(response.content) && chunks.last()
                == types::StreamChunkView::Done
        }),
{
    assert(content_text(Seq::empty()) + Seq::empty() =~= Seq::<char>::empty());
    lemma_run_in_step(lines, 0, new_stream(), Seq::empty());
    lemma_run_is_marked(lines, 0, new_stream(), Seq::empty());
}

proof fn lemma_run_is_marked(
    lines: Seq<Seq<char>>,
    i: int,
    stream: SseView,
    chunks: Seq<types::StreamChunkView>,
)
    ensures
        ({
            let (all, result) = run_from(lines, i, stream, chunks);
            result is Ok ==> all.len() > 0 && all.last() == types::StreamChunkView::Done
        }),
    decreases lines.len() - i,
{
    if 0 <= i < lines.len() {
        match stream.take_line(lines[i]) {
            Err(_) => {},
            Ok(done) => {
                lemma_run_is_marked(lines, i + 1, done.stream, with_chunk(chunks, done.chunk));
            },
        }
    }
}

/// Whether one of the first `n` chunks starts the call `id` of the tool `name`.
pub open spec fn starts_call(
    chunks: Seq<types::StreamChunkView>,
    n: int,
    id: Seq<char>,
    name: Seq<char>,
) -> bool {
    exists|j: int|
        0 <= j < n && #[trigger] chunks[j] == (types::StreamChunkView::ToolCallStart { id, name })
}

/// Whether one of the first `n` chunks starts the call `id`.
pub open spec fn starts_some_call(
    chunks: Seq<types::StreamChunkView>,
    n: int,
    id: Seq<char>,
) -> bool {
    exists|name: Seq<char>| #[trigger] starts_call(chunks, n, id, name)
}

/// Whether each call that the chunks end was started before.
pub open spec fn ends_follow_starts(chunks: Seq<types::StreamChunkView>) -> bool {
    forall|k: int|
        0 <= k < chunks.len() ==> (#[trigger] chunks[k] matches types::StreamChunkView::ToolCallEnd {
            id,
        } ==> starts_some_call(chunks, k, id))
}

/// Whether the chunks start each tool call of some content.
pub open spec fn announces(
    chunks: Seq<types::StreamChunkView>,
    content: Seq<types::ContentView>,
) -> bool {
    forall|k: int|
        0 <= k < content.len() ==> (#[trigger] content[k] matches types::ContentView::ToolCall {
            id,
            name,
            ..
        } ==> starts_call(chunks, chunks.len() as int, id, name))
}

/// Whether none of the chunks marks the end.
pub open spec fn unended(chunks: Seq<types::StreamChunkView>) -> bool {
    forall|k: int| 0 <= k < chunks.len() ==> !(#[trigger] chunks[k] is Done)
}

/// Whether what was passed on so far tells of every call in the stream.
pub open spec fn in_order(stream: SseView, chunks: Seq<types::StreamChunkView>) -> bool {
    &&& announces(chunks, stream.content)
    &&& ends_follow_starts(chunks)
    &&& unended(chunks)
    &&& stream.tool_id.len() > 0 ==> starts_call(
        chunks,
        chunks.len() as int,
        stream.tool_id,
        stream.tool_name,
    )
}

/// What the chunks start they still start with one more behind them.
proof fn lemma_still_starts(chunks: Seq<types::StreamChunkView>, c: types::StreamChunkView)
    ensures
        forall|n: int, id: Seq<char>, name: Seq<char>|
            n <= chunks.len() && starts_call(chunks, n, id, name) ==> #[trigger] starts_call(
                chunks.push(c),
                n,
                id,
                name,
            ),
        forall|id: Seq<char>, name: Seq<char>|
            starts_call(chunks, chunks.len() as int, id, name) ==> #[trigger] starts_call(
                chunks.push(c),
                (chunks.len() + 1) as int,
                id,
                name,
            ),
        ends_follow_starts(chunks) && (c matches types::StreamChunkView::ToolCallEnd { id }
            ==> starts_some_call(chunks, chunks.len() as int, id)) ==> ends_follow_starts(
            chunks.push(c),
        ),
{
    let more = chunks.push(c);
    assert forall|n: int, id: Seq<char>, name: Seq<char>|
        n <= chunks.len() && starts_call(chunks, n, id, name) implies #[trigger] starts_call(
        more,
        n,
        id,
        name,
    ) by {
        let j = choose|j: int|
            0 <= j < n && #[trigger] chunks[j] == (types::StreamChunkView::ToolCallStart {
                id,
                name,
            });
        assert(more[j] == chunks[j]);
    }
    assert forall|id: Seq<char>, name: Seq<char>|
        starts_call(chunks, chunks.len() as int, id, name) implies #[trigger] starts_call(
        more,
        (chunks.len() + 1) as int,
        id,
        name,
    ) by {
        assert(starts_call(more, chunks.len() as int, id, name));
        let j = choose|j: int|
            0 <= j < chunks.len() && #[trigger] more[j] == (types::StreamChunkView::ToolCallStart {
                id,
                name,
            });
        assert(0 <= j < chunks.len() + 1);
    }
    if ends_follow_starts(chunks) && (c matches types::StreamChunkView::ToolCallEnd { id }
        ==> starts_some_call(chunks, chunks.len() as int, id)) {
        assert forall|k: int| 0 <= k < more.len() implies (
            #[trigger] more[k] matches types::StreamChunkView::ToolCallEnd { id }
            ==> starts_some_call(more, k, id)) by {
            match more[k] {
                types::StreamChunkView::ToolCallEnd { id } => {
                    if k < chunks.len() {
                        assert(chunks[k] == more[k]);
                    }
                    assert(starts_some_call(chunks, k, id));
                    let name = choose|name: Seq<char>| #[trigger] starts_call(chunks, k, id, name);
                    assert(starts_call(more, k, id, name));
                },
                _ => {},
            }
        }
    }
}

/// An event keeps the order.
proof fn lemma_take_in_order(
    stream: SseView,
    chunks: Seq<types::StreamChunkView>,
    event: json::JsonView,
)
    requires
        in_order(stream, chunks),
    ensures
        in_order(stream.take(event).stream, with_chunk(chunks, stream.take(event).chunk)),
{
    let done = stream.take(event);
    match done.chunk {
        Some(c) => {
            lemma_still_starts(chunks, c);
            let more = chunks.push(c);
            assert(more.last() == c);
            match c {
                types::StreamChunkView::ToolCallStart { id, name } => {
                    assert(more[chunks.len() as int] == c);
                    assert(starts_call(more, more.len() as int, id, name));
                },
                types::StreamChunkView::ToolCallEnd { id } => {
                    assert(starts_call(chunks, chunks.len() as int, id, stream.tool_name));
                },
                _ => {},
            }
        },
        None => {},
    }
}

proof fn lemma_run_in_order(
    lines: Seq<Seq<char>>,
    i: int,
    stream: SseView,
    chunks: Seq<types::StreamChunkView>,
)
    requires
        in_order(stream, chunks),
        0 <= i,
    ensures
        ({
            let (all, result) = run_from(lines, i, stream, chunks);
            &&& ends_follow_starts(all)
            &&& match result {
                Ok(response) => announces(all, response.content) && all.len() > 0 && unended(
                    all.drop_last(),
                ) && all.last() is Done,
                Err(_) => unended(all),
            }
        }),
    decreases lines.len() - i,
{
    if i >= lines.len() {
        lemma_still_starts(chunks, types::StreamChunkView::Done);
        assert(chunks.push(types::StreamChunkView::Done).drop_last() =~= chunks);
    } else {
        match stream.take_line(lines[i]) {
            Err(_) => {},
            Ok(done) => {
                match line_data(lines[i]) {
                    Some(data) => match json::json_parsed(data) {
                        Ok(event) => {
                            lemma_take_in_order(stream, chunks, event);
                        },
                        Err(_) => {},
                    },
                    None => {},
                }
                let more = with_chunk(chunks, done.chunk);
                if done.over {
                    lemma_still_starts(more, types::StreamChunkView::Done);
                    assert(more.push(types::StreamChunkView::Done).drop_last() =~= more);
                } else {
                    lemma_run_in_order(lines, i + 1, done.stream, more);
                }
            },
        }
    }
}

/// Every tool call of a streamed response was announced by its start, with its
/// id and its name, and no call ends that was not started before. This last
/// holds of streams that break off too.
pub proof fn law_calls_are_announced(lines: Seq<Seq<char>>)
    ensures
        ({
            let (chunks, result) = run_from(lines, 0, new_stream(), Seq::empty());
            &&& ends_follow_starts(chunks)
            &&& result matches Ok(response) ==> announces(chunks, response.content)
        }),
{
    lemma_run_in_order(lines, 0, new_stream(), Seq::empty());
}

/// The mark of the end comes once, behind everything else, where a stream comes
/// to a response, and never where it breaks off.
pub proof fn law_the_end_comes_once(lines: Seq<Seq<char>>)
    ensures
        ({
            let (chunks, result) = run_from(lines, 0, new_stream(), Seq::empty());
            match result {
                Ok(_) => chunks.len() > 0 && chunks.last() is Done && unended(chunks.drop_last()),
                Err(_) => unended(chunks),
            }
        }),
{
    lemma_run_in_order(lines, 0, new_stream(), Seq::empty());
}

proof fn lemma_event_words_differ()
    ensures
        "content_block_start"@.len() == 19,
        "content_block_delta"@.len() == 19,
        "content_block_stop"@.len() == 18,
        "message_delta"@.len() == 13 && "message_delta"@[8] == 'd',
        "message_start"@.len() == 13 && "message_start"@[8] == 's',
        "message_stop"@.len() == 12,
        "content_block_start"@[14] == 's',
        "content_block_delta"@[14] == 'd',
        "text_delta"@.len() == 10,
        "input_json_delta"@.len() == 16,
{
    reveal_strlit("content_block_start");
    reveal_strlit("content_block_delta");
    reveal_strlit("content_block_stop");
    reveal_strlit("message_delta");
    reveal_strlit("message_start");
    reveal_strlit("message_stop");
    reveal_strlit("text_delta");
    reveal_strlit("input_json_delta");
}

/// What the events of a stream do: text is passed on as it comes and added to what
/// was said; a tool call starts with its id and name; its input comes in parts,
/// which are passed on and put together; and the end of its block makes it a call
/// of that id and name, with the document that the parts together hold. The end of
/// the message ends the stream, and unknown events change nothing.
pub proof fn law_what_events_do(stream: SseView, event: json::JsonView)
    ensures
        ({
            let done = stream.take(event);
            let kind = event.get_str("type"@);
            let delta = match event.get("delta"@) {
                Some(d) => d,
                None => json::JsonView::Null,
            };
            let block = match event.get("content_block"@) {
                Some(b) => b,
                None => json::JsonView::Null,
            };
            &&& kind == Some("content_block_delta"@) && delta.get_str("type"@) == Some(
                "text_delta"@,
            ) ==> (delta.get_str("text"@) matches Some(t) ==> {
                &&& done.stream == (SseView { text: stream.text + t, ..stream })
                &&& t.len() > 0 ==> done.chunk == Some(types::StreamChunkView::Text(t))
                &&& t.len() == 0 ==> done.chunk is None
            })
            &&& kind == Some("content_block_delta"@) && delta.get_str("type"@) == Some(
                "input_json_delta"@,
            ) ==> (delta.get_str("partial_json"@) matches Some(t) ==> {
                &&& done.stream == (SseView { tool_json: stream.tool_json + t, ..stream })
                &&& done.chunk == Some(
                    types::StreamChunkView::ToolCallDelta { id: stream.tool_id, input_json: t },
                )
            })
            &&& kind == Some("content_block_start"@) && block.get_str("type"@) == Some("tool_use"@)
                && block.get_str("id"@) is Some && block.get_str("name"@) is Some ==> {
                let id = block.get_str("id"@)->0;
                let name = block.get_str("name"@)->0;
                &&& done.stream.tool_id == id && done.stream.tool_name == name
                &&& done.stream.tool_json.len() == 0 && done.stream.text.len() == 0
                &&& done.stream.content == (if stream.text.len() == 0 {
                    stream.content
                } else {
                    stream.content.push(types::ContentView::Text(stream.text))
                })
                &&& done.chunk == Some(types::StreamChunkView::ToolCallStart { id, name })
            }
            &&& kind == Some("content_block_stop"@) && stream.tool_id.len() > 0 ==> {
                &&& done.stream.content.len() == stream.content.len() + 1
                &&& done.stream.content.drop_last() == stream.content
                &&& done.stream.content.last() matches types::ContentView::ToolCall {
                    id,
                    name,
                    input,
                } && id == stream.tool_id && name == stream.tool_name && (json::json_parsed(
                    stream.tool_json,
                ) matches Ok(doc) ==> input == doc)
                &&& done.stream.tool_id.len() == 0
                &&& done.chunk == Some(types::StreamChunkView::ToolCallEnd { id: stream.tool_id })
            }
            &&& kind == Some("message_stop"@) <==> done.over
            &&& kind is None ==> done.stream == stream && done.chunk is None
        }),
{
    lemma_event_words_differ();
    reveal_strlit("");
    assert(""@.len() == 0);
    let done = stream.take(event);
    if event.get_str("type"@) == Some("content_block_stop"@) && stream.tool_id.len() > 0 {
        assert(done.stream.content.drop_last() =~= stream.content);
    }
    if event.get_str("type"@) == Some("content_block_delta"@) {
        assert(stream.text + Seq::empty() =~= stream.text);
        let t = json::str_or(part(event, "delta"@), "text"@, ""@);
        if t.len() == 0 {
            assert(stream.text + t =~= stream.text);
        }
    }
}

/// The counts of a stream: what the prompt took is told at the start of the
/// message, and what was said at its end, with the reason why it ended.
pub proof fn law_streams_count_tokens(stream: SseView, event: json::JsonView)
    ensures
        event.get_str("type"@) == Some("message_start"@) ==> {
            let done = stream.take(event);
            let usage = match event.get("message"@) {
                Some(m) => m.get("usage"@),
                None => None,
            };
            &&& done.chunk is None && !done.over
            &&& usage matches Some(u) ==> {
                &&& u.get_u64("input_tokens"@) matches Some(n) ==> done.stream.usage.input_tokens
                    == n as usize
                &&& u.get_u64("cache_creation_input_tokens"@) matches Some(n)
                    ==> done.stream.usage.cache_creation_input_tokens == n as usize
                &&& u.get_u64("cache_read_input_tokens"@) matches Some(n)
                    ==> done.stream.usage.cache_read_input_tokens == n as usize
                &&& done.stream.usage.output_tokens == stream.usage.output_tokens
            }
            &&& usage is None ==> done.stream == stream
        },
        event.get_str("type"@) == Some("message_delta"@) ==> {
            let done = stream.take(event);
            &&& done.chunk is None && !done.over
            &&& event.get("usage"@) matches Some(u) ==> {
                &&& u.get_u64("output_tokens"@) matches Some(n) ==> done.stream.usage.output_tokens
                    == n as usize
                &&& done.stream.usage.input_tokens == stream.usage.input_tokens
            }
            &&& event.get("delta"@) matches Some(d) ==> done.stream.stop_reason
                == anthropic::stop_reason_in(d)
            &&& done.stream.content == stream.content && done.stream.text == stream.text
        },
{
    lemma_event_words_differ();
}

/// A stream comes to a response with the content, the counts and the reason that it
/// came to, the last text included, and a line carries an event where it begins
/// with the word for data.
pub proof fn law_streams_come_to_a_response(stream: SseView, data: Seq<char>)
    ensures
        stream.response().usage == stream.usage,
        stream.response().stop_reason == stream.stop_reason,
        stream.text.len() == 0 ==> stream.response().content == stream.content,
        stream.text.len() > 0 ==> stream.response().content == stream.content.push(
            types::ContentView::Text(stream.text),
        ),
        text::trim(data).len() > 0 ==> line_data("data: "@ + data) == Some(data),
        text::trim(data).len() == 0 ==> line_data("data: "@ + data) is None,
        forall|line: Seq<char>|
            !text::begins_with(line, "data: "@) ==> #[trigger] line_data(line) is None,
        new_stream().content.len() == 0,
        new_stream().text.len() == 0,
        new_stream().stop_reason == StopReason::EndTurn,
{
    let line = "data: "@ + data;
    assert(line.subrange(0, "data: "@.len() as int) =~= "data: "@);
    assert(line.skip("data: "@.len() as int) =~= data);
}

/// A stream is read line by line: each chunk is passed on behind those before it,
/// the end of the message ends it whatever follows, a line that cannot be read
/// breaks it off, and where the lines end it is over.
pub proof fn law_streams_are_read_line_by_line(
    lines: Seq<Seq<char>>,
    i: int,
    stream: SseView,
    chunks: Seq<types::StreamChunkView>,
)
    requires
        0 <= i <= lines.len(),
    ensures
        i == lines.len() ==> run_from(lines, i, stream, chunks) == (
            chunks.push(types::StreamChunkView::Done),
            Ok::<provider::ResponseView, provider::ProviderErrorView>(stream.response()),
        ),
        i < lines.len() && line_data(lines[i]) is None ==> run_from(lines, i, stream, chunks)
            == run_from(lines, i + 1, stream, chunks),
        i < lines.len() ==> (line_data(lines[i]) matches Some(data) ==> match json::json_parsed(
            data,
        ) {
            Err(e) => run_from(lines, i, stream, chunks) == (
                chunks,
                Err::<provider::ResponseView, provider::ProviderErrorView>(
                    provider::ProviderErrorView::Parse("SSE JSON: "@ + e),
                ),
            ),
            Ok(event) => {
                let done = stream.take(event);
                let more = match done.chunk {
                    Some(c) => chunks.push(c),
                    None => chunks,
                };
                if done.over {
                    run_from(lines, i, stream, chunks) == (
                        more.push(types::StreamChunkView::Done),
                        Ok::<provider::ResponseView, provider::ProviderErrorView>(
                            done.stream.response(),
                        ),
                    )
                } else {
                    run_from(lines, i, stream, chunks) == run_from(
                        lines,
                        i + 1,
                        done.stream,
                        more,
                    )
                }
            },
        }),
{
}

} // verus!
