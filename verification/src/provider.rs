//! Providers as the kernel sees them: requests, responses and errors.

use crate::json;
use crate::text;
use crate::text::decimal_of;
use crate::types;
use crate::types::{Content, StreamChunk};
use vstd::prelude::*;
use vstd::string::*;

verus! {

/// Errors from provider operations.
#[derive(Debug)]
pub enum ProviderError {
    /// The API returned an error.
    Api { status: u16, message: String },
    /// Network or connection failure.
    Network(String),
    /// The response could not be parsed.
    Parse(String),
    /// Rate limited, with a hint when to retry if there is one.
    RateLimited { retry_after_secs: Option<u64> },
}

pub ghost enum ProviderErrorView {
    Api { status: u16, message: Seq<char> },
    Network(Seq<char>),
    Parse(Seq<char>),
    RateLimited { retry_after_secs: Option<u64> },
}

impl DeepView for ProviderError {
    type V = ProviderErrorView;

    open spec fn deep_view(&self) -> ProviderErrorView {
        match self {
            ProviderError::Api { status, message } => ProviderErrorView::Api {
                status: *status,
                message: message@,
            },
            ProviderError::Network(m) => ProviderErrorView::Network(m@),
            ProviderError::Parse(m) => ProviderErrorView::Parse(m@),
            ProviderError::RateLimited { retry_after_secs } => ProviderErrorView::RateLimited {
                retry_after_secs: *retry_after_secs,
            },
        }
    }
}

impl ProviderErrorView {
    /// The message of the error.
    pub open spec fn message(self) -> Seq<char> {
        match self {
            ProviderErrorView::Api { status, message } => "API error "@ + text::decimal(
                status as nat,
            ) + ": "@ + message,
            ProviderErrorView::Network(m) => "network error: "@ + m,
            ProviderErrorView::Parse(m) => "parse error: "@ + m,
            ProviderErrorView::RateLimited { retry_after_secs } => match retry_after_secs {
                Some(secs) => "rate limited"@ + " (retry after "@ + text::decimal(secs as nat)
                    + "s)"@,
                None => "rate limited"@,
            },
        }
    }

    /// Whether the error is worth a retry: a rate limit, a network failure or
    /// a failure on the server's side.
    pub open spec fn transient(self) -> bool {
        match self {
            ProviderErrorView::RateLimited { .. } => true,
            ProviderErrorView::Network(_) => true,
            ProviderErrorView::Api { status, .. } => 500 <= status < 600,
            ProviderErrorView::Parse(_) => false,
        }
    }
}

impl ProviderError {
    /// The message of the error.
    pub fn message(&self) -> (r: String)
        ensures
            r@ == self.deep_view().message(),
    {
        match self {
            ProviderError::Api { status, message } => {
                let mut r = "API error ".to_owned();
                r.push_str(decimal_of(*status as u64).as_str());
                r.push_str(": ");
                r.push_str(message.as_str());
                r
            },
            ProviderError::Network(m) => {
                let mut r = "network error: ".to_owned();
                r.push_str(m.as_str());
                r
            },
            ProviderError::Parse(m) => {
                let mut r = "parse error: ".to_owned();
                r.push_str(m.as_str());
                r
            },
            ProviderError::RateLimited { retry_after_secs } => {
                let mut r = "rate limited".to_owned();
                match retry_after_secs {
                    Some(secs) => {
                        r.push_str(" (retry after ");
                        r.push_str(decimal_of(*secs).as_str());
                        r.push_str("s)");
                    },
                    None => {},
                }
                r
            },
        }
    }
}

/// Whether the error is worth a retry.
pub fn is_transient(err: &ProviderError) -> (r: bool)
    ensures
        r == err.deep_view().transient(),
{
    match err {
        ProviderError::RateLimited { .. } => true,
        ProviderError::Network(_) => true,
        ProviderError::Api { status, .. } => 500 <= *status && *status < 600,
        ProviderError::Parse(_) => false,
    }
}

/// What a provider supports.
#[derive(Debug, Clone, Copy, PartialEq, Eq, Structural)]
pub struct ProviderCaps {
    pub supports_tool_use: bool,
    pub supports_vision: bool,
    pub supports_streaming: bool,
    pub max_context_tokens: usize,
}

/// Tokens that a request took.
#[derive(Debug, Clone, Copy, PartialEq, Eq, Structural)]
pub struct Usage {
    pub input_tokens: usize,
    pub output_tokens: usize,
    /// Tokens written to the prompt cache.
    pub cache_creation_input_tokens: usize,
    /// Tokens read from the prompt cache.
    pub cache_read_input_tokens: usize,
}

/// No tokens at all.
pub open spec fn no_usage() -> Usage {
    Usage {
        input_tokens: 0,
        output_tokens: 0,
        cache_creation_input_tokens: 0,
        cache_read_input_tokens: 0,
    }
}

impl Default for Usage {
    fn default() -> (r: Self)
        ensures
            r == no_usage(),
    {
        Usage {
            input_tokens: 0,
            output_tokens: 0,
            cache_creation_input_tokens: 0,
            cache_read_input_tokens: 0,
        }
    }
}

/// Why the model stopped.
#[derive(Debug, Clone, Copy, PartialEq, Eq, Structural)]
pub enum StopReason {
    EndTurn,
    ToolUse,
    MaxTokens,
    StopSequence,
}

/// The model's response to a completion request.
#[derive(Debug)]
pub struct Response {
    pub content: Vec<Content>,
    pub usage: Usage,
    pub stop_reason: StopReason,
}

#[verifier::ext_equal]
pub ghost struct ResponseView {
    pub content: Seq<types::ContentView>,
    pub usage: Usage,
    pub stop_reason: StopReason,
}

impl DeepView for Response {
    type V = ResponseView;

    open spec fn deep_view(&self) -> ResponseView {
        ResponseView {
            content: self.content.deep_view(),
            usage: self.usage,
            stop_reason: self.stop_reason,
        }
    }
}

/// The chunks that stand for one piece of content: a text is one chunk, a tool
/// call is its start, its whole input and its end.
pub open spec fn content_chunks(c: types::ContentView) -> Seq<types::StreamChunkView> {
    match c {
        types::ContentView::Text(t) => seq![types::StreamChunkView::Text(t)],
        types::ContentView::ToolCall { id, name, input } => seq![
            types::StreamChunkView::ToolCallStart { id, name },
            types::StreamChunkView::ToolCallDelta { id, input_json: json::json_text(input) },
            types::StreamChunkView::ToolCallEnd { id },
        ],
        types::ContentView::ToolResult { .. } => Seq::empty(),
    }
}

/// The chunks that stand for the contents of a response, without the last.
pub open spec fn contents_chunks(content: Seq<types::ContentView>) -> Seq<types::StreamChunkView>
    decreases content.len(),
{
    if content.len() == 0 {
        Seq::empty()
    } else {
        contents_chunks(content.drop_last()) + content_chunks(content.last())
    }
}

/// All the chunks that stand for a response, the end mark last.
pub open spec fn response_chunks(content: Seq<types::ContentView>) -> Seq<types::StreamChunkView> {
    contents_chunks(content).push(types::StreamChunkView::Done)
}

/// The chunks that a response is streamed as where the provider does not
/// stream by itself: those of its contents in order, then the end mark.
pub fn synthesized_chunks(response: &Response) -> (r: Vec<StreamChunk>)
    ensures
        r.deep_view() == response_chunks(response.deep_view().content),
{
    let mut r: Vec<StreamChunk> = Vec::new();
    let mut i: usize = 0;
    assert(r.deep_view() =~= Seq::empty());
    while i < response.content.len()
        invariant
            i <= response.content@.len(),
            r.deep_view() == contents_chunks(response.deep_view().content.take(i as int)),
        decreases response.content@.len() - i,
    {
        let ghost before = r.deep_view();
        match &response.content[i] {
            Content::Text(t) => {
                r.push(StreamChunk::Text(t.clone()));
            },
            Content::ToolCall { id, name, input } => {
                r.push(StreamChunk::ToolCallStart { id: id.clone(), name: name.clone() });
                r.push(StreamChunk::ToolCallDelta { id: id.clone(), input_json: input.to_text() });
                r.push(StreamChunk::ToolCallEnd { id: id.clone() });
            },
            Content::ToolResult { .. } => {},
        }
        proof {
            let all = response.deep_view().content;
            assert(all.take(i + 1).drop_last() =~= all.take(i as int));
            assert(r.deep_view() =~= before + content_chunks(all[i as int]));
        }
        i += 1;
    }
    let ghost before = r.deep_view();
    r.push(StreamChunk::Done);
    proof {
        let all = response.deep_view().content;
        assert(all.take(i as int) =~= all);
        assert(r.deep_view() =~= before.push(types::StreamChunkView::Done));
    }
    r
}

// ---------------------------------------------------------------------------
// Laws
// ---------------------------------------------------------------------------

/// A retry is worth it after a rate limit, a failure of the network and a failure
/// of the server, and after nothing else.
pub proof fn law_what_is_worth_a_retry(
    status: u16,
    message: Seq<char>,
    retry_after_secs: Option<u64>,
)
    ensures
        (ProviderErrorView::RateLimited { retry_after_secs }).transient(),
        ProviderErrorView::Network(message).transient(),
        !ProviderErrorView::Parse(message).transient(),
        (ProviderErrorView::Api { status, message }).transient() <==> 500 <= status <= 599,
{
}

/// The message of an error says what kind of error it is, and holds all that is
/// known of it.
pub proof fn law_messages_tell_the_error(status: u16, m: Seq<char>, secs: u64)
    ensures
        (ProviderErrorView::Api { status, message: m }).message() == "API error "@ + text::decimal(
            status as nat,
        ) + ": "@ + m,
        ProviderErrorView::Network(m).message() == "network error: "@ + m,
        ProviderErrorView::Parse(m).message() == "parse error: "@ + m,
        text::contains_text(
            (ProviderErrorView::RateLimited { retry_after_secs: Some(secs) }).message(),
            text::decimal(secs as nat),
        ),
        text::begins_with(
            (ProviderErrorView::RateLimited { retry_after_secs: Some(secs) }).message(),
            "rate limited"@,
        ),
        (ProviderErrorView::RateLimited { retry_after_secs: None }).message() == "rate limited"@,
{
    let start = "rate limited"@ + " (retry after "@;
    let n = text::decimal(secs as nat);
    text::lemma_contained_between(start, n, "s)"@);
    assert((start + n + "s)"@).subrange(0, "rate limited"@.len() as int) =~= "rate limited"@);
}

/// Responses are told as chunks in the order of their content: of two parts, one
/// behind the other, the chunks are those of the first followed by those of the
/// second. A text is told as it is. A call is started with its name, told with its
/// whole input, and ended, all under its id.
pub proof fn law_chunks_tell_the_content(
    a: Seq<types::ContentView>,
    b: Seq<types::ContentView>,
    t: Seq<char>,
    id: Seq<char>,
    name: Seq<char>,
    input: json::JsonView,
)
    ensures
        contents_chunks(a + b) == contents_chunks(a) + contents_chunks(b),
        contents_chunks(seq![types::ContentView::Text(t)]) == seq![types::StreamChunkView::Text(t)],
        contents_chunks(seq![types::ContentView::ToolCall { id, name, input }]) == seq![
            types::StreamChunkView::ToolCallStart { id, name },
            types::StreamChunkView::ToolCallDelta { id, input_json: json::json_text(input) },
            types::StreamChunkView::ToolCallEnd { id },
        ],
    decreases b.len(),
{
    reveal_with_fuel(contents_chunks, 2);
    let x = types::ContentView::Text(t);
    let y = types::ContentView::ToolCall { id, name, input };
    assert(seq![x].drop_last() =~= Seq::empty());
    assert(seq![y].drop_last() =~= Seq::empty());
    assert(contents_chunks(seq![x]) =~= content_chunks(x));
    assert(contents_chunks(seq![y]) =~= content_chunks(y));
    if b.len() == 0 {
        assert(a + b =~= a);
        assert(contents_chunks(a) + contents_chunks(b) =~= contents_chunks(a));
    } else {
        assert((a + b).drop_last() =~= a + b.drop_last());
        law_chunks_tell_the_content(a, b.drop_last(), t, id, name, input);
        assert(contents_chunks(a + b) =~= contents_chunks(a) + contents_chunks(b));
    }
}

/// The chunks of a response end with the end mark, which stands nowhere else.
pub proof fn law_responses_end_once(content: Seq<types::ContentView>)
    ensures
        response_chunks(content).len() == contents_chunks(content).len() + 1,
        response_chunks(content).last() is Done,
        response_chunks(content).drop_last() == contents_chunks(content),
        forall|i: int|
            0 <= i < contents_chunks(content).len() ==> !(#[trigger] contents_chunks(content)[i]
                is Done),
    decreases content.len(),
{
    assert(response_chunks(content).drop_last() =~= contents_chunks(content));
    if content.len() > 0 {
        law_responses_end_once(content.drop_last());
        let before = contents_chunks(content.drop_last());
        let own = content_chunks(content.last());
        assert forall|i: int| 0 <= i < contents_chunks(content).len() implies !(
        #[trigger] contents_chunks(content)[i] is Done) by {
            if i < before.len() {
                assert(contents_chunks(content)[i] == before[i]);
            } else {
                assert(contents_chunks(content)[i] == own[i - before.len()]);
            }
        }
    }
}

} // verus!
