//! The Anthropic provider: what is asked of the Messages API, and what its
//! answers mean.

use crate::json;
use crate::json::{string_in, Json};
use crate::provider;
use crate::provider::{is_transient, ProviderCaps, ProviderError, Response, StopReason, Usage};
use crate::text;
use crate::text::{byte_len_of, contains, decimal_of, is_blank, same};
use crate::tool;
use crate::types;
use crate::types::{CompletionConfig, Content, Message, Prompt, Role};
use vstd::prelude::*;
use vstd::string::*;

verus! {

// ---------------------------------------------------------------------------
// Messages
// ---------------------------------------------------------------------------

/// The role of a message on the wire: the API knows no system messages.
pub open spec fn wire_role(role: Role) -> Seq<char> {
    match role {
        Role::Assistant => "assistant"@,
        _ => "user"@,
    }
}

/// Whether a piece of content is sent at all: blank texts are not.
pub open spec fn is_sent(c: types::ContentView) -> bool {
    match c {
        types::ContentView::Text(t) => text::trim(t).len() > 0,
        _ => true,
    }
}

/// A piece of content on the wire. A result that is a text is sent bare.
pub open spec fn wire_block(c: types::ContentView) -> json::JsonView {
    match c {
        types::ContentView::Text(t) => json::json_object().with(
            "type"@,
            json::JsonView::Str("text"@),
        ).with("text"@, json::JsonView::Str(t)),
        types::ContentView::ToolCall { id, name, input } => json::json_object().with(
            "type"@,
            json::JsonView::Str("tool_use"@),
        ).with("id"@, json::JsonView::Str(id)).with("name"@, json::JsonView::Str(name)).with(
            "input"@,
            input,
        ),
        types::ContentView::ToolResult { id, result } => json::json_object().with(
            "type"@,
            json::JsonView::Str("tool_result"@),
        ).with("tool_use_id"@, json::JsonView::Str(id)).with(
            "content"@,
            json::JsonView::Str(
                match result {
                    json::JsonView::Str(s) => s,
                    other => json::json_text(other),
                },
            ),
        ),
    }
}

/// The pieces of content that are sent.
pub open spec fn wire_blocks(content: Seq<types::ContentView>) -> Seq<json::JsonView>
    decreases content.len(),
{
    if content.len() == 0 {
        Seq::empty()
    } else {
        let rest = wire_blocks(content.drop_last());
        if is_sent(content.last()) {
            rest.push(wire_block(content.last()))
        } else {
            rest
        }
    }
}

/// A message on the wire.
#[verifier::ext_equal]
pub ghost struct WireView {
    pub role: Seq<char>,
    pub content: Seq<json::JsonView>,
}

impl WireView {
    pub open spec fn doc(self) -> json::JsonView {
        json::json_object().with("role"@, json::JsonView::Str(self.role)).with(
            "content"@,
            json::JsonView::Array(self.content),
        )
    }
}

/// The messages on the wire: one without content is left out, and one of the
/// same role as that before it is joined to it.
pub open spec fn wire_messages(messages: Seq<types::MessageView>) -> Seq<WireView>
    decreases messages.len(),
{
    if messages.len() == 0 {
        Seq::empty()
    } else {
        let rest = wire_messages(messages.drop_last());
        let role = wire_role(messages.last().role);
        let blocks = wire_blocks(messages.last().content);
        if blocks.len() == 0 {
            rest
        } else if rest.len() > 0 && rest.last().role == role {
            rest.drop_last().push(WireView { role, content: rest.last().content + blocks })
        } else {
            rest.push(WireView { role, content: blocks })
        }
    }
}

/// The documents of some messages.
pub open spec fn message_docs(messages: Seq<WireView>) -> Seq<json::JsonView> {
    Seq::new(messages.len(), |i: int| messages[i].doc())
}

struct WireMessage {
    from_assistant: bool,
    content: Vec<Json>,
}

impl DeepView for WireMessage {
    type V = WireView;

    closed spec fn deep_view(&self) -> WireView {
        WireView {
            role: if self.from_assistant {
                "assistant"@
            } else {
                "user"@
            },
            content: self.content.deep_view(),
        }
    }
}

proof fn lemma_roles_differ()
    ensures
        "assistant"@ != "user"@,
{
    reveal_strlit("assistant");
    reveal_strlit("user");
    assert("assistant"@.len() == 9);
    assert("user"@.len() == 4);
}

fn block_of(c: &Content) -> (r: Json)
    ensures
        r.deep_view() == wire_block(c.deep_view()),
{
    match c {
        Content::Text(t) => Json::object().with("type", Json::text("text")).with(
            "text",
            Json::text(t.as_str()),
        ),
        Content::ToolCall { id, name, input } => Json::object().with(
            "type",
            Json::text("tool_use"),
        ).with("id", Json::text(id.as_str())).with("name", Json::text(name.as_str())).with(
            "input",
            input.clone(),
        ),
        Content::ToolResult { id, result } => {
            let content: String = match result {
                Json::Str(s) => s.clone(),
                other => other.to_text(),
            };
            Json::object().with("type", Json::text("tool_result")).with(
                "tool_use_id",
                Json::text(id.as_str()),
            ).with("content", Json::Str(content))
        },
    }
}

fn blocks_of(content: &Vec<Content>) -> (r: Vec<Json>)
    ensures
        r.deep_view() == wire_blocks(content.deep_view()),
{
    let ghost all = content.deep_view();
    let mut r: Vec<Json> = Vec::new();
    let mut i: usize = 0;
    assert(r.deep_view() =~= Seq::empty());
    assert(all.take(0) =~= Seq::empty());
    while i < content.len()
        invariant
            all == content.deep_view(),
            i <= all.len(),
            r.deep_view() == wire_blocks(all.take(i as int)),
        decreases all.len() - i,
    {
        let ghost before = r.deep_view();
        assert(all.take(i + 1).drop_last() =~= all.take(i as int));
        let sent = match &content[i] {
            Content::Text(t) => !is_blank(t.as_str()),
            _ => true,
        };
        if sent {
            let block = block_of(&content[i]);
            let ghost view = block.deep_view();
            r.push(block);
            assert(r.deep_view() =~= before.push(view));
        }
        i += 1;
    }
    assert(all.take(i as int) =~= all);
    r
}

fn wired(messages: &Vec<Message>) -> (r: Vec<WireMessage>)
    ensures
        r.deep_view() == wire_messages(messages.deep_view()),
{
    let ghost all = messages.deep_view();
    let mut r: Vec<WireMessage> = Vec::new();
    let mut i: usize = 0;
    assert(r.deep_view() =~= Seq::empty());
    assert(all.take(0) =~= Seq::empty());
    while i < messages.len()
        invariant
            all == messages.deep_view(),
            i <= all.len(),
            r.deep_view() == wire_messages(all.take(i as int)),
        decreases all.len() - i,
    {
        let ghost before = r.deep_view();
        assert(all.take(i + 1).drop_last() =~= all.take(i as int));
        proof {
            lemma_roles_differ();
        }
        let from_assistant = match messages[i].role {
            Role::Assistant => true,
            _ => false,
        };
        let mut blocks = blocks_of(&messages[i].content);
        let ghost added = blocks.deep_view();
        assert(added.len() == blocks@.len());
        if blocks.len() > 0 {
            let n: usize = r.len();
            assert(n > 0 ==> before.last() == r@[n - 1].deep_view());
            if n > 0 && r[n - 1].from_assistant == from_assistant {
                let mut last = match r.pop() {
                    Some(last) => last,
                    None => WireMessage { from_assistant, content: Vec::new() },
                };
                assert(r.deep_view() =~= before.drop_last());
                let ghost had = last.content.deep_view();
                last.content.append(&mut blocks);
                assert(last.content.deep_view() =~= had + added);
                let ghost view = last.deep_view();
                r.push(last);
                assert(r.deep_view() =~= before.drop_last().push(view));
            } else {
                let message = WireMessage { from_assistant, content: blocks };
                let ghost view = message.deep_view();
                r.push(message);
                assert(r.deep_view() =~= before.push(view));
            }
        }
        i += 1;
    }
    assert(all.take(i as int) =~= all);
    r
}

/// Some documents, the last of them marked as the end of a prefix to cache.
pub open spec fn marked(docs: Seq<json::JsonView>, mark: json::JsonView) -> Seq<json::JsonView> {
    if docs.len() == 0 {
        docs
    } else {
        docs.drop_last().push(docs.last().with("cache_control"@, mark))
    }
}

fn mark_last(docs: Vec<Json>, mark: Json) -> (r: Vec<Json>)
    ensures
        r.deep_view() == marked(docs.deep_view(), mark.deep_view()),
{
    let ghost all = docs.deep_view();
    let mut r = docs;
    match r.pop() {
        Some(last) => {
            assert(last.deep_view() == all.last());
            assert(r.deep_view() =~= all.drop_last());
            let last = last.with("cache_control", mark);
            let ghost view = last.deep_view();
            r.push(last);
            assert(r.deep_view() =~= all.drop_last().push(view));
        },
        None => {
            assert(r.deep_view() =~= all);
        },
    }
    r
}

/// The messages with the last block of the last but one marked, where there
/// are two.
pub open spec fn marked_messages(messages: Seq<WireView>, mark: json::JsonView) -> Seq<WireView> {
    let n = messages.len();
    if n < 2 {
        messages
    } else {
        messages.update(
            n - 2,
            WireView { content: marked(messages[n - 2].content, mark), ..messages[n - 2] },
        )
    }
}

fn mark_messages(messages: Vec<WireMessage>, mark: Json) -> (r: Vec<WireMessage>)
    ensures
        r.deep_view() == marked_messages(messages.deep_view(), mark.deep_view()),
{
    let ghost all = messages.deep_view();
    let mut r = messages;
    let n: usize = r.len();
    if n < 2 {
        return r;
    }
    let last = match r.pop() {
        Some(m) => m,
        None => WireMessage { from_assistant: false, content: Vec::new() },
    };
    let before = match r.pop() {
        Some(m) => m,
        None => WireMessage { from_assistant: false, content: Vec::new() },
    };
    assert(last.deep_view() == all[n - 1]);
    assert(before.deep_view() == all[n - 2]);
    let before = WireMessage {
        from_assistant: before.from_assistant,
        content: mark_last(before.content, mark),
    };
    let ghost new = before.deep_view();
    r.push(before);
    r.push(last);
    assert(r.deep_view() =~= all.update(n - 2, new));
    r
}

fn copy_docs(docs: &Vec<Json>) -> (r: Vec<Json>)
    ensures
        r.deep_view() == docs.deep_view(),
{
    let r = docs.clone();
    assert(r.deep_view() =~= docs.deep_view());
    r
}

proof fn lemma_array(items: Vec<Json>)
    ensures
        Json::Array(items).deep_view() == json::JsonView::Array(items.deep_view()),
{
    json::lemma_json_items(items@);
    assert(json::json_items(items@) =~= items.deep_view());
}

/// An array document.
fn array(items: Vec<Json>) -> (r: Json)
    ensures
        r.deep_view() == json::JsonView::Array(items.deep_view()),
{
    proof {
        lemma_array(items);
    }
    Json::Array(items)
}

fn docs_of(messages: &Vec<WireMessage>) -> (r: Vec<Json>)
    ensures
        r.deep_view() == message_docs(messages.deep_view()),
{
    let ghost all = message_docs(messages.deep_view());
    let mut r: Vec<Json> = Vec::new();
    let mut i: usize = 0;
    assert(r.deep_view() =~= all.take(0));
    while i < messages.len()
        invariant
            all == message_docs(messages.deep_view()),
            i <= messages@.len() == all.len(),
            r.deep_view() == all.take(i as int),
        decreases all.len() - i,
    {
        let ghost before = r.deep_view();
        let role: &str = if messages[i].from_assistant {
            "assistant"
        } else {
            "user"
        };
        r.push(
            Json::object().with("role", Json::text(role)).with(
                "content",
                array(copy_docs(&messages[i].content)),
            ),
        );
        assert(r.deep_view() =~= before.push(all[i as int]));
        assert(all.take(i + 1) =~= before.push(all[i as int]));
        i += 1;
    }
    assert(all.take(i as int) =~= all);
    r
}

/// The messages on the wire.
pub fn convert_messages(messages: &Vec<Message>) -> (r: Vec<Json>)
    ensures
        r.deep_view() == message_docs(wire_messages(messages.deep_view())),
{
    docs_of(&wired(messages))
}

// ---------------------------------------------------------------------------
// Tools
// ---------------------------------------------------------------------------

/// A tool on the wire: what its definition leaves out is filled in.
pub open spec fn wire_tool(def: json::JsonView) -> json::JsonView {
    json::json_object().with(
        "name"@,
        match def.get("name"@) {
            Some(name) => name,
            None => json::JsonView::Str("unknown"@),
        },
    ).with(
        "description"@,
        match def.get("description"@) {
            Some(description) => description,
            None => json::JsonView::Str(""@),
        },
    ).with(
        "input_schema"@,
        match def.get("input_schema"@) {
            Some(schema) => schema,
            None => json::json_object().with("type"@, json::JsonView::Str("object"@)).with(
                "properties"@,
                json::json_object(),
            ),
        },
    )
}

/// Some tools on the wire.
pub open spec fn wire_tools(defs: Seq<json::JsonView>) -> Seq<json::JsonView> {
    Seq::new(defs.len(), |i: int| wire_tool(defs[i]))
}

fn tool_of(def: &Json) -> (r: Json)
    ensures
        r.deep_view() == wire_tool(def.deep_view()),
{
    let name = match def.get("name") {
        Some(name) => name.clone(),
        None => Json::text("unknown"),
    };
    let description = match def.get("description") {
        Some(description) => description.clone(),
        None => Json::text(""),
    };
    let schema = match def.get("input_schema") {
        Some(schema) => schema.clone(),
        None => Json::object().with("type", Json::text("object")).with(
            "properties",
            Json::object(),
        ),
    };
    Json::object().with("name", name).with("description", description).with("input_schema", schema)
}

/// The tools on the wire.
pub fn convert_tools(tool_definitions: &Vec<Json>) -> (r: Vec<Json>)
    ensures
        r.deep_view() == wire_tools(tool_definitions.deep_view()),
{
    let ghost all = wire_tools(tool_definitions.deep_view());
    let mut r: Vec<Json> = Vec::new();
    let mut i: usize = 0;
    assert(r.deep_view() =~= all.take(0));
    while i < tool_definitions.len()
        invariant
            all == wire_tools(tool_definitions.deep_view()),
            i <= tool_definitions@.len() == all.len(),
            r.deep_view() == all.take(i as int),
        decreases all.len() - i,
    {
        let ghost before = r.deep_view();
        r.push(tool_of(&tool_definitions[i]));
        assert(r.deep_view() =~= before.push(all[i as int]));
        assert(all.take(i + 1) =~= before.push(all[i as int]));
        i += 1;
    }
    assert(all.take(i as int) =~= all);
    r
}

// ---------------------------------------------------------------------------
// Requests
// ---------------------------------------------------------------------------

/// The bytes that some documents take.
pub open spec fn docs_len(docs: Seq<json::JsonView>) -> nat
    decreases docs.len(),
{
    if docs.len() == 0 {
        0
    } else {
        docs_len(docs.drop_last()) + text::byte_len(json::json_text(docs.last()))
    }
}

/// `n`, or the largest `usize` where `n` is larger.
pub open spec fn capped(n: nat) -> nat {
    if n <= usize::MAX {
        n
    } else {
        usize::MAX as nat
    }
}

fn len_of_docs(docs: &Vec<Json>) -> (n: usize)
    ensures
        n == capped(docs_len(docs.deep_view())),
{
    let ghost all = docs.deep_view();
    let mut n: usize = 0;
    let mut i: usize = 0;
    assert(all.take(0) =~= Seq::empty());
    while i < docs.len()
        invariant
            all == docs.deep_view(),
            i <= all.len(),
            n == capped(docs_len(all.take(i as int))),
        decreases all.len() - i,
    {
        assert(all.take(i + 1).drop_last() =~= all.take(i as int));
        n = n.saturating_add(byte_len_of(docs[i].to_text().as_str()));
        i += 1;
    }
    assert(all.take(i as int) =~= all);
    n
}

/// The mark on a prefix that stays for a session.
pub open spec fn long_mark() -> json::JsonView {
    json::json_object().with("type"@, json::JsonView::Str("ephemeral"@)).with(
        "ttl"@,
        json::JsonView::Str("1h"@),
    )
}

/// The mark on a prefix that the next turn extends.
pub open spec fn short_mark() -> json::JsonView {
    json::json_object().with("type"@, json::JsonView::Str("ephemeral"@))
}

/// The system prompt as a block.
pub open spec fn system_block(system: Seq<char>) -> json::JsonView {
    json::json_object().with("type"@, json::JsonView::Str("text"@)).with(
        "text"@,
        json::JsonView::Str(system),
    )
}

/// The fewest tokens of a prefix that a model caches.
pub open spec fn cache_min(model: Seq<char>) -> nat {
    if text::contains_text(model, "sonnet"@) {
        2048
    } else {
        4096
    }
}

/// Whether a prompt is large enough to be cached: its tokens are a fourth of
/// the bytes of all of its parts.
pub open spec fn is_cached(model: Seq<char>, prompt: types::PromptView) -> bool {
    let bytes = text::byte_len(prompt.system) + docs_len(wire_tools(prompt.tool_definitions))
        + docs_len(message_docs(wire_messages(prompt.messages)));
    bytes / 4 >= cache_min(model)
}

/// The system prompt, the tools and the messages of a request.
pub open spec fn prompt_doc(
    base: json::JsonView,
    cached: bool,
    prompt: types::PromptView,
) -> json::JsonView {
    let messages = wire_messages(prompt.messages);
    let tools = wire_tools(prompt.tool_definitions);
    let base = base.with("messages"@, json::JsonView::Array(message_docs(messages)));
    if cached {
        let base = if prompt.system.len() == 0 {
            base
        } else if tools.len() == 0 {
            base.with(
                "system"@,
                json::JsonView::Array(marked(seq![system_block(prompt.system)], long_mark())),
            )
        } else {
            base.with("system"@, json::JsonView::Array(seq![system_block(prompt.system)]))
        };
        let base = if tools.len() == 0 {
            base
        } else {
            base.with("tools"@, json::JsonView::Array(marked(tools, long_mark())))
        };
        base.with(
            "messages"@,
            json::JsonView::Array(message_docs(marked_messages(messages, short_mark()))),
        )
    } else {
        let base = if prompt.system.len() == 0 {
            base
        } else {
            base.with("system"@, json::JsonView::Str(prompt.system))
        };
        if tools.len() == 0 {
            base
        } else {
            base.with("tools"@, json::JsonView::Array(tools))
        }
    }
}

/// Some texts as documents.
pub open spec fn text_docs(texts: Seq<Seq<char>>) -> Seq<json::JsonView> {
    Seq::new(texts.len(), |i: int| json::JsonView::Str(texts[i]))
}

/// The request for a completion of a prompt.
pub open spec fn request_doc(
    model: Seq<char>,
    prompt: types::PromptView,
    config: types::CompletionConfigView,
) -> json::JsonView {
    let base = json::json_object().with("model"@, json::JsonView::Str(model)).with(
        "max_tokens"@,
        json::JsonView::Number(json::JsonNumber::U64(config.max_tokens as u64)),
    );
    let body = prompt_doc(base, is_cached(model, prompt), prompt);
    let body = match config.temperature {
        Some(t) => body.with("temperature"@, t),
        None => body,
    };
    if config.stop_sequences.len() == 0 {
        body
    } else {
        body.with("stop_sequences"@, json::JsonView::Array(text_docs(config.stop_sequences)))
    }
}

fn docs_of_texts(texts: &Vec<String>) -> (r: Vec<Json>)
    ensures
        r.deep_view() == text_docs(texts.deep_view()),
{
    let ghost all = text_docs(texts.deep_view());
    let mut r: Vec<Json> = Vec::new();
    let mut i: usize = 0;
    assert(r.deep_view() =~= all.take(0));
    while i < texts.len()
        invariant
            all == text_docs(texts.deep_view()),
            i <= texts@.len() == all.len(),
            r.deep_view() == all.take(i as int),
        decreases all.len() - i,
    {
        let ghost before = r.deep_view();
        r.push(Json::text(texts[i].as_str()));
        assert(r.deep_view() =~= before.push(all[i as int]));
        assert(all.take(i + 1) =~= before.push(all[i as int]));
        i += 1;
    }
    assert(all.take(i as int) =~= all);
    r
}

fn long_mark_doc() -> (r: Json)
    ensures
        r.deep_view() == long_mark(),
{
    Json::object().with("type", Json::text("ephemeral")).with("ttl", Json::text("1h"))
}

fn one(doc: Json) -> (r: Vec<Json>)
    ensures
        r.deep_view() == seq![doc.deep_view()],
{
    let ghost view = doc.deep_view();
    let mut r: Vec<Json> = Vec::new();
    r.push(doc);
    assert(r.deep_view() =~= seq![view]);
    r
}

/// The request for a completion of a prompt that is streamed.
pub open spec fn streaming_doc(
    model: Seq<char>,
    prompt: types::PromptView,
    config: types::CompletionConfigView,
) -> json::JsonView {
    request_doc(model, prompt, config).with("stream"@, json::JsonView::Bool(true))
}

/// The Anthropic provider.
#[derive(Debug)]
pub struct AnthropicProvider {
    pub api_key: String,
    pub model: String,
}

impl AnthropicProvider {
    pub fn new(api_key: String, model: String) -> (r: Self)
        ensures
            r.api_key == api_key,
            r.model == model,
    {
        AnthropicProvider { api_key, model }
    }

    /// The fewest tokens of a prefix that the model caches.
    pub fn cache_min_tokens(&self) -> (n: usize)
        ensures
            n == cache_min(self.model@),
    {
        if contains(self.model.as_str(), "sonnet") {
            2048
        } else {
            4096
        }
    }

    /// The request for a completion of a prompt.
    pub fn build_request_body(&self, prompt: &Prompt, config: &CompletionConfig) -> (r: Json)
        ensures
            r.deep_view() == request_doc(self.model@, prompt.deep_view(), config.deep_view()),
    {
        let ghost view = prompt.deep_view();
        let messages = wired(&prompt.messages);
        let docs = docs_of(&messages);
        let tools = convert_tools(&prompt.tool_definitions);
        assert(tools.deep_view().len() == tools@.len());
        let system: usize = byte_len_of(prompt.system.as_str());
        let bytes: usize = system.saturating_add(len_of_docs(&tools)).saturating_add(
            len_of_docs(&docs),
        );
        let cached: bool = bytes / 4 >= self.cache_min_tokens();
        assert(cached == is_cached(self.model@, view));
        let has_system: bool = prompt.system.as_str().unicode_len() > 0;
        let body = Json::object().with("model", Json::text(self.model.as_str())).with(
            "max_tokens",
            Json::natural(config.max_tokens as u64),
        );
        let ghost base = body.deep_view();
        let body = body.with("messages", array(docs));
        let body = if cached {
            let block = Json::object().with("type", Json::text("text")).with(
                "text",
                Json::text(prompt.system.as_str()),
            );
            let body = if !has_system {
                body
            } else if tools.len() == 0 {
                body.with("system", array(mark_last(one(block), long_mark_doc())))
            } else {
                body.with("system", array(one(block)))
            };
            let body = if tools.len() == 0 {
                body
            } else {
                body.with("tools", array(mark_last(tools, long_mark_doc())))
            };
            let mark = Json::object().with("type", Json::text("ephemeral"));
            body.with("messages", array(docs_of(&mark_messages(messages, mark))))
        } else {
            let body = if has_system {
                body.with("system", Json::text(prompt.system.as_str()))
            } else {
                body
            };
            if tools.len() == 0 {
                body
            } else {
                body.with("tools", array(tools))
            }
        };
        assert(body.deep_view() == prompt_doc(base, cached, view));
        let body = match &config.temperature {
            Some(t) => body.with("temperature", t.clone()),
            None => body,
        };
        assert(config.stop_sequences.deep_view().len() == config.stop_sequences@.len());
        if config.stop_sequences.len() == 0 {
            body
        } else {
            body.with("stop_sequences", array(docs_of_texts(&config.stop_sequences)))
        }
    }

    /// The request for a completion that is streamed.
    pub fn build_streaming_body(&self, prompt: &Prompt, config: &CompletionConfig) -> (r: Json)
        ensures
            r.deep_view() == streaming_doc(self.model@, prompt.deep_view(), config.deep_view()),
    {
        self.build_request_body(prompt, config).with("stream", Json::Bool(true))
    }

    /// What the provider supports.
    pub fn capabilities(&self) -> (r: ProviderCaps)
        ensures
            r == (ProviderCaps {
                supports_tool_use: true,
                supports_vision: false,
                supports_streaming: true,
                max_context_tokens: 200_000,
            }),
    {
        ProviderCaps {
            supports_tool_use: true,
            supports_vision: false,
            supports_streaming: true,
            max_context_tokens: 200_000,
        }
    }
}

// ---------------------------------------------------------------------------
// Responses
// ---------------------------------------------------------------------------

/// The tokens counted by the member `key`, or none.
pub open spec fn count_in(doc: json::JsonView, key: Seq<char>) -> usize {
    match doc.get_u64(key) {
        Some(n) => n as usize,
        None => 0,
    }
}

/// The tokens counted by the member `key`, or none.
pub fn count_of(doc: &Json, key: &str) -> (n: usize)
    ensures
        n == count_in(doc.deep_view(), key@),
{
    match doc.get_u64(key) {
        Some(n) => n as usize,
        None => 0,
    }
}

/// What a block of a response says: a text, a tool call, or nothing that is
/// known.
pub open spec fn block_content(block: json::JsonView) -> Option<types::ContentView> {
    let kind = json::str_or(block, "type"@, ""@);
    if kind == "text"@ {
        Some(types::ContentView::Text(json::str_or(block, "text"@, ""@)))
    } else if kind == "tool_use"@ {
        Some(
            types::ContentView::ToolCall {
                id: json::str_or(block, "id"@, "unknown"@),
                name: json::str_or(block, "name"@, "unknown"@),
                input: match block.get("input"@) {
                    Some(input) => input,
                    None => json::json_object(),
                },
            },
        )
    } else {
        None
    }
}

/// What some blocks of a response say.
pub open spec fn blocks_content(blocks: Seq<json::JsonView>) -> Seq<types::ContentView>
    decreases blocks.len(),
{
    if blocks.len() == 0 {
        Seq::empty()
    } else {
        let rest = blocks_content(blocks.drop_last());
        match block_content(blocks.last()) {
            Some(c) => rest.push(c),
            None => rest,
        }
    }
}

/// Why the model stopped.
pub open spec fn stop_reason_in(doc: json::JsonView) -> StopReason {
    let reason = doc.get_str("stop_reason"@);
    if reason == Some("tool_use"@) {
        StopReason::ToolUse
    } else if reason == Some("max_tokens"@) {
        StopReason::MaxTokens
    } else if reason == Some("stop_sequence"@) {
        StopReason::StopSequence
    } else {
        StopReason::EndTurn
    }
}

/// Why the model stopped.
pub fn stop_reason_of(doc: &Json) -> (r: StopReason)
    ensures
        r == stop_reason_in(doc.deep_view()),
{
    match doc.get_str("stop_reason") {
        Some(reason) => if same(reason, "tool_use") {
            StopReason::ToolUse
        } else if same(reason, "max_tokens") {
            StopReason::MaxTokens
        } else if same(reason, "stop_sequence") {
            StopReason::StopSequence
        } else {
            StopReason::EndTurn
        },
        None => StopReason::EndTurn,
    }
}

/// The tokens that a request took.
pub open spec fn usage_in(doc: json::JsonView) -> Usage {
    match doc.get("usage"@) {
        Some(u) => Usage {
            input_tokens: count_in(u, "input_tokens"@),
            output_tokens: count_in(u, "output_tokens"@),
            cache_creation_input_tokens: count_in(u, "cache_creation_input_tokens"@),
            cache_read_input_tokens: count_in(u, "cache_read_input_tokens"@),
        },
        None => provider::no_usage(),
    }
}

/// What a response document says, where it has content.
pub open spec fn response_in(doc: json::JsonView) -> Option<provider::ResponseView> {
    match doc.get("content"@) {
        Some(json::JsonView::Array(blocks)) => Some(
            provider::ResponseView {
                content: blocks_content(blocks),
                usage: usage_in(doc),
                stop_reason: stop_reason_in(doc),
            },
        ),
        _ => None,
    }
}

fn content_of(block: &Json) -> (r: Option<Content>)
    ensures
        r.deep_view() == block_content(block.deep_view()),
{
    let kind = string_in(block, "type", "");
    if same(kind.as_str(), "text") {
        Some(Content::Text(string_in(block, "text", "")))
    } else if same(kind.as_str(), "tool_use") {
        let input = match block.get("input") {
            Some(input) => input.clone(),
            None => Json::object(),
        };
        Some(
            Content::ToolCall {
                id: string_in(block, "id", "unknown"),
                name: string_in(block, "name", "unknown"),
                input,
            },
        )
    } else {
        None
    }
}

/// What a response document says.
pub fn parse_response(doc: &Json) -> (r: Result<Response, ProviderError>)
    ensures
        match r {
            Ok(response) => response_in(doc.deep_view()) == Some(response.deep_view()),
            Err(e) => response_in(doc.deep_view()) is None && e.deep_view() == (
            provider::ProviderErrorView::Parse("missing 'content' array"@)),
        },
{
    let blocks: &Vec<Json> = match doc.get("content") {
        Some(Json::Array(blocks)) => blocks,
        _ => {
            return Err(ProviderError::Parse("missing 'content' array".to_owned()));
        },
    };
    let ghost all = json::json_items(blocks@);
    proof {
        json::lemma_json_items(blocks@);
    }
    let mut content: Vec<Content> = Vec::new();
    let mut i: usize = 0;
    assert(content.deep_view() =~= Seq::empty());
    assert(all.take(0) =~= Seq::empty());
    while i < blocks.len()
        invariant
            all == json::json_items(blocks@),
            all.len() == blocks@.len(),
            forall|k: int| 0 <= k < all.len() ==> #[trigger] all[k] == blocks@[k].deep_view(),
            i <= all.len(),
            content.deep_view() == blocks_content(all.take(i as int)),
        decreases all.len() - i,
    {
        let ghost before = content.deep_view();
        assert(all.take(i + 1).drop_last() =~= all.take(i as int));
        assert(all[i as int] == blocks@[i as int].deep_view());
        match content_of(&blocks[i]) {
            Some(c) => {
                let ghost view = c.deep_view();
                content.push(c);
                assert(content.deep_view() =~= before.push(view));
            },
            None => {},
        }
        i += 1;
    }
    assert(all.take(i as int) =~= all);
    let usage = match doc.get("usage") {
        Some(u) => Usage {
            input_tokens: count_of(u, "input_tokens"),
            output_tokens: count_of(u, "output_tokens"),
            cache_creation_input_tokens: count_of(u, "cache_creation_input_tokens"),
            cache_read_input_tokens: count_of(u, "cache_read_input_tokens"),
        },
        None => Usage::default(),
    };
    Ok(Response { content, usage, stop_reason: stop_reason_of(doc) })
}

/// What came of a request.
#[derive(Debug)]
pub enum HttpReply {
    /// A successful answer with this body.
    Body(String),
    /// A successful answer whose body could not be read.
    Unreadable(String),
    /// An answer with this status, which is no success.
    Status(u16),
    /// No answer.
    Failed(String),
}

/// What is wrong with a request that got no successful answer.
pub open spec fn status_error(status: u16) -> provider::ProviderErrorView {
    if status == 429 {
        provider::ProviderErrorView::RateLimited { retry_after_secs: None }
    } else {
        provider::ProviderErrorView::Api {
            status,
            message: "HTTP "@ + text::decimal(status as nat),
        }
    }
}

/// What is wrong with a request that got no successful answer.
pub fn error_of_status(status: u16) -> (r: ProviderError)
    ensures
        r.deep_view() == status_error(status),
{
    if status == 429 {
        ProviderError::RateLimited { retry_after_secs: None }
    } else {
        let mut message = "HTTP ".to_owned();
        message.push_str(decimal_of(status as u64).as_str());
        ProviderError::Api { status, message }
    }
}

/// What a reply means, where its body was read as `parsed`.
pub open spec fn reply_meaning(
    reply: HttpReply,
    parsed: Result<json::JsonView, Seq<char>>,
) -> Result<provider::ResponseView, provider::ProviderErrorView> {
    match reply {
        HttpReply::Body(body) => match parsed {
            Err(e) => Err(provider::ProviderErrorView::Parse(e + ": "@ + body@)),
            Ok(doc) => match response_in(doc) {
                Some(response) => Ok(response),
                None => Err(provider::ProviderErrorView::Parse("missing 'content' array"@)),
            },
        },
        HttpReply::Unreadable(e) => Err(
            provider::ProviderErrorView::Network("failed to read body: "@ + e@),
        ),
        HttpReply::Status(status) => Err(status_error(status)),
        HttpReply::Failed(e) => Err(provider::ProviderErrorView::Network(e@)),
    }
}

/// A completion, or why there is none.
pub open spec fn completion_view(r: Result<Response, ProviderError>) -> Result<
    provider::ResponseView,
    provider::ProviderErrorView,
> {
    match r {
        Ok(response) => Ok(response.deep_view()),
        Err(e) => Err(e.deep_view()),
    }
}

/// What a body means, given how it was read.
pub fn response_of_body(body: &str, parsed: Result<Json, String>) -> (r: Result<
    Response,
    ProviderError,
>)
    ensures
        match parsed {
            Err(e) => r matches Err(error) && error.deep_view()
                == provider::ProviderErrorView::Parse(e@ + ": "@ + body@),
            Ok(doc) => match r {
                Ok(response) => response_in(doc.deep_view()) == Some(response.deep_view()),
                Err(e) => response_in(doc.deep_view()) is None && e.deep_view() == (
                provider::ProviderErrorView::Parse("missing 'content' array"@)),
            },
        },
{
    match parsed {
        Err(e) => {
            let mut message = e;
            message.push_str(": ");
            message.push_str(body);
            Err(ProviderError::Parse(message))
        },
        Ok(doc) => parse_response(&doc),
    }
}

/// What a reply means.
pub fn response_of_reply(reply: HttpReply) -> (r: Result<Response, ProviderError>)
    ensures
        completion_view(r) == reply_meaning(
            reply,
            match reply {
                HttpReply::Body(body) => json::json_parsed(body@),
                _ => arbitrary(),
            },
        ),
{
    match reply {
        HttpReply::Body(body) => {
            let parsed = Json::parse(body.as_str());
            response_of_body(body.as_str(), parsed)
        },
        HttpReply::Unreadable(e) => {
            let mut message = "failed to read body: ".to_owned();
            message.push_str(e.as_str());
            Err(ProviderError::Network(message))
        },
        HttpReply::Status(status) => Err(error_of_status(status)),
        HttpReply::Failed(e) => Err(ProviderError::Network(e)),
    }
}

// ---------------------------------------------------------------------------
// Retries
// ---------------------------------------------------------------------------

/// The most retries after a first attempt.
pub const MAX_RETRIES: u32 = 3;

/// How long a request may take, in seconds.
pub const REQUEST_TIMEOUT_SECS: u64 = 120;

/// Whether a request is tried again after the attempt of the given number,
/// counted from zero, failed.
pub open spec fn retried(attempt: u32, error: provider::ProviderErrorView) -> bool {
    error.transient() && attempt < MAX_RETRIES
}

/// Whether a request is tried again after the attempt of the given number,
/// counted from zero, failed.
pub fn retries_after(attempt: u32, error: &ProviderError) -> (r: bool)
    ensures
        r == retried(attempt, error.deep_view()),
{
    is_transient(error) && attempt < MAX_RETRIES
}

/// How long to wait before the attempt of the given number, in milliseconds:
/// for as long as the server says, or else one, two, four seconds and so on,
/// somewhat less or more from attempt to attempt, and never longer than half
/// a minute.
pub open spec fn retry_delay(attempt: u32, error: provider::ProviderErrorView) -> nat {
    let base: nat = match error {
        provider::ProviderErrorView::RateLimited { retry_after_secs: Some(secs) } => secs as nat,
        _ => if attempt == 1 {
            1
        } else if attempt == 2 {
            2
        } else if attempt == 3 {
            4
        } else if attempt == 4 {
            8
        } else {
            16
        },
    };
    let delay = base * (750 + attempt as nat * 100 % 500);
    if delay < 30_000 {
        delay
    } else {
        30_000
    }
}

/// How long to wait before the attempt of the given number, in milliseconds.
pub fn retry_delay_ms(attempt: u32, error: &ProviderError) -> (r: u64)
    requires
        attempt > 0,
    ensures
        r == retry_delay(attempt, error.deep_view()),
{
    let base: u64 = match error {
        ProviderError::RateLimited { retry_after_secs: Some(secs) } => *secs,
        _ => if attempt == 1 {
            1
        } else if attempt == 2 {
            2
        } else if attempt == 3 {
            4
        } else if attempt == 4 {
            8
        } else {
            16
        },
    };
    let factor: u64 = 750 + attempt as u64 * 100 % 500;
    if base >= 40 {
        assert(base * factor >= 30_000) by (nonlinear_arith)
            requires
                base >= 40,
                factor >= 750,
        ;
        return 30_000;
    }
    assert(base * factor <= 40 * 1250) by (nonlinear_arith)
        requires
            base <= 40,
            factor <= 1250,
    ;
    let delay: u64 = base * factor;
    if delay < 30_000 {
        delay
    } else {
        30_000
    }
}

// ---------------------------------------------------------------------------
// Laws
// ---------------------------------------------------------------------------

/// On the wire the roles alternate, and no message is empty, whatever the
/// conversation.
pub proof fn law_roles_alternate(messages: Seq<types::MessageView>)
    ensures
        ({
            let wire = wire_messages(messages);
            &&& forall|i: int| 0 <= i < wire.len() ==> (#[trigger] wire[i]).content.len() > 0
            &&& forall|i: int|
                0 <= i < wire.len() - 1 ==> (#[trigger] wire[i]).role != wire[i + 1].role
        }),
    decreases messages.len(),
{
    if messages.len() > 0 {
        law_roles_alternate(messages.drop_last());
        let rest = wire_messages(messages.drop_last());
        let wire = wire_messages(messages);
        assert(forall|i: int| 0 <= i < rest.len() ==> (#[trigger] wire[i]).role == rest[i].role);
        assert forall|i: int| 0 <= i < wire.len() - 1 implies (#[trigger] wire[i]).role != wire[i
            + 1].role by {
            if i + 1 < rest.len() {
                assert(rest[i].role != rest[i + 1].role);
                assert(wire[i + 1].role == rest[i + 1].role);
            }
        }
    }
}

/// All the blocks of some messages on the wire, one after the other.
pub open spec fn all_blocks(wire: Seq<WireView>) -> Seq<json::JsonView>
    decreases wire.len(),
{
    if wire.len() == 0 {
        Seq::empty()
    } else {
        all_blocks(wire.drop_last()) + wire.last().content
    }
}

/// All that is sent of some messages, one after the other.
pub open spec fn all_sent(messages: Seq<types::MessageView>) -> Seq<json::JsonView>
    decreases messages.len(),
{
    if messages.len() == 0 {
        Seq::empty()
    } else {
        all_sent(messages.drop_last()) + wire_blocks(messages.last().content)
    }
}

/// Joining messages loses nothing and changes no order.
pub proof fn law_nothing_is_lost_on_the_wire(messages: Seq<types::MessageView>)
    ensures
        all_blocks(wire_messages(messages)) == all_sent(messages),
    decreases messages.len(),
{
    if messages.len() > 0 {
        law_nothing_is_lost_on_the_wire(messages.drop_last());
        let rest = wire_messages(messages.drop_last());
        let wire = wire_messages(messages);
        let blocks = wire_blocks(messages.last().content);
        if blocks.len() == 0 {
            assert(all_sent(messages.drop_last()) + blocks =~= all_sent(messages.drop_last()));
        } else if rest.len() > 0 && rest.last().role == wire_role(messages.last().role) {
            assert(wire.drop_last() =~= rest.drop_last());
            assert(all_blocks(rest.drop_last()) + (rest.last().content + blocks) =~= all_blocks(
                rest.drop_last(),
            ) + rest.last().content + blocks);
        } else {
            assert(wire.drop_last() =~= rest);
        }
    }
}

/// By these the words differ.
proof fn lemma_keys_differ()
    ensures
        "type"@.len() == 4 && "type"@[0] == 't' && "type"@[1] == 'y',
        "text"@.len() == 4 && "text"@[0] == 't' && "text"@[1] == 'e',
        "name"@.len() == 4 && "name"@[0] == 'n',
        "role"@.len() == 4 && "role"@[0] == 'r',
        "id"@.len() == 2,
        "input"@.len() == 5 && "input"@[0] == 'i',
        "content"@.len() == 7,
        "tool_use_id"@.len() == 11 && "tool_use_id"@[0] == 't' && "tool_use_id"@[1] == 'o' && "tool_use_id"@[5] == 'u',
        "description"@.len() == 11 && "description"@[0] == 'd',
        "input_schema"@.len() == 12,
        "model"@.len() == 5 && "model"@[0] == 'm',
        "max_tokens"@.len() == 10,
        "messages"@.len() == 8 && "messages"@[0] == 'm',
        "system"@.len() == 6 && "system"@[1] == 'y',
        "tools"@.len() == 5 && "tools"@[0] == 't',
        "temperature"@.len() == 11 && "temperature"@[0] == 't' && "temperature"@[1] == 'e',
        "stop_sequences"@.len() == 14,
        "cache_control"@.len() == 13,
        "stream"@.len() == 6 && "stream"@[1] == 't',
        "tool_use"@.len() == 8 && "tool_use"@[0] == 't',
        "tool_result"@.len() == 11 && "tool_result"@[0] == 't' && "tool_result"@[1] == 'o' && "tool_result"@[5] == 'r',
        "ttl"@.len() == 3,
{
    reveal_strlit("type");
    reveal_strlit("text");
    reveal_strlit("name");
    reveal_strlit("role");
    reveal_strlit("id");
    reveal_strlit("input");
    reveal_strlit("content");
    reveal_strlit("tool_use_id");
    reveal_strlit("description");
    reveal_strlit("input_schema");
    reveal_strlit("model");
    reveal_strlit("max_tokens");
    reveal_strlit("messages");
    reveal_strlit("system");
    reveal_strlit("tools");
    reveal_strlit("temperature");
    reveal_strlit("stop_sequences");
    reveal_strlit("cache_control");
    reveal_strlit("stream");
    reveal_strlit("tool_use");
    reveal_strlit("tool_result");
    reveal_strlit("ttl");
}

/// A tool is sent as it declares itself: what is sent for its definition has
/// exactly its name, its description and, as the schema of the input, its schema.
/// A definition that leaves one of these out is sent as a tool that is unknown, is
/// not described, or takes no parameters.
pub proof fn law_tools_are_sent_as_declared(
    name: Seq<char>,
    description: Seq<char>,
    schema: json::JsonView,
    def: json::JsonView,
)
    ensures
        ({
            let sent = wire_tool(tool::tool_definition(name, description, schema));
            &&& sent.get_str("name"@) == Some(name)
            &&& sent.get_str("description"@) == Some(description)
            &&& sent.get("input_schema"@) == Some(schema)
        }),
        def.get("name"@) is Some ==> wire_tool(def).get("name"@) == def.get("name"@),
        def.get("description"@) is Some ==> wire_tool(def).get("description"@) == def.get(
            "description"@,
        ),
        def.get("input_schema"@) is Some ==> wire_tool(def).get("input_schema"@) == def.get(
            "input_schema"@,
        ),
        def.get("name"@) is None ==> wire_tool(def).get_str("name"@) == Some("unknown"@),
        def.get("description"@) is None ==> wire_tool(def).get_str("description"@) == Some(""@),
        def.get("input_schema"@) is None ==> (wire_tool(def).get("input_schema"@) matches Some(s)
            && s.get_str("type"@) == Some("object"@)),
        forall|key: Seq<char>|
            wire_tool(def).get(key) is Some <==> key == "name"@ || key == "description"@ || key
                == "input_schema"@,
{
    lemma_keys_differ();
    reveal_strlit("properties");
    assert("properties"@.len() == 10);
    tool::law_a_definition_tells_the_tool(name, description, schema);
    assert forall|key: Seq<char>|
        wire_tool(def).get(key) is Some <==> key == "name"@ || key == "description"@ || key
            == "input_schema"@ by {
        assert(wire_tool(def)->Object_0.contains_key(key) <==> key == "name"@ || key
            == "description"@ || key == "input_schema"@);
    }
}

/// Every tool is sent, in order, and a request names them all.
pub proof fn law_every_tool_is_sent(defs: Seq<json::JsonView>, i: int)
    requires
        0 <= i < defs.len(),
    ensures
        wire_tools(defs).len() == defs.len(),
        wire_tools(defs)[i] == wire_tool(defs[i]),
        defs[i].get("name"@) is Some ==> wire_tools(defs)[i].get("name"@) == defs[i].get("name"@),
{
    law_tools_are_sent_as_declared(Seq::empty(), Seq::empty(), defs[i], defs[i]);
}

/// A text or a tool call that is sent reads back, as a block of a response, as
/// itself. A result is sent with the id of its call: a text as it is, and any
/// other document as its text.
pub proof fn law_blocks_read_back(
    t: Seq<char>,
    id: Seq<char>,
    name: Seq<char>,
    input: json::JsonView,
)
    ensures
        block_content(wire_block(types::ContentView::Text(t))) == Some(types::ContentView::Text(t)),
        block_content(wire_block(types::ContentView::ToolCall { id, name, input })) == Some(
            types::ContentView::ToolCall { id, name, input },
        ),
        wire_block(types::ContentView::Text(t)).get_str("type"@) == Some("text"@),
        wire_block(types::ContentView::Text(t)).get_str("text"@) == Some(t),
        ({
            let sent = wire_block(types::ContentView::ToolCall { id, name, input });
            &&& sent.get_str("type"@) == Some("tool_use"@)
            &&& sent.get_str("id"@) == Some(id)
            &&& sent.get_str("name"@) == Some(name)
            &&& sent.get("input"@) == Some(input)
        }),
        ({
            let sent = wire_block(types::ContentView::ToolResult { id, result: input });
            &&& sent.get_str("type"@) == Some("tool_result"@)
            &&& sent.get_str("tool_use_id"@) == Some(id)
            &&& sent.get_str("content"@) == Some(
                match input {
                    json::JsonView::Str(s) => s,
                    _ => json::json_text(input),
                },
            )
        }),
{
    lemma_keys_differ();
}

/// The blocks of content are sent in its order: of two parts, one behind the
/// other, they are those of the first followed by those of the second. Only blank
/// texts are left out.
pub proof fn law_blocks_keep_their_order(
    a: Seq<types::ContentView>,
    b: Seq<types::ContentView>,
    c: types::ContentView,
)
    ensures
        wire_blocks(a + b) == wire_blocks(a) + wire_blocks(b),
        (c matches types::ContentView::Text(t) && text::trim(t).len() == 0) ==> wire_blocks(
            seq![c],
        ).len() == 0,
        !(c matches types::ContentView::Text(t) && text::trim(t).len() == 0) ==> wire_blocks(
            seq![c],
        ) == seq![wire_block(c)],
    decreases b.len(),
{
    reveal_with_fuel(wire_blocks, 2);
    assert(seq![c].drop_last() =~= Seq::empty());
    if is_sent(c) {
        assert(wire_blocks(seq![c]) =~= seq![wire_block(c)]);
    }
    if b.len() == 0 {
        assert(a + b =~= a);
        assert(wire_blocks(a) + wire_blocks(b) =~= wire_blocks(a));
    } else {
        assert((a + b).drop_last() =~= a + b.drop_last());
        law_blocks_keep_their_order(a, b.drop_last(), c);
        assert(wire_blocks(a + b) =~= wire_blocks(a) + wire_blocks(b));
    }
}

/// What is sent of one more message ends the conversation on the wire, under the
/// role of that message: the assistant's own, and the user's for everyone else.
/// What was there before stays.
pub proof fn law_a_message_is_sent_under_its_role(
    messages: Seq<types::MessageView>,
    more: types::MessageView,
)
    ensures
        ({
            let before = wire_messages(messages);
            let after = wire_messages(messages.push(more));
            let blocks = wire_blocks(more.content);
            &&& blocks.len() == 0 ==> after == before
            &&& blocks.len() > 0 ==> {
                &&& after.len() > 0
                &&& after.last().role == (if more.role == Role::Assistant {
                    "assistant"@
                } else {
                    "user"@
                })
                &&& after.last().content.len() >= blocks.len()
                &&& after.last().content.skip(after.last().content.len() - blocks.len()) == blocks
                &&& all_blocks(after) == all_blocks(before) + blocks
            }
        }),
        wire_messages(Seq::empty()).len() == 0,
{
    let all = messages.push(more);
    assert(all.drop_last() =~= messages);
    law_nothing_is_lost_on_the_wire(messages);
    law_nothing_is_lost_on_the_wire(all);
    let after = wire_messages(all);
    let blocks = wire_blocks(more.content);
    if blocks.len() > 0 {
        assert(after.last().content.skip(after.last().content.len() - blocks.len()) =~= blocks);
    }
}

/// A message on the wire says its role, and holds its content in order.
pub proof fn law_a_message_document_tells_the_message(messages: Seq<WireView>, i: int)
    requires
        0 <= i < messages.len(),
    ensures
        message_docs(messages).len() == messages.len(),
        message_docs(messages)[i].get_str("role"@) == Some(messages[i].role),
        message_docs(messages)[i].get("content"@) == Some(
            json::JsonView::Array(messages[i].content),
        ),
{
    lemma_keys_differ();
}

/// A request tells the model everything that it should, whether or not a part of
/// it is marked to be cached: the model asked, the most tokens, the temperature
/// and the stop sequences where there are any, the system prompt, the tools and
/// the messages.
pub proof fn law_a_request_tells_the_prompt(
    model: Seq<char>,
    prompt: types::PromptView,
    config: types::CompletionConfigView,
)
    ensures
        ({
            let doc = request_doc(model, prompt, config);
            &&& doc.get_str("model"@) == Some(model)
            &&& doc.get_u64("max_tokens"@) == Some(config.max_tokens as u64)
            &&& doc.get("temperature"@) == config.temperature
            &&& config.stop_sequences.len() == 0 ==> doc.get("stop_sequences"@) is None
            &&& config.stop_sequences.len() > 0 ==> (
            doc.get("stop_sequences"@) matches Some(json::JsonView::Array(texts)) && texts.len()
                == config.stop_sequences.len() && forall|i: int|
                0 <= i < texts.len() ==> #[trigger] texts[i] == json::JsonView::Str(
                    config.stop_sequences[i],
                ))
            &&& doc.get("stream"@) is None
        }),
        ({
            let doc = request_doc(model, prompt, config);
            &&& prompt.system.len() == 0 ==> doc.get("system"@) is None
            &&& prompt.system.len() > 0 ==> (match doc.get("system"@) {
                Some(json::JsonView::Str(s)) => s == prompt.system,
                Some(json::JsonView::Array(blocks)) => blocks.len() == 1 && blocks[0].get_str(
                    "text"@,
                ) == Some(prompt.system) && blocks[0].get_str("type"@) == Some("text"@),
                _ => false,
            })
        }),
        ({
            let doc = request_doc(model, prompt, config);
            let sent = wire_tools(prompt.tool_definitions);
            &&& prompt.tool_definitions.len() == 0 ==> doc.get("tools"@) is None
            &&& prompt.tool_definitions.len() > 0 ==> (
            doc.get("tools"@) matches Some(json::JsonView::Array(tools)) && tools.len()
                == prompt.tool_definitions.len() && forall|i: int, key: Seq<char>|
                #![trigger tools[i].get(key)]
                0 <= i < tools.len() && key != "cache_control"@ ==> tools[i].get(key)
                    == sent[i].get(key))
        }),
        ({
            let doc = request_doc(model, prompt, config);
            let sent = wire_messages(prompt.messages);
            doc.get("messages"@) matches Some(json::JsonView::Array(docs)) && docs.len()
                == sent.len() && forall|i: int|
                #![trigger docs[i]]
                0 <= i < docs.len() ==> docs[i].get_str("role"@) == Some(sent[i].role) && (
                docs[i].get("content"@) matches Some(json::JsonView::Array(blocks)) && blocks.len()
                    == sent[i].content.len() && forall|k: int, key: Seq<char>|
                    #![trigger blocks[k].get(key)]
                    0 <= k < blocks.len() && key != "cache_control"@ ==> blocks[k].get(key)
                        == sent[i].content[k].get(key))
        }),
{
    lemma_keys_differ();
    let sent = wire_messages(prompt.messages);
    let tools = wire_tools(prompt.tool_definitions);
    let cached = is_cached(model, prompt);
    let now = if cached {
        marked_messages(sent, short_mark())
    } else {
        sent
    };
    let doc = request_doc(model, prompt, config);
    assert(doc.get("messages"@) == Some(json::JsonView::Array(message_docs(now))));
    let docs = message_docs(now);
    assert forall|i: int|
        #![trigger docs[i]]
        0 <= i < docs.len() implies docs[i].get_str("role"@) == Some(sent[i].role) && (docs[i].get(
        "content"@,
    ) matches Some(json::JsonView::Array(blocks)) && blocks.len() == sent[i].content.len()
        && forall|k: int, key: Seq<char>|
        #![trigger blocks[k].get(key)]
        0 <= k < blocks.len() && key != "cache_control"@ ==> blocks[k].get(key)
            == sent[i].content[k].get(key)) by {
        law_a_message_document_tells_the_message(now, i);
    }
    if tools.len() > 0 {
        let shown = if cached {
            marked(tools, long_mark())
        } else {
            tools
        };
        assert(doc.get("tools"@) == Some(json::JsonView::Array(shown)));
        assert forall|i: int, key: Seq<char>|
            #![trigger shown[i].get(key)]
            0 <= i < shown.len() && key != "cache_control"@ implies shown[i].get(key)
            == tools[i].get(key) by {
            if cached && i == tools.len() - 1 {
                assert(shown[i] == tools[i].with("cache_control"@, long_mark()));
            }
        }
    }
}

/// Marks stand at the end of the prefixes to cache and nowhere else: on the last
/// of the tools, and on the last block of the last message but one.
pub proof fn law_marks_stand_at_the_ends(
    docs: Seq<json::JsonView>,
    messages: Seq<WireView>,
    mark: json::JsonView,
)
    requires
        forall|i: int| 0 <= i < docs.len() ==> (#[trigger] docs[i]) is Object,
    ensures
        marked(docs, mark).len() == docs.len(),
        forall|i: int|
            0 <= i < docs.len() - 1 ==> #[trigger] marked(docs, mark)[i] == docs[i],
        docs.len() > 0 ==> marked(docs, mark).last().get("cache_control"@) == Some(mark),
        marked_messages(messages, mark).len() == messages.len(),
        forall|i: int|
            0 <= i < messages.len() && i != messages.len() - 2 ==> #[trigger] marked_messages(
                messages,
                mark,
            )[i] == messages[i],
        messages.len() >= 2 ==> ({
            let at = messages.len() - 2;
            let now = marked_messages(messages, mark)[at];
            now.role == messages[at].role && now.content == marked(messages[at].content, mark)
        }),
        long_mark().get_str("type"@) == Some("ephemeral"@),
        long_mark().get_str("ttl"@) == Some("1h"@),
        short_mark().get_str("type"@) == Some("ephemeral"@),
        short_mark().get("ttl"@) is None,
{
    lemma_keys_differ();
}

/// A system prompt alone is cached from 8192 bytes on by the models named after
/// the sonnet, and by others from twice as many. What else is in the prompt only
/// adds to it.
pub proof fn law_what_is_cached(model: Seq<char>, prompt: types::PromptView)
    ensures
        ({
            let least: nat = if text::contains_text(model, "sonnet"@) {
                8192
            } else {
                16384
            };
            &&& text::byte_len(prompt.system) >= least ==> is_cached(model, prompt)
            &&& prompt.tool_definitions.len() == 0 && prompt.messages.len() == 0 ==> (is_cached(
                model,
                prompt,
            ) <==> text::byte_len(prompt.system) >= least)
        }),
{
    reveal_with_fuel(docs_len, 1);
    assert(prompt.messages.len() == 0 ==> message_docs(wire_messages(prompt.messages)).len() == 0);
    assert(prompt.tool_definitions.len() == 0 ==> wire_tools(prompt.tool_definitions).len() == 0);
}

/// The size of some documents is that of all of them.
pub proof fn law_sizes_add_up(a: Seq<json::JsonView>, b: Seq<json::JsonView>, one: json::JsonView)
    ensures
        docs_len(a + b) == docs_len(a) + docs_len(b),
        docs_len(seq![one]) == text::byte_len(json::json_text(one)),
    decreases b.len(),
{
    reveal_with_fuel(docs_len, 2);
    assert(seq![one].drop_last() =~= Seq::empty());
    if b.len() == 0 {
        assert(a + b =~= a);
    } else {
        assert((a + b).drop_last() =~= a + b.drop_last());
        law_sizes_add_up(a, b.drop_last(), one);
    }
}

/// The content of a response is told in its order, and blocks of an unknown kind
/// are passed over: of two parts, one behind the other, it is that of the first
/// followed by that of the second.
pub proof fn law_responses_are_read_in_order(
    a: Seq<json::JsonView>,
    b: Seq<json::JsonView>,
    one: json::JsonView,
)
    ensures
        blocks_content(a + b) == blocks_content(a) + blocks_content(b),
        blocks_content(seq![one]) == (match block_content(one) {
            Some(c) => seq![c],
            None => Seq::empty(),
        }),
        block_content(one) is Some ==> one.get_str("type"@) == Some("text"@) || one.get_str(
            "type"@,
        ) == Some("tool_use"@),
    decreases b.len(),
{
    reveal_with_fuel(blocks_content, 2);
    reveal_strlit("");
    assert(""@.len() == 0);
    lemma_keys_differ();
    assert(seq![one].drop_last() =~= Seq::empty());
    if let Some(c) = block_content(one) {
        assert(blocks_content(seq![one]) =~= seq![c]);
    }
    if b.len() == 0 {
        assert(a + b =~= a);
        assert(blocks_content(a) + blocks_content(b) =~= blocks_content(a));
    } else {
        assert((a + b).drop_last() =~= a + b.drop_last());
        law_responses_are_read_in_order(a, b.drop_last(), one);
        assert(blocks_content(a + b) =~= blocks_content(a) + blocks_content(b));
    }
}

/// What the model says is what is read of it: the content that was sent as blocks,
/// where it holds only texts and calls, is the content of the response.
pub proof fn law_content_reads_back(content: Seq<types::ContentView>)
    requires
        forall|i: int|
            0 <= i < content.len() ==> is_sent(#[trigger] content[i]) && !(content[i] is ToolResult),
    ensures
        blocks_content(wire_blocks(content)) == content,
    decreases content.len(),
{
    if content.len() > 0 {
        let rest = content.drop_last();
        assert forall|i: int| 0 <= i < rest.len() implies is_sent(#[trigger] rest[i]) && !(
        rest[i] is ToolResult) by {
            assert(rest[i] == content[i]);
        }
        law_content_reads_back(rest);
        let last = content.last();
        assert(is_sent(content[content.len() - 1]));
        match last {
            types::ContentView::Text(t) => {
                law_blocks_read_back(t, t, t, json::JsonView::Null);
            },
            types::ContentView::ToolCall { id, name, input } => {
                law_blocks_read_back(id, id, name, input);
            },
            _ => {},
        }
        let blocks = wire_blocks(content);
        assert(blocks.drop_last() =~= wire_blocks(rest));
        assert(blocks.last() == wire_block(last));
        assert(blocks_content(blocks) =~= content);
    } else {
        assert(blocks_content(wire_blocks(content)) =~= content);
    }
}

/// A response document gives the content, the reason why the model stopped and the
/// tokens that it states; one without an array of content is no response.
pub proof fn law_a_response_is_read(
    doc: json::JsonView,
    blocks: Seq<json::JsonView>,
    usage: json::JsonView,
    n: u64,
)
    ensures
        ({
            let full = doc.with("content"@, json::JsonView::Array(blocks)).with("usage"@, usage);
            doc is Object ==> (response_in(full) matches Some(r) && r.content == blocks_content(
                blocks,
            ) && r.usage.input_tokens == (match usage.get_u64("input_tokens"@) {
                Some(n) => n as usize,
                None => 0,
            }) && r.usage.output_tokens == (match usage.get_u64("output_tokens"@) {
                Some(n) => n as usize,
                None => 0,
            }) && r.usage.cache_creation_input_tokens == (match usage.get_u64(
                "cache_creation_input_tokens"@,
            ) {
                Some(n) => n as usize,
                None => 0,
            }) && r.usage.cache_read_input_tokens == (match usage.get_u64(
                "cache_read_input_tokens"@,
            ) {
                Some(n) => n as usize,
                None => 0,
            }))
        }),
        !(doc.get("content"@) matches Some(json::JsonView::Array(_))) ==> response_in(doc) is None,
        doc.get_str("stop_reason"@) == Some("tool_use"@) ==> stop_reason_in(doc)
            == StopReason::ToolUse,
        doc.get_str("stop_reason"@) == Some("max_tokens"@) ==> stop_reason_in(doc)
            == StopReason::MaxTokens,
        doc.get_str("stop_reason"@) == Some("stop_sequence"@) ==> stop_reason_in(doc)
            == StopReason::StopSequence,
        doc.get_str("stop_reason"@) == Some("end_turn"@) ==> stop_reason_in(doc)
            == StopReason::EndTurn,
        response_in(doc) matches Some(r) ==> r.stop_reason == stop_reason_in(doc),
{
    reveal_strlit("usage");
    reveal_strlit("content");
    reveal_strlit("tool_use");
    reveal_strlit("max_tokens");
    reveal_strlit("stop_sequence");
    reveal_strlit("end_turn");
    assert("usage"@.len() == 5);
    assert("content"@.len() == 7);
    assert("tool_use"@.len() == 8);
    assert("max_tokens"@.len() == 10);
    assert("stop_sequence"@.len() == 13);
    assert("end_turn"@.len() == 8);
    assert("end_turn"@[0] == 'e');
    assert("tool_use"@[0] == 't');
}

/// A reply means what the server said: an answer that is no success names its
/// status, too many requests are told apart, and a request that got no answer, or
/// an answer that cannot be read, is a failure of the network.
pub proof fn law_replies_are_told_apart(
    status: u16,
    e: String,
    parsed: Result<json::JsonView, Seq<char>>,
)
    ensures
        reply_meaning(HttpReply::Status(status), parsed) matches Err(error) && (match error {
            provider::ProviderErrorView::RateLimited { retry_after_secs } => status == 429
                && retry_after_secs is None,
            provider::ProviderErrorView::Api { status: told, message } => status != 429 && told
                == status && message == "HTTP "@ + text::decimal(status as nat),
            _ => false,
        }),
        reply_meaning(HttpReply::Failed(e), parsed) matches Err(
            provider::ProviderErrorView::Network(told),
        ) && told == e@,
        reply_meaning(HttpReply::Unreadable(e), parsed) matches Err(
            provider::ProviderErrorView::Network(told),
        ) && told == "failed to read body: "@ + e@,
        parsed matches Err(why) ==> (reply_meaning(HttpReply::Body(e), parsed) matches Err(
            provider::ProviderErrorView::Parse(told),
        ) && told == why + ": "@ + e@),
        parsed matches Ok(doc) ==> match (
            response_in(doc),
            reply_meaning(HttpReply::Body(e), parsed),
        ) {
            (Some(r), Ok(told)) => told == r,
            (None, Err(provider::ProviderErrorView::Parse(told))) => told
                == "missing 'content' array"@,
            _ => false,
        },
{
}

/// Waiting before a retry: never longer than half a minute. Where the server says
/// for how long, it is within a fourth of that, and of one, two, four, eight and
/// sixteen seconds elsewhere.
pub proof fn law_retries_wait(attempt: u32, secs: u64, error: provider::ProviderErrorView)
    requires
        1 <= attempt,
    ensures
        retry_delay(attempt, error) <= 30_000,
        ({
            let asked = provider::ProviderErrorView::RateLimited { retry_after_secs: Some(secs) };
            let delay = retry_delay(attempt, asked);
            delay == 30_000 || 750 * secs <= delay <= 1250 * secs
        }),
        !(error matches provider::ProviderErrorView::RateLimited { retry_after_secs: Some(_) })
            ==> {
            let base: nat = if attempt == 1 {
                1
            } else if attempt == 2 {
                2
            } else if attempt == 3 {
                4
            } else if attempt == 4 {
                8
            } else {
                16
            };
            750 * base <= retry_delay(attempt, error) <= 1250 * base
        },
        retry_delay(attempt, provider::ProviderErrorView::RateLimited { retry_after_secs: None })
            == retry_delay(attempt, provider::ProviderErrorView::Network(Seq::empty())),
{
    let j = attempt as nat * 100 % 500;
    assert(0 <= j < 500);
    assert(j % 100 == 0) by {
        assert(j == (attempt as nat % 5) * 100);
    }
    assert(j <= 400);
    let b = secs as nat;
    assert(750 * b <= b * (750 + j) <= 1250 * b) by (nonlinear_arith)
        requires
            0 <= j <= 400,
            0 <= b,
    ;
}

/// A request for a stream is the same request, and says that it is for a stream.
pub proof fn law_streams_are_asked_for(
    model: Seq<char>,
    prompt: types::PromptView,
    config: types::CompletionConfigView,
    key: Seq<char>,
)
    ensures
        streaming_doc(model, prompt, config).get("stream"@) == Some(json::JsonView::Bool(true)),
        key != "stream"@ ==> streaming_doc(model, prompt, config).get(key) == request_doc(
            model,
            prompt,
            config,
        ).get(key),
{
}

/// A request is tried four times in all, and again only after errors that may pass.
pub proof fn law_requests_are_retried(
    attempt: u32,
    status: u16,
    message: Seq<char>,
    retry_after_secs: Option<u64>,
)
    ensures
        forall|error: provider::ProviderErrorView|
            attempt >= 3 ==> !#[trigger] retried(attempt, error),
        attempt < 3 ==> retried(
            attempt,
            provider::ProviderErrorView::RateLimited { retry_after_secs },
        ) && retried(attempt, provider::ProviderErrorView::Network(message)),
        !retried(attempt, provider::ProviderErrorView::Parse(message)),
        attempt < 3 ==> (retried(attempt, provider::ProviderErrorView::Api { status, message })
            <==> 500 <= status <= 599),
{
}

} // verus!
