//! The echo provider, which repeats what the user said last.

use crate::json;
use crate::provider;
use crate::provider::{ProviderCaps, Response, StopReason, Usage};
use crate::text;
use crate::text::byte_len_of;
use crate::types;
use crate::types::{Content, Message, Prompt, Role};
use vstd::prelude::*;
use vstd::string::*;

verus! {

/// The first text among some content.
pub open spec fn first_text(content: Seq<types::ContentView>) -> Option<Seq<char>>
    decreases content.len(),
{
    if content.len() == 0 {
        None
    } else {
        match content[0] {
            types::ContentView::Text(t) => Some(t),
            _ => first_text(content.drop_first()),
        }
    }
}

/// The first text of the last message of the user.
pub open spec fn last_said(messages: Seq<types::MessageView>) -> Option<Seq<char>>
    decreases messages.len(),
{
    if messages.len() == 0 {
        None
    } else if messages.last().role == Role::User {
        first_text(messages.last().content)
    } else {
        last_said(messages.drop_last())
    }
}

/// What the provider repeats.
pub open spec fn repeated_text(prompt: types::PromptView) -> Seq<char> {
    match last_said(prompt.messages) {
        Some(t) => t,
        None => "(no user input)"@,
    }
}

/// The response of the provider.
pub open spec fn echo(prompt: types::PromptView) -> provider::ResponseView {
    let said = repeated_text(prompt);
    provider::ResponseView {
        content: seq![
            types::ContentView::Text(
                "[echo provider] You said: "@ + said
                    + "\n\n(Set ANTHROPIC_API_KEY to use a model.)"@,
            ),
        ],
        usage: Usage {
            input_tokens: (text::byte_len(said) / 4) as usize,
            output_tokens: 50,
            cache_creation_input_tokens: 0,
            cache_read_input_tokens: 0,
        },
        stop_reason: StopReason::EndTurn,
    }
}

/// The tokens of a piece of content: a fourth of its bytes.
pub open spec fn content_tokens(content: types::ContentView) -> nat {
    match content {
        types::ContentView::Text(t) => text::byte_len(t) / 4,
        types::ContentView::ToolCall { input, .. } => text::byte_len(json::json_text(input)) / 4,
        types::ContentView::ToolResult { result, .. } => text::byte_len(json::json_text(result))
            / 4,
    }
}

/// The tokens of a piece of content.
pub fn count_tokens(content: &Content) -> (n: usize)
    ensures
        n == content_tokens(content.deep_view()),
{
    match content {
        Content::Text(t) => byte_len_of(t.as_str()) / 4,
        Content::ToolCall { input, .. } => byte_len_of(input.to_text().as_str()) / 4,
        Content::ToolResult { result, .. } => byte_len_of(result.to_text().as_str()) / 4,
    }
}

fn first_text_of(content: &Vec<Content>) -> (r: Option<String>)
    ensures
        r.deep_view() == first_text(content.deep_view()),
{
    let ghost all = content.deep_view();
    let mut i: usize = 0;
    assert(all.skip(0) =~= all);
    while i < content.len()
        invariant
            all == content.deep_view(),
            i <= all.len(),
            first_text(all) == first_text(all.skip(i as int)),
        decreases all.len() - i,
    {
        assert(all.skip(i as int).drop_first() =~= all.skip(i + 1));
        match &content[i] {
            Content::Text(t) => {
                return Some(t.clone());
            },
            _ => {},
        }
        i += 1;
    }
    None
}

fn last_said_of(messages: &Vec<Message>) -> (r: Option<String>)
    ensures
        r.deep_view() == last_said(messages.deep_view()),
{
    let ghost all = messages.deep_view();
    let mut i: usize = messages.len();
    assert(all.take(i as int) =~= all);
    while i > 0
        invariant
            all == messages.deep_view(),
            i <= all.len(),
            last_said(all) == last_said(all.take(i as int)),
        decreases i,
    {
        assert(all.take(i as int).drop_last() =~= all.take(i - 1));
        i -= 1;
        if messages[i].role == Role::User {
            return first_text_of(&messages[i].content);
        }
    }
    None
}

/// A provider that repeats what the user said last.
#[derive(Debug, Clone, Copy)]
pub struct EchoProvider;

impl EchoProvider {
    /// The response to a prompt.
    pub fn complete(&self, prompt: &Prompt) -> (r: Response)
        ensures
            r.deep_view() == echo(prompt.deep_view()),
    {
        let said: String = match last_said_of(&prompt.messages) {
            Some(t) => t,
            None => "(no user input)".to_owned(),
        };
        let mut reply = "[echo provider] You said: ".to_owned();
        reply.push_str(said.as_str());
        reply.push_str("\n\n(Set ANTHROPIC_API_KEY to use a model.)");
        let ghost told = reply@;
        let mut content: Vec<Content> = Vec::new();
        content.push(Content::Text(reply));
        assert(content.deep_view() =~= seq![types::ContentView::Text(told)]);
        let usage = Usage {
            input_tokens: byte_len_of(said.as_str()) / 4,
            output_tokens: 50,
            cache_creation_input_tokens: 0,
            cache_read_input_tokens: 0,
        };
        Response { content, usage, stop_reason: StopReason::EndTurn }
    }

    /// What the provider supports.
    pub fn capabilities(&self) -> (r: ProviderCaps)
        ensures
            r == (ProviderCaps {
                supports_tool_use: true,
                supports_vision: false,
                supports_streaming: false,
                max_context_tokens: 200_000,
            }),
    {
        ProviderCaps {
            supports_tool_use: true,
            supports_vision: false,
            supports_streaming: false,
            max_context_tokens: 200_000,
        }
    }
}

// ---------------------------------------------------------------------------
// Laws
// ---------------------------------------------------------------------------

/// What the user said last is repeated, whatever others said behind it, and the
/// model then waits for the user.
pub proof fn law_the_last_word_of_the_user_is_repeated(
    prompt: types::PromptView,
    i: int,
    t: Seq<char>,
    more: Seq<types::ContentView>,
)
    requires
        0 <= i < prompt.messages.len(),
        prompt.messages[i].role == Role::User,
        prompt.messages[i].content == seq![types::ContentView::Text(t)] + more,
        forall|k: int|
            i < k < prompt.messages.len() ==> (#[trigger] prompt.messages[k]).role != Role::User,
    ensures
        ({
            let r = echo(prompt);
            &&& r.content.len() == 1
            &&& r.content[0] matches types::ContentView::Text(said) && text::contains_text(said, t)
                && text::begins_with(said, "[echo provider] You said: "@ + t)
            &&& r.usage.input_tokens == (text::byte_len(t) / 4) as usize
            &&& r.stop_reason == StopReason::EndTurn
        }),
{
    lemma_last_said(prompt.messages, i);
    assert(prompt.messages[i].content[0] == types::ContentView::Text(t));
    let start = "[echo provider] You said: "@;
    let end = "\n\n(Set ANTHROPIC_API_KEY to use a model.)"@;
    text::lemma_contained_between(start, t, end);
    assert((start + t + end).subrange(0, (start + t).len() as int) =~= start + t);
}

proof fn lemma_last_said(messages: Seq<types::MessageView>, i: int)
    requires
        0 <= i < messages.len(),
        messages[i].role == Role::User,
        forall|k: int| i < k < messages.len() ==> (#[trigger] messages[k]).role != Role::User,
    ensures
        last_said(messages) == first_text(messages[i].content),
    decreases messages.len(),
{
    if i < messages.len() - 1 {
        assert(messages[messages.len() - 1].role != Role::User);
        let rest = messages.drop_last();
        assert forall|k: int| i < k < rest.len() implies (#[trigger] rest[k]).role != Role::User by {
            assert(rest[k] == messages[k]);
        }
        lemma_last_said(rest, i);
    }
}

/// Four bytes are taken for a token, in texts and in documents.
pub proof fn law_four_bytes_are_a_token(
    t: Seq<char>,
    id: Seq<char>,
    name: Seq<char>,
    doc: json::JsonView,
)
    ensures
        content_tokens(types::ContentView::Text(t)) == text::byte_len(t) / 4,
        content_tokens(types::ContentView::ToolCall { id, name, input: doc }) == text::byte_len(
            json::json_text(doc),
        ) / 4,
        content_tokens(types::ContentView::ToolResult { id, result: doc }) == text::byte_len(
            json::json_text(doc),
        ) / 4,
{
}

} // verus!
