//! Policies and responses to try things out with.

use crate::json::Json;
use crate::policy;
use crate::policy::{plain_rule, Policy, PolicyAction, PolicyRule};
use crate::provider;
use crate::provider::{Response, StopReason, Usage};
use crate::settings;
use crate::types;
use crate::types::Content;
use vstd::prelude::*;
use vstd::string::*;

verus! {

fn one(a: &str) -> (r: Vec<String>)
    ensures
        r.deep_view() == seq![a@],
{
    let mut r: Vec<String> = Vec::new();
    r.push(a.to_owned());
    assert(r.deep_view() =~= seq![a@]);
    r
}

/// A policy that allows everything that tools commonly do.
pub fn allow_all_policy() -> (r: Policy)
    ensures
        r.deep_view() == (policy::PolicyView {
            version: 1,
            name: "allow-all"@,
            rules: seq![
                settings::rule(
                    seq!["fs:read"@, "fs:write"@, "shell:exec"@, "net:*"@],
                    PolicyAction::Allow,
                ),
            ],
            resource_budgets: None,
        }),
{
    let mut caps: Vec<String> = Vec::new();
    caps.push("fs:read".to_owned());
    caps.push("fs:write".to_owned());
    caps.push("shell:exec".to_owned());
    caps.push("net:*".to_owned());
    assert(caps.deep_view() =~= seq!["fs:read"@, "fs:write"@, "shell:exec"@, "net:*"@]);
    let mut rules: Vec<PolicyRule> = Vec::new();
    rules.push(plain_rule(caps, PolicyAction::Allow));
    assert(rules.deep_view() =~= seq![
        settings::rule(
            seq!["fs:read"@, "fs:write"@, "shell:exec"@, "net:*"@],
            PolicyAction::Allow,
        ),
    ]);
    Policy { version: 1, name: "allow-all".to_owned(), rules, resource_budgets: None }
}

/// A policy that allows reading, asks for writing, and denies the rest.
pub fn lockdown_policy() -> (r: Policy)
    ensures
        r.deep_view() == (policy::PolicyView {
            version: 1,
            name: "lockdown"@,
            rules: seq![
                settings::rule(seq!["fs:read"@], PolicyAction::Allow),
                settings::rule(seq!["fs:write"@], PolicyAction::Ask),
                settings::rule(seq!["shell:exec"@], PolicyAction::Deny),
                settings::rule(seq!["net:*"@], PolicyAction::Deny),
            ],
            resource_budgets: None,
        }),
{
    let mut rules: Vec<PolicyRule> = Vec::new();
    rules.push(plain_rule(one("fs:read"), PolicyAction::Allow));
    rules.push(plain_rule(one("fs:write"), PolicyAction::Ask));
    rules.push(plain_rule(one("shell:exec"), PolicyAction::Deny));
    rules.push(plain_rule(one("net:*"), PolicyAction::Deny));
    assert(rules.deep_view() =~= seq![
        settings::rule(seq!["fs:read"@], PolicyAction::Allow),
        settings::rule(seq!["fs:write"@], PolicyAction::Ask),
        settings::rule(seq!["shell:exec"@], PolicyAction::Deny),
        settings::rule(seq!["net:*"@], PolicyAction::Deny),
    ]);
    Policy { version: 1, name: "lockdown".to_owned(), rules, resource_budgets: None }
}

/// The tokens of the responses below.
pub open spec fn some_usage() -> Usage {
    Usage {
        input_tokens: 100,
        output_tokens: 50,
        cache_creation_input_tokens: 0,
        cache_read_input_tokens: 0,
    }
}

fn response(content: Content, stop_reason: StopReason) -> (r: Response)
    ensures
        r.deep_view() == (provider::ResponseView {
            content: seq![content.deep_view()],
            usage: some_usage(),
            stop_reason,
        }),
{
    let ghost view = content.deep_view();
    let mut all: Vec<Content> = Vec::new();
    all.push(content);
    assert(all.deep_view() =~= seq![view]);
    let usage = Usage {
        input_tokens: 100,
        output_tokens: 50,
        cache_creation_input_tokens: 0,
        cache_read_input_tokens: 0,
    };
    Response { content: all, usage, stop_reason }
}

/// A response that is a text.
pub fn text_response(text: &str) -> (r: Response)
    ensures
        r.deep_view() == (provider::ResponseView {
            content: seq![types::ContentView::Text(text@)],
            usage: some_usage(),
            stop_reason: StopReason::EndTurn,
        }),
{
    response(Content::Text(text.to_owned()), StopReason::EndTurn)
}

/// A response that calls a tool.
pub fn tool_call_response(tool_name: &str, input: Json) -> (r: Response)
    ensures
        r.deep_view() == (provider::ResponseView {
            content: seq![
                types::ContentView::ToolCall {
                    id: "call_1"@,
                    name: tool_name@,
                    input: input.deep_view(),
                },
            ],
            usage: some_usage(),
            stop_reason: StopReason::ToolUse,
        }),
{
    response(
        Content::ToolCall { id: "call_1".to_owned(), name: tool_name.to_owned(), input },
        StopReason::ToolUse,
    )
}

} // verus!
