//! Tools whose work is done elsewhere: a call is sent out as a request, and
//! what comes back, or does not, is the outcome of the call.

use crate::json::Json;
use crate::protocol::RequestId;
use crate::tool;
use crate::tool::{ToolError, ToolOutput, ToolSchema};
use crate::turn_loop;
use crate::types::{Invalidation, SessionId};
use vstd::prelude::*;
use vstd::string::*;

verus! {

/// A fresh request id. Ids count up, and wrap around after the last.
pub fn next_request_id(counter: &mut u64) -> (r: RequestId)
    ensures
        r == RequestId(*old(counter)),
        *final(counter) == (if *old(counter) == u64::MAX {
            0
        } else {
            *old(counter) + 1
        }),
{
    let id = RequestId(*counter);
    *counter = counter.wrapping_add(1);
    id
}

/// A request to run a tool.
#[derive(Debug)]
pub struct ExecuteTool {
    pub session_id: SessionId,
    pub request_id: RequestId,
    pub tool_name: String,
    pub input: Json,
}

/// The response to such a request.
#[derive(Debug)]
pub struct ToolResponse {
    pub request_id: RequestId,
    pub result: Json,
    pub invalidations: Vec<Invalidation>,
}

/// What became of a request to run a tool.
#[derive(Debug)]
pub enum ToolReply {
    Response(ToolResponse),
    /// No response came in time.
    Timeout,
    /// No response can come any more.
    Disconnected,
    /// The request could not be sent.
    NotSent(String),
}

/// What the reply comes to.
pub open spec fn reply_outcome(reply: ToolReply) -> Result<
    tool::ToolOutputView,
    tool::ToolErrorView,
> {
    match reply {
        ToolReply::Response(response) => Ok(
            tool::ToolOutputView {
                result: response.result.deep_view(),
                invalidations: response.invalidations.deep_view(),
            },
        ),
        ToolReply::Timeout => Err(tool::ToolErrorView::Timeout),
        ToolReply::Disconnected => Err(
            tool::ToolErrorView::ExecutionFailed("distro disconnected"@),
        ),
        ToolReply::NotSent(e) => Err(
            tool::ToolErrorView::ExecutionFailed("channel send failed: "@ + e@),
        ),
    }
}

/// A tool whose work is done elsewhere.
#[derive(Debug)]
pub struct ProxyTool {
    pub schema: ToolSchema,
    pub session_id: SessionId,
}

impl ProxyTool {
    pub fn new(schema: ToolSchema, session_id: SessionId) -> (r: Self)
        ensures
            r.schema == schema,
            r.session_id == session_id,
    {
        ProxyTool { schema, session_id }
    }

    /// The request to run the tool on some input.
    pub fn request(&self, counter: &mut u64, input: Json) -> (r: ExecuteTool)
        ensures
            r.session_id == self.session_id,
            r.request_id == RequestId(*old(counter)),
            r.tool_name@ == self.schema.name@,
            r.input == input,
            *final(counter) == (if *old(counter) == u64::MAX {
                0
            } else {
                *old(counter) + 1
            }),
    {
        ExecuteTool {
            session_id: self.session_id,
            request_id: next_request_id(counter),
            tool_name: self.schema.name.clone(),
            input,
        }
    }

    /// What the reply comes to.
    pub fn outcome(reply: ToolReply) -> (r: Result<ToolOutput, ToolError>)
        ensures
            turn_loop::outcome(r) == reply_outcome(reply),
    {
        match reply {
            ToolReply::Response(response) => {
                if response.invalidations.len() == 0 {
                    assert(response.invalidations.deep_view() =~= Seq::empty());
                    Ok(ToolOutput::readonly(response.result))
                } else {
                    Ok(ToolOutput::with_invalidations(response.result, response.invalidations))
                }
            },
            ToolReply::Timeout => Err(ToolError::Timeout),
            ToolReply::Disconnected => Err(
                ToolError::ExecutionFailed("distro disconnected".to_owned()),
            ),
            ToolReply::NotSent(e) => {
                let mut message = "channel send failed: ".to_owned();
                message.push_str(e.as_str());
                Err(ToolError::ExecutionFailed(message))
            },
        }
    }
}

// ---------------------------------------------------------------------------
// Laws
// ---------------------------------------------------------------------------

/// A call comes to what was sent back, with all that it made stale. Without a
/// response it fails, and says how.
pub proof fn law_replies_are_the_outcome(response: ToolResponse, e: String)
    ensures
        reply_outcome(ToolReply::Response(response)) matches Ok(output) && output.result
            == response.result.deep_view() && output.invalidations
            == response.invalidations.deep_view(),
        reply_outcome(ToolReply::Timeout) matches Err(tool::ToolErrorView::Timeout),
        reply_outcome(ToolReply::Disconnected) == Err::<tool::ToolOutputView, tool::ToolErrorView>(
            tool::ToolErrorView::ExecutionFailed("distro disconnected"@),
        ),
        reply_outcome(ToolReply::NotSent(e)) == Err::<tool::ToolOutputView, tool::ToolErrorView>(
            tool::ToolErrorView::ExecutionFailed("channel send failed: "@ + e@),
        ),
{
}

} // verus!
