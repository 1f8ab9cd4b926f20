//! The kernel within a process: the same messages as over a connection, without
//! one.

use crate::proxy_tool::ProxyTool;
use crate::tool;
use crate::tool::ToolSchema;
use crate::types::SessionId;
use vstd::prelude::*;
use vstd::string::*;

verus! {

/// A kernel within a process. Its tools are run by whoever holds it.
#[derive(Debug)]
pub struct InProcessKernel {
    tool_schemas: Vec<ToolSchema>,
    next_session_id: u64,
}

impl InProcessKernel {
    /// What the registered tools declare.
    pub closed spec fn tools(&self) -> Seq<tool::ToolSchemaView> {
        self.tool_schemas.deep_view()
    }

    /// The id of the next session.
    pub closed spec fn next_id(&self) -> u64 {
        self.next_session_id
    }

    pub fn new() -> (r: Self)
        ensures
            r.tools().len() == 0,
            r.next_id() == 0,
    {
        InProcessKernel { tool_schemas: Vec::new(), next_session_id: 0 }
    }

    /// Registers tools, in place of those registered before.
    pub fn register_tools(&mut self, schemas: Vec<ToolSchema>)
        ensures
            final(self).tools() == schemas.deep_view(),
            final(self).next_id() == old(self).next_id(),
    {
        self.tool_schemas = schemas;
    }

    /// The id of a new session, and its tools.
    pub fn create_session(&mut self) -> (r: (SessionId, Vec<ProxyTool>))
        ensures
            r.0 == SessionId(old(self).next_id()),
            r.1@.len() == old(self).tools().len(),
            forall|i: int|
                0 <= i < r.1@.len() ==> (#[trigger] r.1@[i]).schema.deep_view() == old(
                    self,
                ).tools()[i] && r.1@[i].session_id == r.0,
            final(self).tools() == old(self).tools(),
            final(self).next_id() == (if old(self).next_id() == u64::MAX {
                0
            } else {
                old(self).next_id() + 1
            }),
    {
        let session_id = SessionId(self.next_session_id);
        self.next_session_id = self.next_session_id.wrapping_add(1);
        let mut tools: Vec<ProxyTool> = Vec::new();
        let mut i: usize = 0;
        while i < self.tool_schemas.len()
            invariant
                i <= self.tool_schemas@.len() == self.tools().len(),
                tools@.len() == i,
                forall|k: int|
                    0 <= k < i ==> (#[trigger] tools@[k]).schema.deep_view() == self.tools()[k]
                        && tools@[k].session_id == session_id,
            decreases self.tool_schemas@.len() - i,
        {
            tools.push(ProxyTool::new(self.tool_schemas[i].clone(), session_id));
            i += 1;
        }
        (session_id, tools)
    }
}

} // verus!
