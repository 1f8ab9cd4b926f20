//! The server side of the local workspace: answers JSON-RPC requests, one per
//! line, with the workspace's tools.

use crate::json;
use crate::json::Json;
use crate::mcp_stdio;

use crate::text;
use crate::text::same;
use crate::tool;
use crate::tool::{ToolChunkStream, ToolError, ToolOutput};
use crate::turn_loop;
use crate::workspace_local;
use crate::workspace_local::{tool_names, LocalWorkspace, ShellRun};
use vstd::prelude::*;
use vstd::string::*;

verus! {

// ---------------------------------------------------------------------------
// Responses
// ---------------------------------------------------------------------------

/// The id that a response carries: that of the request, or null.
pub open spec fn id_or_null(id: Option<json::JsonView>) -> json::JsonView {
    match id {
        Some(doc) => doc,
        None => json::JsonView::Null,
    }
}

/// A response with a result.
pub open spec fn ok_doc(id: Option<json::JsonView>, result: json::JsonView) -> json::JsonView {
    json::json_object().with("jsonrpc"@, json::JsonView::Str("2.0"@)).with(
        "id"@,
        id_or_null(id),
    ).with("result"@, result)
}

/// A response with an error.
pub open spec fn err_doc(
    id: Option<json::JsonView>,
    code: i64,
    message: Seq<char>,
) -> json::JsonView {
    json::json_object().with("jsonrpc"@, json::JsonView::Str("2.0"@)).with(
        "id"@,
        id_or_null(id),
    ).with(
        "error"@,
        json::json_object().with("code"@, json::json_int(code)).with(
            "message"@,
            json::JsonView::Str(message),
        ),
    )
}

fn id_of(id: Option<Json>) -> (r: Json)
    ensures
        r.deep_view() == id_or_null(id.deep_view()),
{
    match id {
        Some(doc) => doc,
        None => Json::Null,
    }
}

/// A response with a result.
pub fn ok_response(id: Option<Json>, result: Json) -> (r: Json)
    ensures
        r.deep_view() == ok_doc(id.deep_view(), result.deep_view()),
{
    Json::object().with("jsonrpc", Json::text("2.0")).with("id", id_of(id)).with("result", result)
}

/// A response with an error.
pub fn err_response(id: Option<Json>, code: i64, message: &str) -> (r: Json)
    ensures
        r.deep_view() == err_doc(id.deep_view(), code, message@),
{
    Json::object().with("jsonrpc", Json::text("2.0")).with("id", id_of(id)).with(
        "error",
        Json::object().with("code", Json::integer(code)).with("message", Json::text(message)),
    )
}

/// The response to a line that is no JSON document.
pub fn parse_error(message: &str) -> (r: Json)
    ensures
        r.deep_view() == err_doc(None, -32700i64, "parse error: "@ + message@),
{
    let mut said = "parse error: ".to_owned();
    said.push_str(message);
    err_response(None, -32700i64, said.as_str())
}

/// A text as the content of a result.
pub open spec fn text_content(t: Seq<char>) -> json::JsonView {
    json::json_object().with(
        "content"@,
        json::JsonView::Array(
            seq![
                json::json_object().with("type"@, json::JsonView::Str("text"@)).with(
                    "text"@,
                    json::JsonView::Str(t),
                ),
            ],
        ),
    )
}

fn text_content_of(t: String) -> (r: Json)
    ensures
        r.deep_view() == text_content(t@),
{
    let ghost said = t@;
    let item = Json::object().with("type", Json::text("text")).with("text", Json::Str(t));
    let ghost view = item.deep_view();
    let mut items: Vec<Json> = Vec::new();
    items.push(item);
    proof {
        json::lemma_json_items(items@);
        assert(json::json_items(items@) =~= seq![view]);
    }
    Json::object().with("content", Json::Array(items))
}

/// The response to a call, given its outcome.
pub open spec fn call_reply(
    id: Option<json::JsonView>,
    outcome: Result<tool::ToolOutputView, tool::ToolErrorView>,
) -> json::JsonView {
    match outcome {
        Ok(output) => ok_doc(id, text_content(json::json_text(output.result))),
        Err(e) => err_doc(id, -32000i64, e.message()),
    }
}

/// The response to a call, given its outcome.
pub fn call_response(id: Option<Json>, outcome: Result<ToolOutput, ToolError>) -> (r: Json)
    ensures
        r.deep_view() == call_reply(id.deep_view(), turn_loop::outcome(outcome)),
{
    match outcome {
        Ok(output) => ok_response(id, text_content_of(output.result.to_text())),
        Err(e) => err_response(id, -32000i64, e.message().as_str()),
    }
}

/// What a command that was run comes to, in full.
pub open spec fn shell_doc(
    exit_code: i64,
    stdout: Seq<char>,
    stderr: Seq<char>,
) -> json::JsonView {
    json::json_object().with("exit_code"@, json::json_int(exit_code)).with(
        "stdout"@,
        json::JsonView::Str(stdout),
    ).with("stderr"@, json::JsonView::Str(stderr))
}

/// The response to a call of the shell, given what became of the command.
pub open spec fn shell_reply(
    id: Option<json::JsonView>,
    run: Result<ShellRun, String>,
) -> json::JsonView {
    match run {
        Ok(done) => ok_doc(
            id,
            text_content(
                json::json_text(
                    shell_doc(
                        match done.exit_code {
                            Some(code) => code as i64,
                            None => -1i64,
                        },
                        done.stdout@,
                        done.stderr@,
                    ),
                ),
            ),
        ),
        Err(e) => err_doc(id, -32000i64, e@),
    }
}

/// The response to a call of the shell, given what became of the command.
pub fn shell_response(id: Option<Json>, run: Result<ShellRun, String>) -> (r: Json)
    ensures
        r.deep_view() == shell_reply(id.deep_view(), run),
{
    match run {
        Ok(done) => {
            let code: i64 = match done.exit_code {
                Some(code) => code as i64,
                None => -1,
            };
            let body = Json::object().with("exit_code", Json::integer(code)).with(
                "stdout",
                Json::Str(done.stdout),
            ).with("stderr", Json::Str(done.stderr));
            ok_response(id, text_content_of(body.to_text()))
        },
        Err(e) => err_response(id, -32000i64, e.as_str()),
    }
}

/// The name of a stream in a report.
pub open spec fn stream_name(stream: ToolChunkStream) -> Seq<char> {
    match stream {
        ToolChunkStream::Stdout => "stdout"@,
        ToolChunkStream::Stderr => "stderr"@,
        ToolChunkStream::Text => "text"@,
    }
}

/// A report of progress with a chunk of output.
pub open spec fn report_doc(
    token: json::JsonView,
    stream: ToolChunkStream,
    data: Seq<char>,
) -> json::JsonView {
    json::json_object().with("jsonrpc"@, json::JsonView::Str("2.0"@)).with(
        "method"@,
        json::JsonView::Str("notifications/progress"@),
    ).with(
        "params"@,
        json::json_object().with("progressToken"@, token).with(
            "_meta"@,
            json::json_object().with(
                "agent_kernel/chunk"@,
                json::json_object().with("stream"@, json::JsonView::Str(stream_name(stream))).with(
                    "data"@,
                    json::JsonView::Str(data),
                ),
            ),
        ),
    )
}

/// A report of progress with a chunk of output.
pub fn progress_report(token: &Json, stream: ToolChunkStream, data: &str) -> (r: Json)
    ensures
        r.deep_view() == report_doc(token.deep_view(), stream, data@),
{
    let name = match stream {
        ToolChunkStream::Stdout => "stdout",
        ToolChunkStream::Stderr => "stderr",
        ToolChunkStream::Text => "text",
    };
    let chunk = Json::object().with("stream", Json::text(name)).with("data", Json::text(data));
    Json::object().with("jsonrpc", Json::text("2.0")).with(
        "method",
        Json::text("notifications/progress"),
    ).with(
        "params",
        Json::object().with("progressToken", token.clone()).with(
            "_meta",
            Json::object().with("agent_kernel/chunk", chunk),
        ),
    )
}

// ---------------------------------------------------------------------------
// The server
// ---------------------------------------------------------------------------

/// What the server does with a line.
#[derive(Debug)]
pub enum ServerNext {
    /// Nothing.
    Ignore,
    /// Send a response.
    Reply(Json),
    /// Send a response, and stop.
    ReplyAndStop(Json),
    /// Run a command, report its output as it comes where there is a token, and
    /// send what it comes to.
    Shell { id: Option<Json>, command: String, token: Option<Json> },
    /// Call a tool, and send what it comes to.
    Call { id: Option<Json>, name: String, arguments: Json },
}

#[verifier::ext_equal]
pub ghost enum ServerNextView {
    Ignore,
    Reply(json::JsonView),
    ReplyAndStop(json::JsonView),
    Shell { id: Option<json::JsonView>, command: Seq<char>, token: Option<json::JsonView> },
    Call { id: Option<json::JsonView>, name: Seq<char>, arguments: json::JsonView },
}

impl DeepView for ServerNext {
    type V = ServerNextView;

    open spec fn deep_view(&self) -> ServerNextView {
        match self {
            ServerNext::Ignore => ServerNextView::Ignore,
            ServerNext::Reply(doc) => ServerNextView::Reply(doc.deep_view()),
            ServerNext::ReplyAndStop(doc) => ServerNextView::ReplyAndStop(doc.deep_view()),
            ServerNext::Shell { id, command, token } => ServerNextView::Shell {
                id: id.deep_view(),
                command: command@,
                token: token.deep_view(),
            },
            ServerNext::Call { id, name, arguments } => ServerNextView::Call {
                id: id.deep_view(),
                name: name@,
                arguments: arguments.deep_view(),
            },
        }
    }
}

/// The server. It refuses most requests until it was initialized.
#[derive(Debug)]
pub struct McpServer {
    root: String,
    ready: bool,
}

#[verifier::ext_equal]
pub ghost struct ServerView {
    /// The directory of the workspace.
    pub root: Seq<char>,
    /// Whether the server was initialized.
    pub ready: bool,
}

impl View for McpServer {
    type V = ServerView;

    closed spec fn view(&self) -> ServerView {
        ServerView { root: self.root@, ready: self.ready }
    }
}

/// What the server says of itself.
pub open spec fn server_info() -> json::JsonView {
    json::json_object().with("protocolVersion"@, json::JsonView::Str("2024-11-05"@)).with(
        "serverInfo"@,
        json::json_object().with("name"@, json::JsonView::Str("kernel-workspace-local"@)).with(
            "version"@,
            json::JsonView::Str("0.1.0"@),
        ),
    ).with(
        "capabilities"@,
        json::json_object().with(
            "tools"@,
            json::json_object().with("listChanged"@, json::JsonView::Bool(false)),
        ),
    )
}

/// What the server says of a tool.
pub open spec fn advertised(t: tool::ToolSchemaView) -> json::JsonView {
    json::json_object().with("name"@, json::JsonView::Str(t.name)).with(
        "description"@,
        json::JsonView::Str(t.description),
    ).with("inputSchema"@, t.schema)
}

/// What the server says of its tools.
pub open spec fn advertised_tools() -> json::JsonView {
    let tools = workspace_local::workspace_views();
    json::json_object().with(
        "tools"@,
        json::JsonView::Array(Seq::new(tools.len(), |i: int| advertised(tools[i]))),
    )
}

/// The parameters of a request, or null.
pub open spec fn params_of(request: json::JsonView) -> json::JsonView {
    match request.get("params"@) {
        Some(params) => params,
        None => json::JsonView::Null,
    }
}

/// The member `inner` of the member `outer`.
pub open spec fn nested(
    doc: json::JsonView,
    outer: Seq<char>,
    inner: Seq<char>,
) -> Option<json::JsonView> {
    match doc.get(outer) {
        Some(part) => part.get(inner),
        None => None,
    }
}

/// The arguments of a call; without any they are an empty object.
pub open spec fn arguments_of(params: json::JsonView) -> json::JsonView {
    match params.get("arguments"@) {
        Some(arguments) => arguments,
        None => json::json_object(),
    }
}

/// The name of the tool to call, or an empty one.
pub open spec fn called_name(params: json::JsonView) -> Seq<char> {
    match params.get_str("name"@) {
        Some(name) => name,
        None => ""@,
    }
}

impl ServerView {
    /// The server after a request.
    pub open spec fn after(self, request: json::JsonView) -> ServerView {
        if request.get_str("method"@) == Some("initialize"@) {
            ServerView {
                root: match nested(params_of(request), "agent_kernel"@, "root"@) {
                    Some(json::JsonView::Str(root)) => root,
                    _ => self.root,
                },
                ready: true,
            }
        } else {
            self
        }
    }

    /// What a request to call a tool comes to.
    pub open spec fn call(
        self,
        id: Option<json::JsonView>,
        params: json::JsonView,
    ) -> ServerNextView {
        let name = called_name(params);
        let arguments = arguments_of(params);
        if !self.ready {
            ServerNextView::Reply(err_doc(id, -32002i64, "not initialized"@))
        } else if name == "shell"@ {
            match arguments.get_str("command"@) {
                Some(command) => ServerNextView::Shell {
                    id,
                    command,
                    token: nested(params, "_meta"@, "progressToken"@),
                },
                None => ServerNextView::Reply(err_doc(id, -32602i64, "missing 'command' argument"@)),
            }
        } else if workspace_local::workspace_names().contains(name) {
            ServerNextView::Call { id, name, arguments }
        } else {
            ServerNextView::Reply(err_doc(id, -32601i64, "unknown tool"@))
        }
    }

    /// What a request comes to.
    pub open spec fn next(self, request: json::JsonView) -> ServerNextView {
        let id = request.get("id"@);
        let method = request.get_str("method"@);
        if method == Some("initialize"@) {
            ServerNextView::Reply(ok_doc(id, server_info()))
        } else if method == Some("tools/list"@) {
            if self.ready {
                ServerNextView::Reply(ok_doc(id, advertised_tools()))
            } else {
                ServerNextView::Reply(err_doc(id, -32002i64, "not initialized"@))
            }
        } else if method == Some("tools/call"@) {
            self.call(id, params_of(request))
        } else if method == Some("shutdown"@) || method == Some("exit"@) {
            ServerNextView::ReplyAndStop(ok_doc(id, json::JsonView::Null))
        } else if id is Some {
            ServerNextView::Reply(err_doc(id, -32601i64, "method not found"@))
        } else {
            ServerNextView::Ignore
        }
    }
}

fn copied(doc: Option<&Json>) -> (r: Option<Json>)
    ensures
        r.deep_view() == doc.deep_view(),
{
    match doc {
        Some(d) => Some(d.clone()),
        None => None,
    }
}

fn nested_of<'a>(doc: &'a Json, outer: &str, inner: &str) -> (r: Option<&'a Json>)
    ensures
        r.deep_view() == nested(doc.deep_view(), outer@, inner@),
{
    match doc.get(outer) {
        Some(part) => part.get(inner),
        None => None,
    }
}

fn advertised_tools_doc(root: &str) -> (r: Json)
    ensures
        r.deep_view() == advertised_tools(),
{
    let tools = LocalWorkspace::new("workspace.local".to_owned(), root.to_owned()).tools();
    let ghost views = workspace_local::workspace_views();
    let ghost all = Seq::new(views.len(), |i: int| advertised(views[i]));
    let mut docs: Vec<Json> = Vec::new();
    let mut i: usize = 0;
    assert(docs.deep_view() =~= all.take(0));
    while i < tools.len()
        invariant
            views == tools.deep_view(),
            all == Seq::new(views.len(), |i: int| advertised(views[i])),
            i <= tools@.len() == views.len(),
            docs.deep_view() == all.take(i as int),
        decreases tools@.len() - i,
    {
        let ghost before = docs.deep_view();
        docs.push(
            Json::object().with("name", Json::text(tools[i].name.as_str())).with(
                "description",
                Json::text(tools[i].description.as_str()),
            ).with("inputSchema", tools[i].schema.clone()),
        );
        assert(views[i as int] == tools@[i as int].deep_view());
        assert(docs.deep_view() =~= before.push(all[i as int]));
        assert(all.take(i + 1) =~= before.push(all[i as int]));
        i += 1;
    }
    assert(all.take(i as int) =~= all);
    proof {
        json::lemma_json_items(docs@);
        assert(json::json_items(docs@) =~= docs.deep_view());
    }
    Json::object().with("tools", Json::Array(docs))
}

fn is_tool(name: &str) -> (r: bool)
    ensures
        r == workspace_local::workspace_names().contains(name@),
{
    let names = tool_names();
    let mut i: usize = 0;
    while i < names.len()
        invariant
            names.deep_view() == workspace_local::workspace_names(),
            i <= names@.len() == names.deep_view().len(),
            forall|k: int| 0 <= k < i ==> #[trigger] names.deep_view()[k] != name@,
        decreases names@.len() - i,
    {
        if same(names[i].as_str(), name) {
            assert(names.deep_view()[i as int] == name@);
            return true;
        }
        i += 1;
    }
    false
}

impl McpServer {
    /// A server that was not initialized yet.
    pub fn new() -> (r: Self)
        ensures
            r@ == (ServerView { root: "."@, ready: false }),
    {
        McpServer { root: ".".to_owned(), ready: false }
    }

    /// The directory of the workspace.
    pub fn root(&self) -> (r: &str)
        ensures
            r@ == self@.root,
    {
        self.root.as_str()
    }

    fn call(&self, id: Option<Json>, params: &Json) -> (r: ServerNext)
        ensures
            r.deep_view() == self@.call(id.deep_view(), params.deep_view()),
    {
        if !self.ready {
            return ServerNext::Reply(err_response(id, -32002i64, "not initialized"));
        }
        let name: String = match params.get_str("name") {
            Some(name) => name.to_owned(),
            None => "".to_owned(),
        };
        let arguments = match params.get("arguments") {
            Some(arguments) => arguments.clone(),
            None => Json::object(),
        };
        if same(name.as_str(), "shell") {
            match arguments.get_str("command") {
                Some(command) => ServerNext::Shell {
                    id,
                    command: command.to_owned(),
                    token: copied(nested_of(params, "_meta", "progressToken")),
                },
                None => ServerNext::Reply(
                    err_response(id, -32602i64, "missing 'command' argument"),
                ),
            }
        } else if is_tool(name.as_str()) {
            ServerNext::Call { id, name, arguments }
        } else {
            ServerNext::Reply(err_response(id, -32601i64, "unknown tool"))
        }
    }

    /// Takes in a request.
    pub fn take_request(&mut self, request: &Json) -> (r: ServerNext)
        ensures
            r.deep_view() == old(self)@.next(request.deep_view()),
            final(self)@ == old(self)@.after(request.deep_view()),
    {
        let id = copied(request.get("id"));
        let method: &str = match request.get_str("method") {
            Some(method) => method,
            None => {
                return if id.is_some() {
                    ServerNext::Reply(err_response(id, -32601i64, "method not found"))
                } else {
                    ServerNext::Ignore
                };
            },
        };
        let null = Json::Null;
        let params: &Json = match request.get("params") {
            Some(params) => params,
            None => &null,
        };
        if same(method, "initialize") {
            match nested_of(params, "agent_kernel", "root") {
                Some(Json::Str(root)) => {
                    self.root = root.clone();
                },
                _ => {},
            }
            self.ready = true;
            let info = Json::object().with("protocolVersion", Json::text("2024-11-05")).with(
                "serverInfo",
                Json::object().with("name", Json::text("kernel-workspace-local")).with(
                    "version",
                    Json::text("0.1.0"),
                ),
            ).with(
                "capabilities",
                Json::object().with(
                    "tools",
                    Json::object().with("listChanged", Json::Bool(false)),
                ),
            );
            ServerNext::Reply(ok_response(id, info))
        } else if same(method, "tools/list") {
            if self.ready {
                ServerNext::Reply(ok_response(id, advertised_tools_doc(self.root.as_str())))
            } else {
                ServerNext::Reply(err_response(id, -32002i64, "not initialized"))
            }
        } else if same(method, "tools/call") {
            self.call(id, params)
        } else if same(method, "shutdown") || same(method, "exit") {
            ServerNext::ReplyAndStop(ok_response(id, Json::Null))
        } else if id.is_some() {
            ServerNext::Reply(err_response(id, -32601i64, "method not found"))
        } else {
            ServerNext::Ignore
        }
    }

    /// Takes in a line, which was read as `parsed`.
    pub fn take_parsed(&mut self, parsed: Result<Json, String>) -> (r: ServerNext)
        ensures
            match parsed {
                Ok(request) => {
                    &&& r.deep_view() == old(self)@.next(request.deep_view())
                    &&& final(self)@ == old(self)@.after(request.deep_view())
                },
                Err(e) => r.deep_view() == ServerNextView::Reply(
                    err_doc(None, -32700i64, "parse error: "@ + e@),
                ) && final(self)@ == old(self)@,
            },
    {
        match parsed {
            Ok(request) => self.take_request(&request),
            Err(e) => ServerNext::Reply(parse_error(e.as_str())),
        }
    }

    /// Takes in a line. A blank one is ignored.
    pub fn take_line(&mut self, line: &str) -> (r: ServerNext)
        ensures
            if text::trim(line@).len() == 0 {
                r.deep_view() == ServerNextView::Ignore && final(self)@ == old(self)@
            } else {
                match json::json_parsed(text::trim(line@)) {
                    Ok(request) => {
                        &&& r.deep_view() == old(self)@.next(request)
                        &&& final(self)@ == old(self)@.after(request)
                    },
                    Err(e) => r.deep_view() == ServerNextView::Reply(
                        err_doc(None, -32700i64, "parse error: "@ + e),
                    ) && final(self)@ == old(self)@,
                }
            },
    {
        if text::is_blank(line) {
            return ServerNext::Ignore;
        }
        let body = text::trimmed(line);
        self.take_parsed(Json::parse(body.as_str()))
    }
}

// ---------------------------------------------------------------------------
// Laws
// ---------------------------------------------------------------------------

/// A response of the server is what a client that made the request takes it
/// for: the result where there is one, the error where there is one.
pub proof fn law_responses_are_understood(
    id: u64,
    method: Seq<char>,
    result: json::JsonView,
    code: i64,
    message: Seq<char>,
)
    ensures
        ({
            let asked = Some(json::JsonView::Number(json::JsonNumber::U64(id)));
            &&& mcp_stdio::answer_to(id, method, ok_doc(asked, result)) == Some(
                Ok::<json::JsonView, Seq<char>>(result),
            )
            &&& mcp_stdio::answer_to(id, method, err_doc(asked, code, message)) matches Some(Err(_))
            &&& forall|other: u64|
                other != id ==> mcp_stdio::answer_to(other, method, ok_doc(asked, result)) is None
        }),
{
    lemma_response_keys();
}

proof fn lemma_response_keys()
    ensures
        "id"@ != "result"@,
        "id"@ != "error"@,
        "error"@ != "result"@,
        "error"@ != "jsonrpc"@,
        "error"@ != "id"@,
{
    reveal_strlit("id");
    reveal_strlit("result");
    reveal_strlit("error");
    reveal_strlit("jsonrpc");
    assert("id"@.len() == 2);
    assert("result"@.len() == 6);
    assert("error"@.len() == 5);
    assert("jsonrpc"@.len() == 7);
}

/// A report of the server is what the client of the call takes it for: output
/// of the same stream, with a line break at its end.
pub proof fn law_reports_are_understood(
    call: mcp_stdio::CallView,
    stream: ToolChunkStream,
    data: Seq<char>,
)
    ensures
        ({
            let report = report_doc(json::JsonView::Str(call.token), stream, data);
            call.step(report) == (mcp_stdio::CallStepView::Chunk {
                stream,
                data: if data.len() > 0 && data.last() == '\n' {
                    data
                } else {
                    data + "\n"@
                },
            })
        }),
{
    reveal_strlit("id");
    reveal_strlit("jsonrpc");
    reveal_strlit("method");
    reveal_strlit("params");
    reveal_strlit("progressToken");
    reveal_strlit("_meta");
    reveal_strlit("stream");
    reveal_strlit("data");
    reveal_strlit("stdout");
    reveal_strlit("stderr");
    reveal_strlit("text");
    assert("id"@.len() == 2);
    assert("jsonrpc"@.len() == 7);
    assert("method"@.len() == 6);
    assert("params"@.len() == 6);
    assert("method"@[0] == 'm');
    assert("params"@[0] == 'p');
    assert("progressToken"@.len() == 13);
    assert("_meta"@.len() == 5);
    assert("stream"@.len() == 6);
    assert("data"@.len() == 4);
    assert("stdout"@[3] == 'o');
    assert("stderr"@[3] == 'e');
    assert("stdout"@.len() == 6);
    assert("text"@.len() == 4);
    assert("stderr"@.len() == 6);
}

/// Until it is initialized the server runs nothing.
pub proof fn law_nothing_runs_before_initialize(server: ServerView, request: json::JsonView)
    requires
        !server.ready,
    ensures
        !(server.next(request) is Shell),
        !(server.next(request) is Call),
        server.after(request).ready <==> request.get_str("method"@) == Some("initialize"@),
{
    reveal_strlit("initialize");
    reveal_strlit("tools/list");
    reveal_strlit("tools/call");
    assert("initialize"@[0] == 'i');
    assert("tools/list"@[0] == 't');
    assert("tools/call"@[0] == 't');
}

/// By these the words differ.
proof fn lemma_words_differ()
    ensures
        "jsonrpc"@.len() == 7 && "jsonrpc"@[0] == 'j',
        "id"@.len() == 2,
        "method"@.len() == 6 && "method"@[0] == 'm',
        "params"@.len() == 6 && "params"@[0] == 'p',
        "name"@.len() == 4 && "name"@[0] == 'n',
        "arguments"@.len() == 9 && "arguments"@[0] == 'a',
        "_meta"@.len() == 5 && "_meta"@[0] == '_',
        "progressToken"@.len() == 13,
        "result"@.len() == 6 && "result"@[0] == 'r',
        "error"@.len() == 5 && "error"@[0] == 'e',
        "code"@.len() == 4 && "code"@[0] == 'c',
        "message"@.len() == 7 && "message"@[0] == 'm',
        "content"@.len() == 7 && "content"@[0] == 'c' && "content"@[2] == 'n',
        "type"@.len() == 4 && "type"@[0] == 't' && "type"@[1] == 'y',
        "text"@.len() == 4 && "text"@[0] == 't' && "text"@[1] == 'e',
        "tools"@.len() == 5 && "tools"@[0] == 't',
        "description"@.len() == 11 && "description"@[0] == 'd',
        "inputSchema"@.len() == 11 && "inputSchema"@[0] == 'i',
        "exit_code"@.len() == 9 && "exit_code"@[0] == 'e',
        "stdout"@.len() == 6 && "stdout"@[0] == 's' && "stdout"@[3] == 'o',
        "stderr"@.len() == 6 && "stderr"@[0] == 's' && "stderr"@[3] == 'e',
        "initialize"@.len() == 10 && "initialize"@[0] == 'i',
        "tools/list"@.len() == 10 && "tools/list"@[0] == 't' && "tools/list"@[6] == 'l',
        "tools/call"@.len() == 10 && "tools/call"@[0] == 't' && "tools/call"@[6] == 'c',
        "shutdown"@.len() == 8,
        "exit"@.len() == 4 && "exit"@[0] == 'e',
        "capabilities"@.len() == 12 && "capabilities"@[0] == 'c',
        "serverInfo"@.len() == 10 && "serverInfo"@[0] == 's',
        "protocolVersion"@.len() == 15,
        "version"@.len() == 7 && "version"@[0] == 'v',
        "agent_kernel"@.len() == 12 && "agent_kernel"@[0] == 'a',
        "root"@.len() == 4 && "root"@[0] == 'r',
        "command"@.len() == 7 && "command"@[0] == 'c' && "command"@[2] == 'm',
        "shell"@.len() == 5 && "shell"@[0] == 's',
{
    reveal_strlit("jsonrpc");
    reveal_strlit("id");
    reveal_strlit("method");
    reveal_strlit("params");
    reveal_strlit("name");
    reveal_strlit("arguments");
    reveal_strlit("_meta");
    reveal_strlit("progressToken");
    reveal_strlit("result");
    reveal_strlit("error");
    reveal_strlit("code");
    reveal_strlit("message");
    reveal_strlit("content");
    reveal_strlit("type");
    reveal_strlit("text");
    reveal_strlit("tools");
    reveal_strlit("description");
    reveal_strlit("inputSchema");
    reveal_strlit("exit_code");
    reveal_strlit("stdout");
    reveal_strlit("stderr");
    reveal_strlit("initialize");
    reveal_strlit("tools/list");
    reveal_strlit("tools/call");
    reveal_strlit("shutdown");
    reveal_strlit("exit");
    reveal_strlit("capabilities");
    reveal_strlit("serverInfo");
    reveal_strlit("protocolVersion");
    reveal_strlit("version");
    reveal_strlit("agent_kernel");
    reveal_strlit("root");
    reveal_strlit("command");
    reveal_strlit("shell");
}

/// A call that a client makes reaches the tool that it names, with the input that
/// it gives; a command reaches the shell, with the token under which its output is
/// reported. Either keeps the id under which the client waits.
pub proof fn law_calls_reach_their_tool(
    server: ServerView,
    id: u64,
    token: Seq<char>,
    name: Seq<char>,
    input: json::JsonView,
)
    requires
        server.ready,
    ensures
        ({
            let request = mcp_stdio::call_doc(id, token, name, input);
            let asked = Some(json::JsonView::Number(json::JsonNumber::U64(id)));
            &&& name != "shell"@ && workspace_local::workspace_names().contains(name)
                ==> server.next(request) == (ServerNextView::Call {
                id: asked,
                name,
                arguments: input,
            })
            &&& name == "shell"@ && input.get_str("command"@) is Some ==> server.next(request) == (
            ServerNextView::Shell {
                id: asked,
                command: input.get_str("command"@)->0,
                token: Some(json::JsonView::Str(token)),
            })
            &&& name == "shell"@ && input.get_str("command"@) is None ==> server.next(request)
                == ServerNextView::Reply(
                err_doc(asked, -32602i64, "missing 'command' argument"@),
            )
            &&& name != "shell"@ && !workspace_local::workspace_names().contains(name)
                ==> server.next(request) == ServerNextView::Reply(
                err_doc(asked, -32601i64, "unknown tool"@),
            )
            &&& server.after(request) == server
        }),
{
    lemma_words_differ();
}

/// What a tool comes to is what the client of the call gets: the result, where its
/// text reads back as itself, and otherwise the error.
pub proof fn law_results_reach_the_client(
    call: mcp_stdio::CallView,
    output: tool::ToolOutputView,
    e: tool::ToolErrorView,
)
    requires
        json::json_text(output.result).len() > 0,
        json::reads_as(json::json_text(output.result), output.result),
    ensures
        ({
            let asked = Some(json::JsonView::Number(json::JsonNumber::U64(call.id)));
            &&& call.step(call_reply(asked, Ok(output))) matches mcp_stdio::CallStepView::Done(got)
                && got.result == output.result
            &&& call.step(call_reply(asked, Err(e))) is Failed
            &&& call_reply(asked, Err(e)).get("error"@) matches Some(told) && told.get_str(
                "message"@,
            ) == Some(e.message()) && (told.get("code"@) matches Some(c) && c.as_i64() == Some(
                -32000i64,
            ))
        }),
{
    lemma_words_differ();
    let asked = Some(json::JsonView::Number(json::JsonNumber::U64(call.id)));
    let t = json::json_text(output.result);
    let item = json::json_object().with("type"@, json::JsonView::Str("text"@)).with(
        "text"@,
        json::JsonView::Str(t),
    );
    let items = seq![item];
    assert(items.drop_last() =~= Seq::empty());
    reveal_with_fuel(mcp_stdio::item_texts, 2);
    assert(mcp_stdio::item_texts(items) =~= seq![t]);
    reveal_strlit("");
    text::law_joins_concatenate(seq![t], seq![t], ""@);
    assert(text::join(seq![t], ""@) == t);
}

/// The tools that the server speaks of are the tools that a client finds: each
/// under its name, with its description and its schema, in the same order.
pub proof fn law_tools_are_found_as_advertised(tools: Seq<tool::ToolSchemaView>)
    ensures
        mcp_stdio::listed_tools(
            Seq::new(tools.len(), |i: int| advertised(tools[i])),
        ) matches Some(found) && found.len() == tools.len() && forall|i: int|
            0 <= i < found.len() ==> (#[trigger] found[i]).name == tools[i].name
                && found[i].description == tools[i].description && found[i].schema
                == tools[i].schema,
    decreases tools.len(),
{
    lemma_words_differ();
    let docs = Seq::new(tools.len(), |i: int| advertised(tools[i]));
    if tools.len() > 0 {
        let rest = tools.drop_last();
        law_tools_are_found_as_advertised(rest);
        assert(docs.drop_last() =~= Seq::new(rest.len(), |i: int| advertised(rest[i])));
        assert(docs.last() == advertised(tools.last()));
        let found = mcp_stdio::listed_tools(docs)->0;
        assert forall|i: int| 0 <= i < found.len() implies (#[trigger] found[i]).name
            == tools[i].name && found[i].description == tools[i].description && found[i].schema
            == tools[i].schema by {
            if i < rest.len() {
                assert(rest[i] == tools[i]);
                assert(found[i] == mcp_stdio::listed_tools(docs.drop_last())->0[i]);
            }
        }
    }
}

/// A server that is ready answers a request for its tools with all of them, and
/// one that is not refuses it. Every answer carries the id of the request.
pub proof fn law_the_server_answers(server: ServerView, id: u64, params: json::JsonView)
    ensures
        ({
            let asked = Some(json::JsonView::Number(json::JsonNumber::U64(id)));
            let hello = mcp_stdio::request_doc(id, "initialize"@, params);
            let list = mcp_stdio::request_doc(id, "tools/list"@, params);
            let over = mcp_stdio::request_doc(id, "shutdown"@, params);
            let leave = mcp_stdio::request_doc(id, "exit"@, params);
            &&& server.next(hello) matches ServerNextView::Reply(told)
                && mcp_stdio::answer_to(id, "initialize"@, told) == Some(
                Ok::<json::JsonView, Seq<char>>(server_info()),
            )
            &&& server.after(hello).ready
            &&& server.after(hello).root == (match nested(params, "agent_kernel"@, "root"@) {
                Some(json::JsonView::Str(root)) => root,
                _ => server.root,
            })
            &&& server.ready ==> (server.next(list) matches ServerNextView::Reply(told)
                && mcp_stdio::answer_to(id, "tools/list"@, told) == Some(
                Ok::<json::JsonView, Seq<char>>(advertised_tools()),
            ))
            &&& !server.ready ==> server.next(list) == ServerNextView::Reply(
                err_doc(asked, -32002i64, "not initialized"@),
            )
            &&& server.next(over) == ServerNextView::ReplyAndStop(
                ok_doc(asked, json::JsonView::Null),
            )
            &&& server.next(leave) == ServerNextView::ReplyAndStop(
                ok_doc(asked, json::JsonView::Null),
            )
            &&& server.after(list) == server && server.after(over) == server
        }),
{
    lemma_words_differ();
}

/// What the client tells a server of its root reaches the server, and the server
/// says which tools it has.
pub proof fn law_the_root_reaches_the_server(
    server: ServerView,
    id: u64,
    init: json::JsonView,
    root: Seq<char>,
)
    requires
        init.get_str("root"@) == Some(root),
    ensures
        server.after(
            mcp_stdio::request_doc(id, "initialize"@, mcp_stdio::initialize_doc(init)),
        ).root == root,
        advertised_tools().get("tools"@) matches Some(json::JsonView::Array(docs)) && docs
            == Seq::new(6, |i: int| advertised(workspace_local::workspace_views()[i])),
{
    lemma_words_differ();
    reveal_strlit("clientInfo");
    assert("clientInfo"@.len() == 10);
    assert(advertised_tools().get("tools"@)->0->Array_0 =~= Seq::new(
        6,
        |i: int| advertised(workspace_local::workspace_views()[i]),
    ));
}

/// A method that the server does not know is refused where an answer is awaited,
/// and passed over where none is.
pub proof fn law_unknown_methods_are_refused(
    server: ServerView,
    request: json::JsonView,
    method: Seq<char>,
)
    requires
        request.get_str("method"@) == Some(method),
        method != "initialize"@ && method != "tools/list"@ && method != "tools/call"@,
        method != "shutdown"@ && method != "exit"@,
    ensures
        request.get("id"@) is None ==> server.next(request) is Ignore,
        request.get("id"@) matches Some(id) ==> (server.next(request) matches ServerNextView::Reply(
            told,
        ) && told.get("id"@) == Some(id) && (told.get("error"@) matches Some(e) && e.get_str(
            "message"@,
        ) == Some("method not found"@))),
        server.after(request) == server,
{
    lemma_words_differ();
}

/// The answer to a command holds its exit code and what it wrote, in full.
pub proof fn law_a_command_is_answered_in_full(
    exit_code: i64,
    stdout: Seq<char>,
    stderr: Seq<char>,
)
    ensures
        shell_doc(exit_code, stdout, stderr).get("exit_code"@) matches Some(c) && c.as_i64()
            == Some(exit_code),
        shell_doc(exit_code, stdout, stderr).get_str("stdout"@) == Some(stdout),
        shell_doc(exit_code, stdout, stderr).get_str("stderr"@) == Some(stderr),
{
    lemma_words_differ();
}

/// What a command came to is what the client of the call gets: its exit code, or
/// -1 where a signal ended it, and all that it wrote. A command that could not be
/// run is an error, with why.
pub proof fn law_commands_reach_the_client(call: mcp_stdio::CallView, done: ShellRun, e: String)
    requires
        ({
            let code: i64 = match done.exit_code {
                Some(n) => n as i64,
                None => -1i64,
            };
            let doc = shell_doc(code, done.stdout@, done.stderr@);
            json::json_text(doc).len() > 0 && json::reads_as(json::json_text(doc), doc)
        }),
    ensures
        ({
            let asked = Some(json::JsonView::Number(json::JsonNumber::U64(call.id)));
            &&& call.step(shell_reply(asked, Ok(done))) matches mcp_stdio::CallStepView::Done(got)
                && got.result.get_str("stdout"@) == Some(done.stdout@) && got.result.get_str(
                "stderr"@,
            ) == Some(done.stderr@) && (got.result.get("exit_code"@) matches Some(c) && c.as_i64()
                == Some(
                match done.exit_code {
                    Some(n) => n as i64,
                    None => -1i64,
                },
            ))
            &&& call.step(shell_reply(asked, Err(e))) is Failed
            &&& shell_reply(asked, Err(e)).get("error"@) matches Some(told) && told.get_str(
                "message"@,
            ) == Some(e@)
        }),
{
    lemma_words_differ();
    let code: i64 = match done.exit_code {
        Some(n) => n as i64,
        None => -1i64,
    };
    let output = tool::ToolOutputView {
        result: shell_doc(code, done.stdout@, done.stderr@),
        invalidations: Seq::empty(),
    };
    law_results_reach_the_client(call, output, tool::ToolErrorView::Timeout);
    law_a_command_is_answered_in_full(code, done.stdout@, done.stderr@);
}

} // verus!
