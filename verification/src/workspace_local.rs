//! A workspace on the local file system: six tools scoped to a directory.
//!
//! What a tool does to the file system is done by whoever runs it. Here stands
//! what it asks for, and what it makes of the outcome.

use crate::json;
use crate::json::Json;
use crate::manifest::{Toml, ToolsetEntry};
use crate::paths;
use crate::text;
use crate::text::{byte_len_of, count, cut_to, decimal_of, joined, lines_of, replaced_first, same};
use crate::tool;
use crate::tool::{ToolError, ToolOutput, ToolSchema};
use crate::turn_loop;
use crate::types;
use crate::types::{CapabilitySet, Invalidation, RelevanceSignal, TokenEstimate};
use vstd::prelude::*;
use vstd::string::*;

verus! {

// ---------------------------------------------------------------------------
// Declarations
// ---------------------------------------------------------------------------

/// A parameter of a tool.
pub open spec fn parameter(kind: Seq<char>, description: Seq<char>) -> json::JsonView {
    json::json_object().with("type"@, json::JsonView::Str(kind)).with(
        "description"@,
        json::JsonView::Str(description),
    )
}

fn parameter_doc(kind: &str, description: &str) -> (r: Json)
    ensures
        r.deep_view() == parameter(kind@, description@),
{
    Json::object().with("type", Json::text(kind)).with("description", Json::text(description))
}

/// The JSON Schema of an input with some parameters, of which some are
/// required.
pub open spec fn input_schema(
    parameters: json::JsonView,
    required: Seq<json::JsonView>,
) -> json::JsonView {
    let base = json::json_object().with("type"@, json::JsonView::Str("object"@)).with(
        "properties"@,
        parameters,
    );
    if required.len() == 0 {
        base
    } else {
        base.with("required"@, json::JsonView::Array(required))
    }
}

fn text_list(items: Vec<&'static str>) -> (r: Vec<String>)
    ensures
        r.deep_view() == Seq::new(items@.len(), |i: int| items@[i]@),
{
    let ghost all = Seq::new(items@.len(), |i: int| items@[i]@);
    let mut r: Vec<String> = Vec::new();
    let mut i: usize = 0;
    assert(r.deep_view() =~= all.take(0));
    while i < items.len()
        invariant
            all == Seq::new(items@.len(), |i: int| items@[i]@),
            i <= items@.len(),
            r.deep_view() == all.take(i as int),
        decreases items@.len() - i,
    {
        let ghost before = r.deep_view();
        r.push(items[i].to_owned());
        assert(r.deep_view() =~= before.push(all[i as int]));
        assert(all.take(i + 1) =~= before.push(all[i as int]));
        i += 1;
    }
    assert(all.take(i as int) =~= all);
    r
}

fn schema_doc(parameters: Json, required: Vec<&'static str>) -> (r: Json)
    ensures
        r.deep_view() == input_schema(
            parameters.deep_view(),
            Seq::new(required@.len(), |i: int| json::JsonView::Str(required@[i]@)),
        ),
{
    let base = Json::object().with("type", Json::text("object")).with("properties", parameters);
    if required.len() == 0 {
        return base;
    }
    let ghost all = Seq::new(required@.len(), |i: int| json::JsonView::Str(required@[i]@));
    let mut names: Vec<Json> = Vec::new();
    let mut i: usize = 0;
    assert(names.deep_view() =~= all.take(0));
    while i < required.len()
        invariant
            all == Seq::new(required@.len(), |i: int| json::JsonView::Str(required@[i]@)),
            i <= required@.len(),
            names.deep_view() == all.take(i as int),
        decreases required@.len() - i,
    {
        let ghost before = names.deep_view();
        names.push(Json::text(required[i]));
        assert(names.deep_view() =~= before.push(all[i as int]));
        assert(all.take(i + 1) =~= before.push(all[i as int]));
        i += 1;
    }
    assert(all.take(i as int) =~= all);
    proof {
        json::lemma_json_items(names@);
        assert(json::json_items(names@) =~= names.deep_view());
    }
    base.with("required", Json::Array(names))
}

/// What `file_read` declares.
pub open spec fn file_read_view() -> tool::ToolSchemaView {
    tool::ToolSchemaView {
        name: "file_read"@,
        description: "Read file contents with optional line range"@,
        capabilities: seq!["fs:read"@],
        schema: input_schema(
            json::json_object().with(
                "path"@,
                parameter("string"@, "File path relative to workspace"@),
            ).with(
                "offset"@,
                parameter("integer"@, "Line number to start reading from (1-based)"@),
            ).with("limit"@, parameter("integer"@, "Max number of lines to read"@)),
            seq![json::JsonView::Str("path"@)],
        ),
        cost: TokenEstimate(150),
        keywords: seq!["read"@, "file"@, "cat"@, "show"@, "contents"@],
        tags: seq!["filesystem"@],
    }
}

/// What `file_write` declares.
pub open spec fn file_write_view() -> tool::ToolSchemaView {
    tool::ToolSchemaView {
        name: "file_write"@,
        description: "Write full file contents"@,
        capabilities: seq!["fs:write"@],
        schema: input_schema(
            json::json_object().with(
                "path"@,
                parameter("string"@, "File path relative to workspace"@),
            ).with("content"@, parameter("string"@, "Full file content to write"@)),
            seq![json::JsonView::Str("path"@), json::JsonView::Str("content"@)],
        ),
        cost: TokenEstimate(150),
        keywords: seq!["write"@, "create"@, "save"@],
        tags: seq!["filesystem"@],
    }
}

/// What `file_edit` declares.
pub open spec fn file_edit_view() -> tool::ToolSchemaView {
    tool::ToolSchemaView {
        name: "file_edit"@,
        description: "Replace an exact string in a file with new text"@,
        capabilities: seq!["fs:write"@],
        schema: input_schema(
            json::json_object().with(
                "path"@,
                parameter("string"@, "File path relative to workspace"@),
            ).with(
                "old_string"@,
                parameter(
                    "string"@,
                    "The exact text to find and replace (must match uniquely)"@,
                ),
            ).with("new_string"@, parameter("string"@, "The replacement text"@)),
            seq![
                json::JsonView::Str("path"@),
                json::JsonView::Str("old_string"@),
                json::JsonView::Str("new_string"@),
            ],
        ),
        cost: TokenEstimate(150),
        keywords: seq!["edit"@, "replace"@, "change"@, "modify"@, "update"@],
        tags: seq!["filesystem"@],
    }
}

/// What `shell` declares.
pub open spec fn shell_view() -> tool::ToolSchemaView {
    tool::ToolSchemaView {
        name: "shell"@,
        description: "Execute a shell command in the workspace"@,
        capabilities: seq!["shell:exec"@],
        schema: input_schema(
            json::json_object().with(
                "command"@,
                parameter("string"@, "Shell command to execute"@),
            ),
            seq![json::JsonView::Str("command"@)],
        ),
        cost: TokenEstimate(200),
        keywords: seq!["run"@, "exec"@, "shell"@, "command"@, "bash"@],
        tags: seq!["shell"@],
    }
}

/// What `ls` declares.
pub open spec fn ls_view() -> tool::ToolSchemaView {
    tool::ToolSchemaView {
        name: "ls"@,
        description: "List directory contents"@,
        capabilities: seq!["fs:read"@],
        schema: input_schema(
            json::json_object().with(
                "path"@,
                parameter("string"@, "Directory path relative to workspace (default: '.')"@),
            ),
            Seq::empty(),
        ),
        cost: TokenEstimate(100),
        keywords: seq!["list"@, "ls"@, "directory"@, "files"@],
        tags: seq!["filesystem"@],
    }
}

/// What `grep` declares.
pub open spec fn grep_view() -> tool::ToolSchemaView {
    tool::ToolSchemaView {
        name: "grep"@,
        description: "Search file contents with grep"@,
        capabilities: seq!["fs:read"@],
        schema: input_schema(
            json::json_object().with(
                "pattern"@,
                parameter("string"@, "Search pattern (passed to grep -rn)"@),
            ).with(
                "path"@,
                parameter("string"@, "Directory to search in (default: '.')"@),
            ),
            seq![json::JsonView::Str("pattern"@)],
        ),
        cost: TokenEstimate(150),
        keywords: seq!["search"@, "grep"@, "find"@, "where"@],
        tags: seq!["search"@],
    }
}

/// Reads files.
#[derive(Debug)]
pub struct FileReadTool {
    pub workspace: String,
}

/// Writes files.
#[derive(Debug)]
pub struct FileWriteTool {
    pub workspace: String,
}

/// Edits files.
#[derive(Debug)]
pub struct FileEditTool {
    pub workspace: String,
}

/// Runs commands.
#[derive(Debug)]
pub struct ShellTool {
    pub workspace: String,
}

/// Lists directories.
#[derive(Debug)]
pub struct LsTool {
    pub workspace: String,
}

/// Searches files.
#[derive(Debug)]
pub struct GrepTool {
    pub workspace: String,
}

fn declared(
    name: &str,
    description: &str,
    capability: &str,
    schema: Json,
    cost: usize,
    keywords: Vec<&'static str>,
    tag: &'static str,
) -> (r: ToolSchema)
    ensures
        r.deep_view() == (tool::ToolSchemaView {
            name: name@,
            description: description@,
            capabilities: seq![capability@],
            schema: schema.deep_view(),
            cost: TokenEstimate(cost),
            keywords: Seq::new(keywords@.len(), |i: int| keywords@[i]@),
            tags: seq![tag@],
        }),
{
    let mut tags: Vec<String> = Vec::new();
    tags.push(tag.to_owned());
    assert(tags.deep_view() =~= seq![tag@]);
    ToolSchema {
        name: name.to_owned(),
        description: description.to_owned(),
        capabilities: CapabilitySet::of(capability),
        schema,
        cost: TokenEstimate(cost),
        relevance: RelevanceSignal { keywords: text_list(keywords), tags },
    }
}

impl FileReadTool {
    pub fn new(workspace: String) -> (r: Self)
        ensures
            r.workspace == workspace,
    {
        FileReadTool { workspace }
    }

    /// What the tool declares.
    pub fn schema(&self) -> (r: ToolSchema)
        ensures
            r.deep_view() == file_read_view(),
    {
        let parameters = Json::object().with(
            "path",
            parameter_doc("string", "File path relative to workspace"),
        ).with(
            "offset",
            parameter_doc("integer", "Line number to start reading from (1-based)"),
        ).with("limit", parameter_doc("integer", "Max number of lines to read"));
        let required = vec!["path"];
        proof {
            let named = Seq::new(
                required@.len(),
                |i: int| json::JsonView::Str(required@[i]@),
            );
            assert(named =~= seq![
                json::JsonView::Str("path"@),
            ]);
        }
        let r = declared(
            "file_read",
            "Read file contents with optional line range",
            "fs:read",
            schema_doc(parameters, required),
            150,
            vec!["read", "file", "cat", "show", "contents"],
            "filesystem",
        );
        assert(r.deep_view() =~~= file_read_view());
        r
    }
}

impl FileWriteTool {
    pub fn new(workspace: String) -> (r: Self)
        ensures
            r.workspace == workspace,
    {
        FileWriteTool { workspace }
    }

    /// What the tool declares.
    pub fn schema(&self) -> (r: ToolSchema)
        ensures
            r.deep_view() == file_write_view(),
    {
        let parameters = Json::object().with(
            "path",
            parameter_doc("string", "File path relative to workspace"),
        ).with("content", parameter_doc("string", "Full file content to write"));
        let required = vec!["path", "content"];
        proof {
            let named = Seq::new(
                required@.len(),
                |i: int| json::JsonView::Str(required@[i]@),
            );
            assert(named =~= seq![
                json::JsonView::Str("path"@),
                json::JsonView::Str("content"@),
            ]);
        }
        let r = declared(
            "file_write",
            "Write full file contents",
            "fs:write",
            schema_doc(parameters, required),
            150,
            vec!["write", "create", "save"],
            "filesystem",
        );
        assert(r.deep_view() =~~= file_write_view());
        r
    }
}

impl FileEditTool {
    pub fn new(workspace: String) -> (r: Self)
        ensures
            r.workspace == workspace,
    {
        FileEditTool { workspace }
    }

    /// What the tool declares.
    pub fn schema(&self) -> (r: ToolSchema)
        ensures
            r.deep_view() == file_edit_view(),
    {
        let parameters = Json::object().with(
            "path",
            parameter_doc("string", "File path relative to workspace"),
        ).with(
            "old_string",
            parameter_doc("string", "The exact text to find and replace (must match uniquely)"),
        ).with("new_string", parameter_doc("string", "The replacement text"));
        let required = vec!["path", "old_string", "new_string"];
        proof {
            let named = Seq::new(
                required@.len(),
                |i: int| json::JsonView::Str(required@[i]@),
            );
            assert(named =~= seq![
                json::JsonView::Str("path"@),
                json::JsonView::Str("old_string"@),
                json::JsonView::Str("new_string"@),
            ]);
        }
        let r = declared(
            "file_edit",
            "Replace an exact string in a file with new text",
            "fs:write",
            schema_doc(parameters, required),
            150,
            vec!["edit", "replace", "change", "modify", "update"],
            "filesystem",
        );
        assert(r.deep_view() =~~= file_edit_view());
        r
    }
}

impl ShellTool {
    pub fn new(workspace: String) -> (r: Self)
        ensures
            r.workspace == workspace,
    {
        ShellTool { workspace }
    }

    /// What the tool declares.
    pub fn schema(&self) -> (r: ToolSchema)
        ensures
            r.deep_view() == shell_view(),
    {
        let parameters = Json::object().with(
            "command",
            parameter_doc("string", "Shell command to execute"),
        );
        let required = vec!["command"];
        proof {
            let named = Seq::new(
                required@.len(),
                |i: int| json::JsonView::Str(required@[i]@),
            );
            assert(named =~= seq![
                json::JsonView::Str("command"@),
            ]);
        }
        let r = declared(
            "shell",
            "Execute a shell command in the workspace",
            "shell:exec",
            schema_doc(parameters, required),
            200,
            vec!["run", "exec", "shell", "command", "bash"],
            "shell",
        );
        assert(r.deep_view() =~~= shell_view());
        r
    }
}

impl LsTool {
    pub fn new(workspace: String) -> (r: Self)
        ensures
            r.workspace == workspace,
    {
        LsTool { workspace }
    }

    /// What the tool declares.
    pub fn schema(&self) -> (r: ToolSchema)
        ensures
            r.deep_view() == ls_view(),
    {
        let parameters = Json::object().with(
            "path",
            parameter_doc("string", "Directory path relative to workspace (default: '.')"),
        );
        let r = declared(
            "ls",
            "List directory contents",
            "fs:read",
            schema_doc(parameters, Vec::new()),
            100,
            vec!["list", "ls", "directory", "files"],
            "filesystem",
        );
        assert(r.deep_view() =~~= ls_view());
        r
    }
}

impl GrepTool {
    pub fn new(workspace: String) -> (r: Self)
        ensures
            r.workspace == workspace,
    {
        GrepTool { workspace }
    }

    /// What the tool declares.
    pub fn schema(&self) -> (r: ToolSchema)
        ensures
            r.deep_view() == grep_view(),
    {
        let parameters = Json::object().with(
            "pattern",
            parameter_doc("string", "Search pattern (passed to grep -rn)"),
        ).with("path", parameter_doc("string", "Directory to search in (default: '.')"));
        let required = vec!["pattern"];
        proof {
            let named = Seq::new(
                required@.len(),
                |i: int| json::JsonView::Str(required@[i]@),
            );
            assert(named =~= seq![
                json::JsonView::Str("pattern"@),
            ]);
        }
        let r = declared(
            "grep",
            "Search file contents with grep",
            "fs:read",
            schema_doc(parameters, required),
            150,
            vec!["search", "grep", "find", "where"],
            "search",
        );
        assert(r.deep_view() =~~= grep_view());
        r
    }
}

// ---------------------------------------------------------------------------
// Inputs
// ---------------------------------------------------------------------------

/// The text of a parameter, or an error that says that it is missing.
pub open spec fn required_text(
    input: json::JsonView,
    key: Seq<char>,
    missing: Seq<char>,
) -> Result<Seq<char>, tool::ToolErrorView> {
    match input.get_str(key) {
        Some(t) => Ok(t),
        None => Err(tool::ToolErrorView::InvalidInput(missing)),
    }
}

fn text_of<'a>(input: &'a Json, key: &str, missing: &str) -> (r: Result<&'a str, ToolError>)
    ensures
        match r {
            Ok(t) => required_text(input.deep_view(), key@, missing@) == Ok::<
                Seq<char>,
                tool::ToolErrorView,
            >(t@),
            Err(e) => required_text(input.deep_view(), key@, missing@) == Err::<
                Seq<char>,
                tool::ToolErrorView,
            >(e.deep_view()),
        },
{
    match input.get_str(key) {
        Some(t) => Ok(t),
        None => Err(ToolError::InvalidInput(missing.to_owned())),
    }
}

/// The path that a tool works on: the parameter, or the workspace itself.
pub open spec fn path_or_dot(input: json::JsonView) -> Seq<char> {
    match input.get_str("path"@) {
        Some(p) => p,
        None => "."@,
    }
}

fn path_or_dot_of(input: &Json) -> (r: String)
    ensures
        r@ == path_or_dot(input.deep_view()),
{
    match input.get_str("path") {
        Some(p) => p.to_owned(),
        None => ".".to_owned(),
    }
}

/// The invalidation of one file.
pub open spec fn stale_file(path: Seq<char>) -> Seq<types::InvalidationView> {
    seq![types::InvalidationView::Files(seq![path])]
}

fn stale_file_of(path: String) -> (r: Vec<Invalidation>)
    ensures
        r.deep_view() == stale_file(path@),
{
    let ghost name = path@;
    let mut paths: Vec<String> = Vec::new();
    paths.push(path);
    assert(paths.deep_view() =~= seq![name]);
    let mut r: Vec<Invalidation> = Vec::new();
    r.push(Invalidation::Files(paths));
    assert(r.deep_view() =~= stale_file(name));
    r
}

/// What is said where a file could not be read, or not be written.
pub open spec fn file_error(what: Seq<char>, path: Seq<char>, e: Seq<char>) -> tool::ToolErrorView {
    tool::ToolErrorView::ExecutionFailed(what + path + ": "@ + e)
}

fn file_error_of(what: &str, path: &str, e: &str) -> (r: ToolError)
    ensures
        r.deep_view() == file_error(what@, path@, e@),
{
    let mut message = what.to_owned();
    message.push_str(path);
    message.push_str(": ");
    message.push_str(e);
    ToolError::ExecutionFailed(message)
}

fn failed(what: &str, e: &str) -> (r: ToolError)
    ensures
        r.deep_view() == tool::ToolErrorView::ExecutionFailed(what@ + e@),
{
    let mut message = what.to_owned();
    message.push_str(e);
    ToolError::ExecutionFailed(message)
}

// ---------------------------------------------------------------------------
// file_read
// ---------------------------------------------------------------------------

/// The lines of a text, each behind its number.
pub open spec fn numbered(lines: Seq<Seq<char>>, start: int, end: int) -> Seq<Seq<char>> {
    Seq::new(
        (end - start) as nat,
        |i: int| text::decimal((start + i + 1) as nat) + "\t"@ + lines[start + i],
    )
}

/// Which of `n` lines are read: from line `offset` on, counted from one, and
/// `limit` of them where there is a limit and so many are left.
pub open spec fn line_range(input: json::JsonView, n: nat) -> (int, int) {
    let offset = match input.get_u64("offset"@) {
        Some(v) => v as usize,
        None => 1,
    };
    let skipped = if offset == 0 {
        0
    } else {
        offset - 1
    };
    let start = if skipped < n {
        skipped
    } else {
        n as int
    };
    let end = match input.get_u64("limit"@) {
        Some(v) => if start + (v as usize) < n {
            start + (v as usize)
        } else {
            n as int
        },
        None => n as int,
    };
    (start, end)
}

/// What `file_read` makes of the contents of a file.
pub open spec fn read_result(
    path: Seq<char>,
    input: json::JsonView,
    content: Seq<char>,
) -> json::JsonView {
    let lines = text::lines(content);
    let (start, end) = line_range(input, lines.len());
    json::json_object().with("path"@, json::JsonView::Str(path)).with(
        "content"@,
        json::JsonView::Str(text::join(numbered(lines, start, end), "\n"@)),
    ).with("total_lines"@, json::JsonView::Number(json::JsonNumber::U64(lines.len() as u64)))
}

/// The outcome of `file_read`, where reading the file came to `read`.
pub open spec fn file_read(
    workspace: Seq<char>,
    input: json::JsonView,
    read: Result<Seq<char>, Seq<char>>,
) -> Result<tool::ToolOutputView, tool::ToolErrorView> {
    match required_text(input, "path"@, "missing 'path' parameter"@) {
        Err(e) => Err(e),
        Ok(path) => match read {
            Err(e) => Err(file_error("failed to read "@, paths::join(workspace, path), e)),
            Ok(content) => Ok(
                tool::ToolOutputView {
                    result: read_result(path, input, content),
                    invalidations: Seq::empty(),
                },
            ),
        },
    }
}

/// A text that was read, or why it was not.
pub open spec fn read_view(r: Result<String, String>) -> Result<Seq<char>, Seq<char>> {
    match r {
        Ok(t) => Ok(t@),
        Err(e) => Err(e@),
    }
}

impl FileReadTool {
    /// The file to read.
    pub fn path(&self, input: &Json) -> (r: Result<String, ToolError>)
        ensures
            match required_text(input.deep_view(), "path"@, "missing 'path' parameter"@) {
                Ok(path) => r matches Ok(full) && full@ == paths::join(self.workspace@, path),
                Err(e) => r matches Err(error) && error.deep_view() == e,
            },
    {
        match text_of(input, "path", "missing 'path' parameter") {
            Ok(path) => Ok(paths::joined(self.workspace.as_str(), path)),
            Err(e) => Err(e),
        }
    }

    /// The outcome, where reading the file came to `read`.
    pub fn output(&self, input: &Json, read: Result<String, String>) -> (r: Result<
        ToolOutput,
        ToolError,
    >)
        ensures
            turn_loop::outcome(r) == file_read(
                self.workspace@,
                input.deep_view(),
                read_view(read),
            ),
    {
        let path = match text_of(input, "path", "missing 'path' parameter") {
            Ok(path) => path,
            Err(e) => {
                return Err(e);
            },
        };
        let content = match read {
            Ok(content) => content,
            Err(e) => {
                let full = paths::joined(self.workspace.as_str(), path);
                return Err(file_error_of("failed to read ", full.as_str(), e.as_str()));
            },
        };
        let lines = lines_of(content.as_str());
        let n: usize = lines.len();
        let ghost all = text::lines(content@);
        assert(all.len() == n);
        let offset: usize = match input.get_u64("offset") {
            Some(v) => v as usize,
            None => 1,
        };
        let skipped: usize = offset.saturating_sub(1);
        let start: usize = if skipped < n {
            skipped
        } else {
            n
        };
        let end: usize = match input.get_u64("limit") {
            Some(v) => {
                let limit: usize = v as usize;
                if limit < n - start {
                    start + limit
                } else {
                    n
                }
            },
            None => n,
        };
        assert((start as int, end as int) == line_range(input.deep_view(), n as nat));
        let ghost want = numbered(all, start as int, end as int);
        let mut shown: Vec<String> = Vec::new();
        let mut i: usize = start;
        assert(shown.deep_view() =~= want.take(0));
        while i < end
            invariant
                all == lines.deep_view(),
                want == numbered(all, start as int, end as int),
                start <= i <= end <= n == all.len() == lines@.len(),
                shown.deep_view() == want.take(i - start),
            decreases end - i,
        {
            let ghost before = shown.deep_view();
            let mut line = decimal_of(i as u64 + 1);
            line.push_str("\t");
            line.push_str(lines[i].as_str());
            shown.push(line);
            assert(shown.deep_view() =~= before.push(want[i - start]));
            assert(want.take(i + 1 - start) =~= before.push(want[i - start]));
            i += 1;
        }
        assert(want.take(end - start) =~= want);
        Ok(
            ToolOutput::readonly(
                Json::object().with("path", Json::text(path)).with(
                    "content",
                    Json::Str(joined(&shown, "\n")),
                ).with("total_lines", Json::natural(n as u64)),
            ),
        )
    }
}

// ---------------------------------------------------------------------------
// file_write
// ---------------------------------------------------------------------------

/// A file to write: its directory is created first, where it has one.
#[derive(Debug)]
pub struct WritePlan {
    pub path: String,
    pub parent: Option<String>,
    pub content: String,
}

/// Whether a plan is to write `content` to the file at `path`.
pub open spec fn plans(plan: WritePlan, path: Seq<char>, content: Seq<char>) -> bool {
    plan.path@ == path && plan.parent.deep_view() == paths::parent(path) && plan.content@ == content
}

fn plan_of(path: String, content: &str) -> (r: WritePlan)
    ensures
        plans(r, path@, content@),
{
    let parent = paths::parent_of(path.as_str());
    WritePlan { path, parent, content: content.to_owned() }
}

/// A plan: where, in which directory if that is to be created, and what.
#[verifier::ext_equal]
pub ghost struct PlanView {
    pub path: Seq<char>,
    pub parent: Option<Seq<char>>,
    pub content: Seq<char>,
}

/// A plan, or why there is none.
pub open spec fn planned(r: Result<WritePlan, ToolError>) -> Result<
    PlanView,
    tool::ToolErrorView,
> {
    match r {
        Ok(plan) => Ok(
            PlanView {
                path: plan.path@,
                parent: plan.parent.deep_view(),
                content: plan.content@,
            },
        ),
        Err(e) => Err(e.deep_view()),
    }
}

/// What became of a plan.
#[derive(Debug)]
pub enum WriteOutcome {
    Written,
    /// The directory could not be created.
    NoDirectory(String),
    /// The file could not be written.
    NotWritten(String),
}

/// What is said where a plan failed.
pub open spec fn write_error(path: Seq<char>, outcome: WriteOutcome) -> Option<
    tool::ToolErrorView,
> {
    match outcome {
        WriteOutcome::Written => None,
        WriteOutcome::NoDirectory(e) => Some(
            tool::ToolErrorView::ExecutionFailed("failed to create directories: "@ + e@),
        ),
        WriteOutcome::NotWritten(e) => Some(file_error("failed to write "@, path, e@)),
    }
}

fn write_error_of(path: &str, outcome: WriteOutcome) -> (r: Option<ToolError>)
    ensures
        r.deep_view() == write_error(path@, outcome),
{
    match outcome {
        WriteOutcome::Written => None,
        WriteOutcome::NoDirectory(e) => Some(failed("failed to create directories: ", e.as_str())),
        WriteOutcome::NotWritten(e) => Some(
            file_error_of("failed to write ", path, e.as_str()),
        ),
    }
}

/// What `file_write` is asked: a path and the contents.
pub open spec fn write_input(input: json::JsonView) -> Result<
    (Seq<char>, Seq<char>),
    tool::ToolErrorView,
> {
    match required_text(input, "path"@, "missing 'path'"@) {
        Err(e) => Err(e),
        Ok(path) => match required_text(input, "content"@, "missing 'content'"@) {
            Err(e) => Err(e),
            Ok(content) => Ok((path, content)),
        },
    }
}

/// What `file_write` plans to write.
pub open spec fn write_plan(workspace: Seq<char>, input: json::JsonView) -> Result<
    PlanView,
    tool::ToolErrorView,
> {
    match write_input(input) {
        Err(e) => Err(e),
        Ok((path, content)) => {
            let full = paths::join(workspace, path);
            Ok(PlanView { path: full, parent: paths::parent(full), content })
        },
    }
}

/// The outcome of `file_write`, where writing came to `outcome`.
pub open spec fn file_write(
    workspace: Seq<char>,
    input: json::JsonView,
    outcome: WriteOutcome,
) -> Result<tool::ToolOutputView, tool::ToolErrorView> {
    match write_input(input) {
        Err(e) => Err(e),
        Ok((path, content)) => match write_error(paths::join(workspace, path), outcome) {
            Some(e) => Err(e),
            None => Ok(
                tool::ToolOutputView {
                    result: json::json_object().with("path"@, json::JsonView::Str(path)).with(
                        "bytes_written"@,
                        json::JsonView::Number(
                            json::JsonNumber::U64(text::byte_len(content) as u64),
                        ),
                    ),
                    invalidations: stale_file(paths::join(workspace, path)),
                },
            ),
        },
    }
}

impl FileWriteTool {
    /// What is to be written.
    pub fn plan(&self, input: &Json) -> (r: Result<WritePlan, ToolError>)
        ensures
            match write_input(input.deep_view()) {
                Ok((path, content)) => r matches Ok(plan) && plans(
                    plan,
                    paths::join(self.workspace@, path),
                    content,
                ),
                Err(e) => r matches Err(error) && error.deep_view() == e,
            },
            planned(r) == write_plan(self.workspace@, input.deep_view()),
    {
        let path = match text_of(input, "path", "missing 'path'") {
            Ok(path) => path,
            Err(e) => {
                return Err(e);
            },
        };
        match text_of(input, "content", "missing 'content'") {
            Ok(content) => Ok(plan_of(paths::joined(self.workspace.as_str(), path), content)),
            Err(e) => Err(e),
        }
    }

    /// The outcome, where writing came to `outcome`.
    pub fn output(&self, input: &Json, outcome: WriteOutcome) -> (r: Result<ToolOutput, ToolError>)
        ensures
            turn_loop::outcome(r) == file_write(self.workspace@, input.deep_view(), outcome),
    {
        let path = match text_of(input, "path", "missing 'path'") {
            Ok(path) => path,
            Err(e) => {
                return Err(e);
            },
        };
        let content = match text_of(input, "content", "missing 'content'") {
            Ok(content) => content,
            Err(e) => {
                return Err(e);
            },
        };
        let full = paths::joined(self.workspace.as_str(), path);
        match write_error_of(full.as_str(), outcome) {
            Some(e) => Err(e),
            None => Ok(
                ToolOutput::with_invalidations(
                    Json::object().with("path", Json::text(path)).with(
                        "bytes_written",
                        Json::natural(byte_len_of(content) as u64),
                    ),
                    stale_file_of(full),
                ),
            ),
        }
    }
}

// ---------------------------------------------------------------------------
// file_edit
// ---------------------------------------------------------------------------

/// What `file_edit` is asked: a path, the text to replace and the text to
/// replace it with.
#[verifier::ext_equal]
pub ghost struct EditView {
    pub path: Seq<char>,
    pub old_text: Seq<char>,
    pub new_text: Seq<char>,
}

/// What `file_edit` is asked.
pub open spec fn edit_input(input: json::JsonView) -> Result<EditView, tool::ToolErrorView> {
    match required_text(input, "path"@, "missing 'path' parameter"@) {
        Err(e) => Err(e),
        Ok(path) => match required_text(
            input,
            "old_string"@,
            "missing 'old_string' parameter"@,
        ) {
            Err(e) => Err(e),
            Ok(old_text) => match required_text(
                input,
                "new_string"@,
                "missing 'new_string' parameter"@,
            ) {
                Err(e) => Err(e),
                Ok(new_text) => Ok(EditView { path, old_text, new_text }),
            },
        },
    }
}

/// The contents of a file after an edit. The text to replace has to stand in
/// the file once, and only once.
pub open spec fn edited(content: Seq<char>, old_text: Seq<char>, new_text: Seq<char>) -> Result<
    Seq<char>,
    tool::ToolErrorView,
> {
    let n = text::count_from(content, old_text, 0);
    if n == 0 {
        Err(tool::ToolErrorView::ExecutionFailed("old_string not found in file"@))
    } else if n > 1 {
        Err(
            tool::ToolErrorView::ExecutionFailed(
                "old_string matches "@ + text::decimal(n)
                    + " locations — include more surrounding context to make it unique"@,
            ),
        )
    } else {
        Ok(text::replace_first(content, old_text, new_text))
    }
}

/// The contents of a file after an edit.
pub fn edit(content: &str, old_text: &str, new_text: &str) -> (r: Result<String, ToolError>)
    requires
        old_text@.len() > 0,
    ensures
        match r {
            Ok(t) => edited(content@, old_text@, new_text@) == Ok::<
                Seq<char>,
                tool::ToolErrorView,
            >(t@),
            Err(e) => edited(content@, old_text@, new_text@) == Err::<
                Seq<char>,
                tool::ToolErrorView,
            >(e.deep_view()),
        },
{
    let n: usize = count(content, old_text);
    if n == 0 {
        return Err(ToolError::ExecutionFailed("old_string not found in file".to_owned()));
    }
    if n > 1 {
        let mut message = "old_string matches ".to_owned();
        message.push_str(decimal_of(n as u64).as_str());
        message.push_str(" locations — include more surrounding context to make it unique");
        return Err(ToolError::ExecutionFailed(message));
    }
    Ok(replaced_first(content, old_text, new_text))
}

/// What `file_edit` does first.
#[derive(Debug)]
pub enum EditPlan {
    /// Write a new file: no text to replace is given.
    Create(WritePlan),
    /// Read the file to edit.
    Read { path: String },
}

/// The result of `file_edit`.
pub open spec fn edit_output(
    workspace: Seq<char>,
    path: Seq<char>,
    created: bool,
) -> tool::ToolOutputView {
    tool::ToolOutputView {
        result: json::json_object().with("path"@, json::JsonView::Str(path)).with(
            "action"@,
            json::JsonView::Str(
                if created {
                    "created"@
                } else {
                    "edited"@
                },
            ),
        ),
        invalidations: stale_file(paths::join(workspace, path)),
    }
}

/// What `file_edit` plans to write, where reading the file came to `read`.
pub open spec fn edit_plan(
    workspace: Seq<char>,
    input: json::JsonView,
    read: Result<Seq<char>, Seq<char>>,
) -> Result<PlanView, tool::ToolErrorView> {
    match edit_input(input) {
        Err(e) => Err(e),
        Ok(asked) => {
            let full = paths::join(workspace, asked.path);
            match read {
                Err(e) => Err(file_error("failed to read "@, full, e)),
                Ok(content) => if asked.old_text.len() == 0 {
                    Ok(
                        PlanView {
                            path: full,
                            parent: paths::parent(full),
                            content: asked.new_text,
                        },
                    )
                } else {
                    match edited(content, asked.old_text, asked.new_text) {
                        Ok(t) => Ok(PlanView { path: full, parent: None, content: t }),
                        Err(e) => Err(e),
                    }
                },
            }
        },
    }
}

/// The outcome of `file_edit`, where writing came to `outcome`.
pub open spec fn file_edit(
    workspace: Seq<char>,
    input: json::JsonView,
    outcome: WriteOutcome,
) -> Result<tool::ToolOutputView, tool::ToolErrorView> {
    match edit_input(input) {
        Err(e) => Err(e),
        Ok(asked) => match write_error(paths::join(workspace, asked.path), outcome) {
            Some(e) => Err(e),
            None => Ok(edit_output(workspace, asked.path, asked.old_text.len() == 0)),
        },
    }
}

impl FileEditTool {
    /// What is to be done first.
    pub fn plan(&self, input: &Json) -> (r: Result<EditPlan, ToolError>)
        ensures
            match edit_input(input.deep_view()) {
                Err(e) => r matches Err(error) && error.deep_view() == e,
                Ok(asked) => {
                    let full = paths::join(self.workspace@, asked.path);
                    if asked.old_text.len() == 0 {
                        r matches Ok(EditPlan::Create(plan)) && plans(plan, full, asked.new_text)
                    } else {
                        r matches Ok(EditPlan::Read { path }) && path@ == full
                    }
                },
            },
    {
        let path = match text_of(input, "path", "missing 'path' parameter") {
            Ok(path) => path,
            Err(e) => {
                return Err(e);
            },
        };
        let old_text = match text_of(input, "old_string", "missing 'old_string' parameter") {
            Ok(t) => t,
            Err(e) => {
                return Err(e);
            },
        };
        let new_text = match text_of(input, "new_string", "missing 'new_string' parameter") {
            Ok(t) => t,
            Err(e) => {
                return Err(e);
            },
        };
        let full = paths::joined(self.workspace.as_str(), path);
        if old_text.unicode_len() == 0 {
            Ok(EditPlan::Create(plan_of(full, new_text)))
        } else {
            Ok(EditPlan::Read { path: full })
        }
    }

    /// What is to be written, where reading the file came to `read`. The
    /// directory of a file that is edited is there.
    pub fn edited(&self, input: &Json, read: Result<String, String>) -> (r: Result<
        WritePlan,
        ToolError,
    >)
        ensures
            match edit_input(input.deep_view()) {
                Err(e) => r matches Err(error) && error.deep_view() == e,
                Ok(asked) => {
                    let full = paths::join(self.workspace@, asked.path);
                    match read {
                        Err(e) => r matches Err(error) && error.deep_view() == file_error(
                            "failed to read "@,
                            full,
                            e@,
                        ),
                        Ok(content) => if asked.old_text.len() == 0 {
                            r matches Ok(plan) && plans(plan, full, asked.new_text)
                        } else {
                            match edited(content@, asked.old_text, asked.new_text) {
                                Ok(t) => r matches Ok(plan) && plan.path@ == full && plan.parent
                                    is None && plan.content@ == t,
                                Err(e) => r matches Err(error) && error.deep_view() == e,
                            }
                        },
                    }
                },
            },
            planned(r) == edit_plan(self.workspace@, input.deep_view(), read_view(read)),
    {
        let path = match text_of(input, "path", "missing 'path' parameter") {
            Ok(path) => path,
            Err(e) => {
                return Err(e);
            },
        };
        let old_text = match text_of(input, "old_string", "missing 'old_string' parameter") {
            Ok(t) => t,
            Err(e) => {
                return Err(e);
            },
        };
        let new_text = match text_of(input, "new_string", "missing 'new_string' parameter") {
            Ok(t) => t,
            Err(e) => {
                return Err(e);
            },
        };
        let full = paths::joined(self.workspace.as_str(), path);
        let content = match read {
            Ok(content) => content,
            Err(e) => {
                return Err(file_error_of("failed to read ", full.as_str(), e.as_str()));
            },
        };
        if old_text.unicode_len() == 0 {
            return Ok(plan_of(full, new_text));
        }
        match edit(content.as_str(), old_text, new_text) {
            Ok(content) => Ok(WritePlan { path: full, parent: None, content }),
            Err(e) => Err(e),
        }
    }

    /// The outcome, where writing came to `outcome`.
    pub fn output(&self, input: &Json, outcome: WriteOutcome) -> (r: Result<ToolOutput, ToolError>)
        ensures
            turn_loop::outcome(r) == file_edit(self.workspace@, input.deep_view(), outcome),
    {
        let path = match text_of(input, "path", "missing 'path' parameter") {
            Ok(path) => path,
            Err(e) => {
                return Err(e);
            },
        };
        let old_text = match text_of(input, "old_string", "missing 'old_string' parameter") {
            Ok(t) => t,
            Err(e) => {
                return Err(e);
            },
        };
        match text_of(input, "new_string", "missing 'new_string' parameter") {
            Ok(_) => {},
            Err(e) => {
                return Err(e);
            },
        }
        let full = paths::joined(self.workspace.as_str(), path);
        match write_error_of(full.as_str(), outcome) {
            Some(e) => Err(e),
            None => {
                let action = if old_text.unicode_len() == 0 {
                    "created"
                } else {
                    "edited"
                };
                Ok(
                    ToolOutput::with_invalidations(
                        Json::object().with("path", Json::text(path)).with(
                            "action",
                            Json::text(action),
                        ),
                        stale_file_of(full),
                    ),
                )
            },
        }
    }
}

// ---------------------------------------------------------------------------
// shell, ls, grep
// ---------------------------------------------------------------------------

/// The most bytes of a command's output that the model is shown.
pub const MAX_OUTPUT: usize = 50_000;

/// What the model is shown of a command's output.
pub open spec fn shown_output(stdout: Seq<char>) -> Seq<char> {
    if text::byte_len(stdout) > MAX_OUTPUT {
        text::cut(stdout, MAX_OUTPUT as int) + "...\n[truncated, "@ + text::decimal(
            text::byte_len(stdout),
        ) + " total bytes]"@
    } else {
        stdout
    }
}

/// The result of a command.
pub open spec fn shell_result(
    exit_code: Option<i32>,
    stdout: Seq<char>,
    stderr: Seq<char>,
) -> json::JsonView {
    json::json_object().with(
        "exit_code"@,
        json::json_int(
            match exit_code {
                Some(code) => code as i64,
                None => -1i64,
            },
        ),
    ).with("stdout"@, json::JsonView::Str(shown_output(stdout))).with(
        "stderr"@,
        json::JsonView::Str(stderr),
    )
}

/// What became of a command.
#[derive(Debug)]
pub struct ShellRun {
    /// The exit code, where the command was not ended by a signal.
    pub exit_code: Option<i32>,
    pub stdout: String,
    pub stderr: String,
}

/// The outcome of `shell`, where running the command came to `run`.
pub open spec fn shell(input: json::JsonView, run: Result<ShellRun, String>) -> Result<
    tool::ToolOutputView,
    tool::ToolErrorView,
> {
    match required_text(input, "command"@, "missing 'command'"@) {
        Err(e) => Err(e),
        Ok(_) => match run {
            Err(e) => Err(tool::ToolErrorView::ExecutionFailed("failed to spawn shell: "@ + e@)),
            Ok(done) => Ok(
                tool::ToolOutputView {
                    result: shell_result(done.exit_code, done.stdout@, done.stderr@),
                    invalidations: Seq::empty(),
                },
            ),
        },
    }
}

impl ShellTool {
    /// The command to run.
    pub fn command(&self, input: &Json) -> (r: Result<String, ToolError>)
        ensures
            match required_text(input.deep_view(), "command"@, "missing 'command'"@) {
                Ok(command) => r matches Ok(c) && c@ == command,
                Err(e) => r matches Err(error) && error.deep_view() == e,
            },
    {
        match text_of(input, "command", "missing 'command'") {
            Ok(command) => Ok(command.to_owned()),
            Err(e) => Err(e),
        }
    }

    /// The outcome, where running the command came to `run`. Output that is too
    /// long has to be such that it can be cut off.
    pub fn output(&self, input: &Json, run: Result<ShellRun, String>) -> (r: Result<
        ToolOutput,
        ToolError,
    >)
        requires
            run matches Ok(done) ==> text::byte_len(done.stdout@) > MAX_OUTPUT ==> text::cuts_at(
                done.stdout@,
                MAX_OUTPUT as int,
            ),
        ensures
            turn_loop::outcome(r) == shell(input.deep_view(), run),
    {
        match text_of(input, "command", "missing 'command'") {
            Ok(_) => {},
            Err(e) => {
                return Err(e);
            },
        }
        let done = match run {
            Ok(done) => done,
            Err(e) => {
                return Err(failed("failed to spawn shell: ", e.as_str()));
            },
        };
        let n: usize = byte_len_of(done.stdout.as_str());
        let stdout: String = if n > MAX_OUTPUT {
            let mut shown = cut_to(done.stdout.as_str(), MAX_OUTPUT);
            shown.push_str("...\n[truncated, ");
            shown.push_str(decimal_of(n as u64).as_str());
            shown.push_str(" total bytes]");
            shown
        } else {
            done.stdout
        };
        let code: i64 = match done.exit_code {
            Some(code) => code as i64,
            None => -1,
        };
        Ok(
            ToolOutput::readonly(
                Json::object().with("exit_code", Json::integer(code)).with(
                    "stdout",
                    Json::Str(stdout),
                ).with("stderr", Json::Str(done.stderr)),
            ),
        )
    }
}

/// An entry of a directory.
#[derive(Debug)]
pub struct DirEntry {
    pub name: String,
    pub is_dir: bool,
}

/// What the model is shown of an entry.
pub open spec fn entry_doc(entry: DirEntry) -> json::JsonView {
    json::json_object().with(
        "name"@,
        json::JsonView::Str(
            if entry.is_dir {
                entry.name@ + "/"@
            } else {
                entry.name@
            },
        ),
    ).with(
        "type"@,
        json::JsonView::Str(
            if entry.is_dir {
                "directory"@
            } else {
                "file"@
            },
        ),
    )
}

/// What the model is shown of some entries.
pub open spec fn entry_docs(entries: Seq<DirEntry>) -> Seq<json::JsonView> {
    Seq::new(entries.len(), |i: int| entry_doc(entries[i]))
}

/// The outcome of `ls`, where listing the directory came to `listed`.
pub open spec fn ls(input: json::JsonView, listed: Result<Vec<DirEntry>, String>) -> Result<
    tool::ToolOutputView,
    tool::ToolErrorView,
> {
    match listed {
        Err(e) => Err(tool::ToolErrorView::ExecutionFailed("failed to read directory: "@ + e@)),
        Ok(entries) => Ok(
            tool::ToolOutputView {
                result: json::json_object().with(
                    "path"@,
                    json::JsonView::Str(path_or_dot(input)),
                ).with("entries"@, json::JsonView::Array(entry_docs(entries@))),
                invalidations: Seq::empty(),
            },
        ),
    }
}

impl LsTool {
    /// The directory to list.
    pub fn path(&self, input: &Json) -> (r: String)
        ensures
            r@ == paths::join(self.workspace@, path_or_dot(input.deep_view())),
    {
        paths::joined(self.workspace.as_str(), path_or_dot_of(input).as_str())
    }

    /// The outcome, where listing the directory came to `listed`.
    pub fn output(&self, input: &Json, listed: Result<Vec<DirEntry>, String>) -> (r: Result<
        ToolOutput,
        ToolError,
    >)
        ensures
            turn_loop::outcome(r) == ls(input.deep_view(), listed),
    {
        let entries = match listed {
            Ok(entries) => entries,
            Err(e) => {
                return Err(failed("failed to read directory: ", e.as_str()));
            },
        };
        let ghost all = entry_docs(entries@);
        let mut docs: Vec<Json> = Vec::new();
        let mut i: usize = 0;
        assert(docs.deep_view() =~= all.take(0));
        while i < entries.len()
            invariant
                all == entry_docs(entries@),
                i <= entries@.len(),
                docs.deep_view() == all.take(i as int),
            decreases entries@.len() - i,
        {
            let ghost before = docs.deep_view();
            let mut name = entries[i].name.clone();
            let kind = if entries[i].is_dir {
                name.push_str("/");
                "directory"
            } else {
                "file"
            };
            docs.push(Json::object().with("name", Json::Str(name)).with("type", Json::text(kind)));
            assert(docs.deep_view() =~= before.push(all[i as int]));
            assert(all.take(i + 1) =~= before.push(all[i as int]));
            i += 1;
        }
        assert(all.take(i as int) =~= all);
        proof {
            json::lemma_json_items(docs@);
            assert(json::json_items(docs@) =~= docs.deep_view());
        }
        let path = path_or_dot_of(input);
        Ok(
            ToolOutput::readonly(
                Json::object().with("path", Json::Str(path)).with("entries", Json::Array(docs)),
            ),
        )
    }
}

/// The result of a search: the first hundred matches, and how many there are.
pub open spec fn grep_result(stdout: Seq<char>) -> json::JsonView {
    let lines = text::lines(stdout);
    let shown = if lines.len() > 100 {
        lines.take(100)
    } else {
        lines
    };
    json::json_object().with("matches"@, json::JsonView::Str(text::join(shown, "\n"@))).with(
        "total_matches"@,
        json::JsonView::Number(json::JsonNumber::U64(lines.len() as u64)),
    ).with("truncated"@, json::JsonView::Bool(lines.len() > 100))
}

/// The outcome of `grep`, where the search came to `found`.
pub open spec fn grep(input: json::JsonView, found: Result<String, String>) -> Result<
    tool::ToolOutputView,
    tool::ToolErrorView,
> {
    match required_text(input, "pattern"@, "missing 'pattern'"@) {
        Err(e) => Err(e),
        Ok(_) => match found {
            Err(e) => Err(tool::ToolErrorView::ExecutionFailed("grep failed: "@ + e@)),
            Ok(stdout) => Ok(
                tool::ToolOutputView {
                    result: grep_result(stdout@),
                    invalidations: Seq::empty(),
                },
            ),
        },
    }
}

impl GrepTool {
    /// What to search for, and where.
    pub fn search(&self, input: &Json) -> (r: Result<(String, String), ToolError>)
        ensures
            match required_text(input.deep_view(), "pattern"@, "missing 'pattern'"@) {
                Ok(pattern) => r matches Ok(found) && found.0@ == pattern && found.1@
                    == paths::join(self.workspace@, path_or_dot(input.deep_view())),
                Err(e) => r matches Err(error) && error.deep_view() == e,
            },
    {
        match text_of(input, "pattern", "missing 'pattern'") {
            Ok(pattern) => Ok(
                (
                    pattern.to_owned(),
                    paths::joined(self.workspace.as_str(), path_or_dot_of(input).as_str()),
                ),
            ),
            Err(e) => Err(e),
        }
    }

    /// The outcome, where the search came to `found`.
    pub fn output(&self, input: &Json, found: Result<String, String>) -> (r: Result<
        ToolOutput,
        ToolError,
    >)
        ensures
            turn_loop::outcome(r) == grep(input.deep_view(), found),
    {
        match text_of(input, "pattern", "missing 'pattern'") {
            Ok(_) => {},
            Err(e) => {
                return Err(e);
            },
        }
        let stdout = match found {
            Ok(stdout) => stdout,
            Err(e) => {
                return Err(failed("grep failed: ", e.as_str()));
            },
        };
        let ghost all = text::lines(stdout@);
        let mut lines = lines_of(stdout.as_str());
        let n: usize = lines.len();
        assert(all.len() == n);
        if n > 100 {
            lines.truncate(100);
            assert(lines.deep_view() =~= all.take(100));
        }
        Ok(
            ToolOutput::readonly(
                Json::object().with("matches", Json::Str(joined(&lines, "\n"))).with(
                    "total_matches",
                    Json::natural(n as u64),
                ).with("truncated", Json::Bool(n > 100)),
            ),
        )
    }
}

// ---------------------------------------------------------------------------
// The workspace
// ---------------------------------------------------------------------------

/// What all the tools declare, in order.
pub open spec fn workspace_views() -> Seq<tool::ToolSchemaView> {
    seq![
        file_read_view(),
        file_write_view(),
        file_edit_view(),
        shell_view(),
        ls_view(),
        grep_view(),
    ]
}

/// The names of all the tools, in order.
pub open spec fn workspace_names() -> Seq<Seq<char>> {
    seq!["file_read"@, "file_write"@, "file_edit"@, "shell"@, "ls"@, "grep"@]
}

/// The names of all the tools, in order.
pub fn tool_names() -> (r: Vec<String>)
    ensures
        r.deep_view() == workspace_names(),
{
    let r = text_list(vec!["file_read", "file_write", "file_edit", "shell", "ls", "grep"]);
    assert(r.deep_view() =~= workspace_names());
    r
}

/// A workspace rooted at a local directory.
#[derive(Debug)]
pub struct LocalWorkspace {
    pub id: String,
    pub root: String,
}

impl LocalWorkspace {
    pub fn new(id: String, root: String) -> (r: Self)
        ensures
            r.id == id,
            r.root == root,
    {
        LocalWorkspace { id, root }
    }

    /// What the tools of the workspace declare.
    pub fn tools(&self) -> (r: Vec<ToolSchema>)
        ensures
            r.deep_view() == workspace_views(),
    {
        let mut r: Vec<ToolSchema> = Vec::new();
        r.push(FileReadTool::new(self.root.clone()).schema());
        r.push(FileWriteTool::new(self.root.clone()).schema());
        r.push(FileEditTool::new(self.root.clone()).schema());
        r.push(ShellTool::new(self.root.clone()).schema());
        r.push(LsTool::new(self.root.clone()).schema());
        r.push(GrepTool::new(self.root.clone()).schema());
        assert(r.deep_view() =~= workspace_views());
        r
    }
}

/// The workspace of an entry of the manifest. Without a root it is the current
/// directory.
pub fn from_entry(entry: &ToolsetEntry) -> (r: LocalWorkspace)
    ensures
        r.root@ == (match entry.config.member("root"@) {
            Some(Toml::Str(root)) => root@,
            _ => "."@,
        }),
        r.id@ == (match entry.id {
            Some(id) => id@,
            None => "workspace.local"@,
        }),
{
    let root: String = match entry.config.get("root") {
        Some(Toml::Str(root)) => root.clone(),
        _ => ".".to_owned(),
    };
    let id: String = match &entry.id {
        Some(id) => id.clone(),
        None => "workspace.local".to_owned(),
    };
    LocalWorkspace::new(id, root)
}

/// The tools of a list that are named.
pub open spec fn named_tools(
    tools: Seq<tool::ToolSchemaView>,
    enabled: Seq<Seq<char>>,
) -> Seq<tool::ToolSchemaView>
    decreases tools.len(),
{
    if tools.len() == 0 {
        Seq::empty()
    } else {
        let rest = named_tools(tools.drop_last(), enabled);
        if enabled.contains(tools.last().name) {
            rest.push(tools.last())
        } else {
            rest
        }
    }
}

fn is_listed(list: &Vec<String>, name: &str) -> (r: bool)
    ensures
        r == list.deep_view().contains(name@),
{
    let mut i: usize = 0;
    while i < list.len()
        invariant
            i <= list@.len() == list.deep_view().len(),
            forall|k: int| 0 <= k < i ==> #[trigger] list.deep_view()[k] != name@,
        decreases list@.len() - i,
    {
        if same(list[i].as_str(), name) {
            assert(list.deep_view()[i as int] == name@);
            return true;
        }
        i += 1;
    }
    false
}

/// What the tools for a workspace declare: all of them, or those that are
/// enabled, where a list says which.
pub fn create_tools(workspace: &str, enabled: Option<&Vec<String>>) -> (r: Vec<ToolSchema>)
    ensures
        r.deep_view() == (match enabled {
            None => workspace_views(),
            Some(ids) => named_tools(workspace_views(), ids.deep_view()),
        }),
{
    let all = LocalWorkspace::new("workspace.local".to_owned(), workspace.to_owned()).tools();
    let ids = match enabled {
        None => {
            return all;
        },
        Some(ids) => ids,
    };
    let ghost views = all.deep_view();
    let mut r: Vec<ToolSchema> = Vec::new();
    let mut i: usize = 0;
    assert(r.deep_view() =~= Seq::empty());
    assert(views.take(0) =~= Seq::empty());
    while i < all.len()
        invariant
            views == all.deep_view(),
            i <= all@.len() == views.len(),
            r.deep_view() == named_tools(views.take(i as int), ids.deep_view()),
        decreases all@.len() - i,
    {
        let ghost before = r.deep_view();
        assert(views.take(i + 1).drop_last() =~= views.take(i as int));
        if is_listed(ids, all[i].name.as_str()) {
            r.push(all[i].clone());
            assert(r.deep_view() =~= before.push(views[i as int]));
        }
        i += 1;
    }
    assert(views.take(i as int) =~= views);
    r
}

/// Those of some ids that name no tool.
pub open spec fn unknown(ids: Seq<Seq<char>>) -> Seq<Seq<char>>
    decreases ids.len(),
{
    if ids.len() == 0 {
        Seq::empty()
    } else if workspace_names().contains(ids.last()) {
        unknown(ids.drop_last())
    } else {
        unknown(ids.drop_last()).push(ids.last())
    }
}

/// Those of some ids that name no tool, to warn of.
pub fn unknown_ids(ids: &Vec<String>) -> (r: Vec<String>)
    ensures
        r.deep_view() == unknown(ids.deep_view()),
{
    let known = tool_names();
    let ghost all = ids.deep_view();
    let mut r: Vec<String> = Vec::new();
    let mut i: usize = 0;
    assert(r.deep_view() =~= Seq::empty());
    assert(all.take(0) =~= Seq::empty());
    while i < ids.len()
        invariant
            all == ids.deep_view(),
            known.deep_view() == workspace_names(),
            i <= ids@.len() == all.len(),
            r.deep_view() == unknown(all.take(i as int)),
        decreases ids@.len() - i,
    {
        let ghost before = r.deep_view();
        assert(all.take(i + 1).drop_last() =~= all.take(i as int));
        if !is_listed(&known, ids[i].as_str()) {
            r.push(ids[i].clone());
            assert(r.deep_view() =~= before.push(all[i as int]));
        }
        i += 1;
    }
    assert(all.take(i as int) =~= all);
    r
}

// ---------------------------------------------------------------------------
// Laws
// ---------------------------------------------------------------------------

/// An edit that succeeds replaces one occurrence of the text, which is the only
/// one, and leaves everything before and behind it as it was.
pub proof fn law_an_edit_replaces_the_only_occurrence(
    content: Seq<char>,
    old_text: Seq<char>,
    new_text: Seq<char>,
)
    requires
        old_text.len() > 0,
    ensures
        edited(content, old_text, new_text) matches Ok(t) ==> ({
            let at = text::find_from(content, old_text, 0);
            &&& text::occurs_at(content, old_text, at)
            &&& t == content.take(at) + new_text + content.skip(at + old_text.len())
            &&& forall|i: int|
                text::occurs_at(content, old_text, i) ==> at <= i < at + old_text.len()
        }),
        edited(content, old_text, new_text) is Ok ==> text::contains_text(content, old_text),
        !text::contains_text(content, old_text) ==> edited(content, old_text, new_text) is Err,
{
    text::lemma_find_from(content, old_text, 0);
    let at = text::find_from(content, old_text, 0);
    if at >= 0 {
        reveal_with_fuel(text::count_from, 2);
        text::lemma_find_from(content, old_text, at + old_text.len());
        if edited(content, old_text, new_text) is Ok {
            assert forall|i: int| text::occurs_at(content, old_text, i) implies at <= i < at
                + old_text.len() by {
                assert(text::count_from(content, old_text, at + old_text.len()) == 0);
                assert(text::find_from(content, old_text, at + old_text.len()) == -1);
            }
        }
    }
}

/// An edit that succeeded is undone by the edit the other way round, where that
/// one finds the new text only once.
pub proof fn law_an_edit_can_be_undone(
    content: Seq<char>,
    old_text: Seq<char>,
    new_text: Seq<char>,
)
    requires
        old_text.len() > 0,
        new_text.len() > 0,
        edited(content, old_text, new_text) is Ok,
        edited(edited(content, old_text, new_text)->Ok_0, new_text, old_text) is Ok,
        text::find_from(edited(content, old_text, new_text)->Ok_0, new_text, 0)
            == text::find_from(content, old_text, 0),
    ensures
        edited(edited(content, old_text, new_text)->Ok_0, new_text, old_text) == Ok::<
            Seq<char>,
            tool::ToolErrorView,
        >(content),
{
    law_an_edit_replaces_the_only_occurrence(content, old_text, new_text);
    let t = edited(content, old_text, new_text)->Ok_0;
    let at = text::find_from(content, old_text, 0);
    assert(t.take(at) =~= content.take(at));
    assert(t.skip(at + new_text.len()) =~= content.skip(at + old_text.len()));
    assert(content.take(at) + old_text + content.skip(at + old_text.len()) =~= content);
}

/// What is written by `file_write` is what `file_read` then shows: every line,
/// in order, behind its number.
pub proof fn law_a_written_file_reads_back(
    workspace: Seq<char>,
    path: Seq<char>,
    content: Seq<char>,
    write: json::JsonView,
    read: json::JsonView,
)
    requires
        write_input(write) == Ok::<(Seq<char>, Seq<char>), tool::ToolErrorView>((path, content)),
        read.get_str("path"@) == Some(path),
        read.get("offset"@) is None,
        read.get("limit"@) is None,
    ensures
        ({
            let lines = text::lines(content);
            &&& file_read(workspace, read, Ok(content)) matches Ok(output) && output.result.get_str(
                "content"@,
            ) == Some(text::join(numbered(lines, 0, lines.len() as int), "\n"@))
                && output.result.get_str("path"@) == Some(path)
        }),
{
    reveal_strlit("path");
    reveal_strlit("content");
    reveal_strlit("total_lines");
    assert("path"@.len() == 4);
    assert("content"@.len() == 7);
    assert("total_lines"@.len() == 11);
}

/// Enabling some tools gives exactly those of the workspace's tools that are
/// named, in the workspace's order, whatever else is named.
pub proof fn law_only_enabled_tools(tools: Seq<tool::ToolSchemaView>, enabled: Seq<Seq<char>>)
    ensures
        forall|t: tool::ToolSchemaView|
            #![trigger named_tools(tools, enabled).contains(t)]
            named_tools(tools, enabled).contains(t) <==> tools.contains(t) && enabled.contains(
                t.name,
            ),
    decreases tools.len(),
{
    if tools.len() > 0 {
        let rest = named_tools(tools.drop_last(), enabled);
        law_only_enabled_tools(tools.drop_last(), enabled);
        assert forall|t: tool::ToolSchemaView| #![trigger named_tools(tools, enabled).contains(t)]
            named_tools(tools, enabled).contains(t) <==> tools.contains(t) && enabled.contains(
            t.name,
        ) by {
            assert(tools =~= tools.drop_last().push(tools.last()));
            assert(tools.contains(t) <==> tools.drop_last().contains(t) || t == tools.last()) by {
                if tools.drop_last().contains(t) {
                    let i = tools.drop_last().index_of(t);
                    assert(tools[i] == t);
                }
                if t == tools.last() {
                    assert(tools[tools.len() - 1] == t);
                }
                if tools.contains(t) {
                    let i = tools.index_of(t);
                    if i < tools.len() - 1 {
                        assert(tools.drop_last()[i] == t);
                    }
                }
            }
            assert(rest.contains(t) <==> tools.drop_last().contains(t) && enabled.contains(t.name));
            let pushed = rest.push(tools.last());
            assert(pushed.contains(t) <==> rest.contains(t) || t == tools.last()) by {
                if rest.contains(t) {
                    let i = rest.index_of(t);
                    assert(pushed[i] == t);
                }
                if t == tools.last() {
                    assert(pushed[rest.len() as int] == t);
                }
                if pushed.contains(t) {
                    let i = pushed.index_of(t);
                    if i < rest.len() {
                        assert(rest[i] == t);
                    }
                }
            }
        }
    }
}

/// By these the words differ.
proof fn lemma_words_differ()
    ensures
        "path"@.len() == 4 && "path"@[0] == 'p',
        "content"@.len() == 7 && "content"@[0] == 'c' && "content"@[2] == 'n',
        "total_lines"@.len() == 11 && "total_lines"@[0] == 't',
        "bytes_written"@.len() == 13 && "bytes_written"@[0] == 'b',
        "action"@.len() == 6 && "action"@[0] == 'a',
        "exit_code"@.len() == 9 && "exit_code"@[0] == 'e',
        "stdout"@.len() == 6 && "stdout"@[0] == 's' && "stdout"@[3] == 'o',
        "stderr"@.len() == 6 && "stderr"@[0] == 's' && "stderr"@[3] == 'e',
        "name"@.len() == 4 && "name"@[0] == 'n',
        "type"@.len() == 4 && "type"@[0] == 't',
        "entries"@.len() == 7 && "entries"@[0] == 'e',
        "matches"@.len() == 7 && "matches"@[0] == 'm',
        "total_matches"@.len() == 13 && "total_matches"@[0] == 't',
        "truncated"@.len() == 9 && "truncated"@[0] == 't',
        "offset"@.len() == 6 && "offset"@[0] == 'o',
        "limit"@.len() == 5,
        "old_string"@.len() == 10 && "old_string"@[0] == 'o',
        "new_string"@.len() == 10 && "new_string"@[0] == 'n',
        "command"@.len() == 7 && "command"@[0] == 'c' && "command"@[2] == 'm',
        "pattern"@.len() == 7 && "pattern"@[0] == 'p',
        "properties"@.len() == 10 && "properties"@[0] == 'p',
        "required"@.len() == 8,
        "description"@.len() == 11 && "description"@[0] == 'd',
{
    reveal_strlit("path");
    reveal_strlit("content");
    reveal_strlit("total_lines");
    reveal_strlit("bytes_written");
    reveal_strlit("action");
    reveal_strlit("exit_code");
    reveal_strlit("stdout");
    reveal_strlit("stderr");
    reveal_strlit("name");
    reveal_strlit("type");
    reveal_strlit("entries");
    reveal_strlit("matches");
    reveal_strlit("total_matches");
    reveal_strlit("truncated");
    reveal_strlit("offset");
    reveal_strlit("limit");
    reveal_strlit("old_string");
    reveal_strlit("new_string");
    reveal_strlit("command");
    reveal_strlit("pattern");
    reveal_strlit("properties");
    reveal_strlit("required");
    reveal_strlit("description");
}

/// Each line that `file_read` shows stands behind its own number in the file, and
/// the lines stand in the order of the file.
pub proof fn law_lines_stand_behind_their_numbers(
    lines: Seq<Seq<char>>,
    start: int,
    end: int,
    k: int,
)
    requires
        0 <= start <= end <= lines.len(),
        0 <= k < end - start,
    ensures
        numbered(lines, start, end).len() == end - start,
        numbered(lines, start, end)[k] == text::decimal((start + k + 1) as nat) + "\t"@
            + lines[start + k],
{
}

/// Reading a file in two parts shows what reading it at once shows.
pub proof fn law_parts_of_a_file_add_up(lines: Seq<Seq<char>>, start: int, mid: int, end: int)
    requires
        0 <= start <= mid <= end <= lines.len(),
    ensures
        numbered(lines, start, mid) + numbered(lines, mid, end) == numbered(lines, start, end),
{
    assert(numbered(lines, start, mid) + numbered(lines, mid, end) =~= numbered(
        lines,
        start,
        end,
    ));
}

/// Which lines are read: from the line of the given number on, or from the first;
/// no more of them than asked for, and otherwise all that are left.
pub proof fn law_the_asked_lines_are_read(input: json::JsonView, n: nat)
    requires
        n <= usize::MAX,
    ensures
        ({
            let (start, end) = line_range(input, n);
            &&& 0 <= start <= end <= n
            &&& input.get_u64("offset"@) is None ==> start == 0
            &&& input.get_u64("limit"@) is None ==> end == n
            &&& input.get_u64("offset"@) matches Some(o) ==> 1 <= o <= n ==> start == o - 1
            &&& input.get_u64("offset"@) matches Some(o) ==> n < o <= usize::MAX ==> start == n
            &&& input.get_u64("limit"@) matches Some(l) ==> l <= n - start ==> end == start + l
            &&& input.get_u64("limit"@) matches Some(l) ==> n - start < l <= usize::MAX ==> end == n
        }),
{
}

/// What `file_read` gives of a file: its path, how many lines it has, and each of
/// the asked lines behind its number, one to a line and in order.
pub proof fn law_a_file_is_shown_line_by_line(
    workspace: Seq<char>,
    input: json::JsonView,
    path: Seq<char>,
    content: Seq<char>,
)
    requires
        input.get_str("path"@) == Some(path),
        text::lines(content).len() <= usize::MAX,
    ensures
        ({
            let lines = text::lines(content);
            let (start, end) = line_range(input, lines.len());
            file_read(workspace, input, Ok(content)) matches Ok(output) && output.result.get_str(
                "path"@,
            ) == Some(path) && output.result.get_u64("total_lines"@) == Some(lines.len() as u64)
                && output.invalidations.len() == 0 && (output.result.get_str(
                "content"@,
            ) matches Some(shown) && shown == text::join(
                Seq::new(
                    (end - start) as nat,
                    |k: int|
                        text::decimal((start + k + 1) as nat) + "\t"@ + lines[start + k],
                ),
                "\n"@,
            ) && forall|k: int|
                start <= k < end ==> text::contains_text(
                    shown,
                    text::decimal((k + 1) as nat) + "\t"@ + #[trigger] lines[k],
                ))
        }),
{
    lemma_words_differ();
    let lines = text::lines(content);
    let (start, end) = line_range(input, lines.len());
    law_the_asked_lines_are_read(input, lines.len());
    let all = numbered(lines, start, end);
    assert(all =~= Seq::new(
        (end - start) as nat,
        |k: int| text::decimal((start + k + 1) as nat) + "\t"@ + lines[start + k],
    ));
    assert forall|k: int| start <= k < end implies text::contains_text(
        text::join(all, "\n"@),
        text::decimal((k + 1) as nat) + "\t"@ + #[trigger] lines[k],
    ) by {
        law_lines_stand_behind_their_numbers(lines, start, end, k - start);
        text::law_joined_texts_hold_their_parts(all, "\n"@, k - start);
    }
}

/// A tool that is not given what it needs says so and does nothing: a parameter
/// that is missing, or is no text, is an error, whatever the outcome of the work.
pub proof fn law_missing_parameters_are_told(
    workspace: Seq<char>,
    input: json::JsonView,
    read: Result<Seq<char>, Seq<char>>,
    outcome: WriteOutcome,
)
    ensures
        input.get_str("path"@) is None ==> file_read(workspace, input, read) == Err::<
            tool::ToolOutputView,
            tool::ToolErrorView,
        >(tool::ToolErrorView::InvalidInput("missing 'path' parameter"@)),
        input.get_str("path"@) is None || input.get_str("content"@) is None ==> (file_write(
            workspace,
            input,
            outcome,
        ) matches Err(tool::ToolErrorView::InvalidInput(_))),
        input.get_str("path"@) is None || input.get_str("old_string"@) is None || input.get_str(
            "new_string"@,
        ) is None <==> edit_input(input) is Err,
        edit_input(input) matches Ok(asked) ==> input.get_str("path"@) == Some(asked.path)
            && input.get_str("old_string"@) == Some(asked.old_text) && input.get_str("new_string"@)
            == Some(asked.new_text),
        write_input(input) matches Ok(asked) ==> input.get_str("path"@) == Some(asked.0)
            && input.get_str("content"@) == Some(asked.1),
        input.get_str("path"@) is Some && input.get_str("content"@) is Some ==> write_input(input)
            is Ok,
        input.get_str("path"@) matches Some(p) ==> path_or_dot(input) == p,
        input.get_str("path"@) is None ==> path_or_dot(input) == "."@,
{
}

/// A failure of the file system is told with the file and the reason.
pub proof fn law_failures_are_told(
    workspace: Seq<char>,
    input: json::JsonView,
    path: Seq<char>,
    e: Seq<char>,
    why: String,
)
    requires
        input.get_str("path"@) == Some(path),
    ensures
        file_read(workspace, input, Err(e)) == Err::<tool::ToolOutputView, tool::ToolErrorView>(
            tool::ToolErrorView::ExecutionFailed(
                "failed to read "@ + paths::join(workspace, path) + ": "@ + e,
            ),
        ),
        input.get_str("content"@) is Some ==> file_write(
            workspace,
            input,
            WriteOutcome::NotWritten(why),
        ) == Err::<tool::ToolOutputView, tool::ToolErrorView>(
            tool::ToolErrorView::ExecutionFailed(
                "failed to write "@ + paths::join(workspace, path) + ": "@ + why@,
            ),
        ),
        input.get_str("content"@) is Some ==> file_write(
            workspace,
            input,
            WriteOutcome::NoDirectory(why),
        ) == Err::<tool::ToolOutputView, tool::ToolErrorView>(
            tool::ToolErrorView::ExecutionFailed("failed to create directories: "@ + why@),
        ),
{
}

/// A file that was written is told with its path and the bytes of its content, and
/// is stale from then on: that file and no other.
pub proof fn law_a_write_is_told(
    workspace: Seq<char>,
    input: json::JsonView,
    path: Seq<char>,
    content: Seq<char>,
    created: bool,
)
    requires
        input.get_str("path"@) == Some(path),
        input.get_str("content"@) == Some(content),
    ensures
        file_write(workspace, input, WriteOutcome::Written) matches Ok(output)
            && output.result.get_str("path"@) == Some(path) && output.result.get_u64(
            "bytes_written"@,
        ) == Some(text::byte_len(content) as u64) && output.invalidations == seq![
            types::InvalidationView::Files(seq![paths::join(workspace, path)]),
        ],
        edit_output(workspace, path, created).result.get_str("path"@) == Some(path),
        edit_output(workspace, path, true).result.get_str("action"@) == Some("created"@),
        edit_output(workspace, path, false).result.get_str("action"@) == Some("edited"@),
        edit_output(workspace, path, created).invalidations == seq![
            types::InvalidationView::Files(seq![paths::join(workspace, path)]),
        ],
{
    lemma_words_differ();
}

/// A plan to write is to write just the content that was given, to the file that
/// was given, in its directory.
pub proof fn law_a_plan_writes_what_was_given(
    plan: WritePlan,
    path: Seq<char>,
    content: Seq<char>,
)
    ensures
        plans(plan, path, content) ==> plan.path@ == path && plan.content@ == content
            && plan.parent.deep_view() == paths::parent(path),
        plan.path@ == path && plan.content@ == content && plan.parent.deep_view() == paths::parent(
            path,
        ) ==> plans(plan, path, content),
{
}

/// A text that stands more than once in a file is not replaced, and neither is one
/// that does not stand in it.
pub proof fn law_an_edit_needs_one_place(
    content: Seq<char>,
    old_text: Seq<char>,
    new_text: Seq<char>,
    i: int,
    j: int,
)
    requires
        old_text.len() > 0,
        text::occurs_at(content, old_text, i),
        text::occurs_at(content, old_text, j),
        i + old_text.len() <= j,
    ensures
        edited(content, old_text, new_text) is Err,
{
    law_an_edit_replaces_the_only_occurrence(content, old_text, new_text);
}

/// The result of a command holds its exit code, or -1 where a signal ended it, and
/// what it wrote, each stream under its own name. Output that is not too long is
/// shown whole, and of longer output the beginning, with how long it is.
pub proof fn law_a_command_is_told(exit_code: Option<i32>, stdout: Seq<char>, stderr: Seq<char>)
    ensures
        ({
            let told = shell_result(exit_code, stdout, stderr);
            &&& told.get("exit_code"@) matches Some(code) && code.as_i64() == Some(
                match exit_code {
                    Some(n) => n as i64,
                    None => -1i64,
                },
            )
            &&& told.get_str("stderr"@) == Some(stderr)
            &&& text::byte_len(stdout) <= 50_000 ==> told.get_str("stdout"@) == Some(stdout)
            &&& text::byte_len(stdout) > 50_000 ==> (told.get_str("stdout"@) matches Some(shown)
                && text::begins_with(shown, text::cut(stdout, 50_000)) && text::contains_text(
                shown,
                text::decimal(text::byte_len(stdout)),
            ))
        }),
{
    lemma_words_differ();
    if text::byte_len(stdout) > 50_000 {
        let start = text::cut(stdout, 50_000);
        let size = text::decimal(text::byte_len(stdout));
        let shown = shown_output(stdout);
        assert(shown.subrange(0, start.len() as int) =~= start);
        text::lemma_contained_between(start + "...\n[truncated, "@, size, " total bytes]"@);
        assert(shown =~= (start + "...\n[truncated, "@) + size + " total bytes]"@);
    }
}

/// Every entry of a directory is listed, in order, under its own name and with
/// what it is; directories end with a slash.
pub proof fn law_every_entry_is_listed(entries: Seq<DirEntry>, i: int)
    requires
        0 <= i < entries.len(),
    ensures
        entry_docs(entries).len() == entries.len(),
        entries[i].is_dir ==> entry_docs(entries)[i].get_str("name"@) == Some(
            entries[i].name@ + "/"@,
        ) && entry_docs(entries)[i].get_str("type"@) == Some("directory"@),
        !entries[i].is_dir ==> entry_docs(entries)[i].get_str("name"@) == Some(entries[i].name@)
            && entry_docs(entries)[i].get_str("type"@) == Some("file"@),
{
    lemma_words_differ();
}

/// A search tells how many matches there are, and shows them in order, as far as
/// the first hundred; it says whether that were all.
pub proof fn law_matches_are_shown(stdout: Seq<char>)
    requires
        text::lines(stdout).len() <= u64::MAX,
    ensures
        ({
            let found = text::lines(stdout);
            let told = grep_result(stdout);
            &&& told.get_u64("total_matches"@) == Some(found.len() as u64)
            &&& told.get("truncated"@) == Some(json::JsonView::Bool(found.len() > 100))
            &&& found.len() <= 100 ==> told.get_str("matches"@) == Some(text::join(found, "\n"@))
            &&& told.get_str("matches"@) matches Some(shown) && forall|i: int|
                0 <= i < found.len() && i < 100 ==> text::contains_text(shown, #[trigger] found[i])
            &&& found.len() > 100 ==> told.get_str("matches"@) == Some(
                text::join(found.subrange(0, 100), "\n"@),
            )
        }),
{
    lemma_words_differ();
    let found = text::lines(stdout);
    let part = if found.len() > 100 {
        found.take(100)
    } else {
        found
    };
    assert(found.take(100) =~= found.subrange(0, 100));
    assert forall|i: int| 0 <= i < found.len() && i < 100 implies text::contains_text(
        text::join(part, "\n"@),
        #[trigger] found[i],
    ) by {
        text::law_joined_texts_hold_their_parts(part, "\n"@, i);
    }
}

/// The tools stand in the order of their names, and touch what they say: those that
/// only read need to read, those that change files need to write, and only the
/// shell executes.
pub proof fn law_tools_declare_what_they_touch(i: int)
    requires
        0 <= i < 6,
    ensures
        workspace_views().len() == 6,
        workspace_names().len() == 6,
        workspace_views()[i].name == workspace_names()[i],
        workspace_views()[i].capabilities.len() == 1,
        workspace_views()[i].capabilities[0] == (if workspace_names()[i] == "shell"@ {
            "shell:exec"@
        } else if workspace_names()[i] == "file_write"@ || workspace_names()[i] == "file_edit"@ {
            "fs:write"@
        } else {
            "fs:read"@
        }),
        workspace_names() == seq![
            "file_read"@,
            "file_write"@,
            "file_edit"@,
            "shell"@,
            "ls"@,
            "grep"@,
        ],
{
    lemma_names_differ();
}

proof fn lemma_names_differ()
    ensures
        "file_read"@.len() == 9 && "file_read"@[5] == 'r',
        "file_write"@.len() == 10,
        "file_edit"@.len() == 9 && "file_edit"@[5] == 'e',
        "shell"@.len() == 5,
        "ls"@.len() == 2,
        "grep"@.len() == 4,
{
    reveal_strlit("file_read");
    reveal_strlit("file_write");
    reveal_strlit("file_edit");
    reveal_strlit("shell");
    reveal_strlit("ls");
    reveal_strlit("grep");
}

/// Whether a schema asks for an object, declares the parameter `name` as of type
/// `kind`, and says that it is required, if it is.
pub open spec fn declares(
    schema: json::JsonView,
    name: Seq<char>,
    kind: Seq<char>,
    required: bool,
) -> bool {
    &&& schema.get_str("type"@) == Some("object"@)
    &&& schema.get("properties"@) matches Some(all) && (all.get(name) matches Some(one)
        && one.get_str("type"@) == Some(kind))
    &&& required == (schema.get("required"@) matches Some(json::JsonView::Array(names))
        && names.contains(json::JsonView::Str(name)))
}

/// Each tool declares the parameters that it reads, with their types, and which of
/// them it cannot do without.
pub proof fn law_tools_declare_their_parameters()
    ensures
        declares(file_read_view().schema, "path"@, "string"@, true),
        declares(file_read_view().schema, "offset"@, "integer"@, false),
        declares(file_read_view().schema, "limit"@, "integer"@, false),
        declares(file_write_view().schema, "path"@, "string"@, true),
        declares(file_write_view().schema, "content"@, "string"@, true),
        declares(file_edit_view().schema, "path"@, "string"@, true),
        declares(file_edit_view().schema, "old_string"@, "string"@, true),
        declares(file_edit_view().schema, "new_string"@, "string"@, true),
        declares(shell_view().schema, "command"@, "string"@, true),
        declares(ls_view().schema, "path"@, "string"@, false),
        declares(grep_view().schema, "pattern"@, "string"@, true),
        declares(grep_view().schema, "path"@, "string"@, false),
{
    lemma_words_differ();
    let p = json::JsonView::Str("path"@);
    let one = seq![p];
    assert(one[0] == p);
    let two = seq![p, json::JsonView::Str("content"@)];
    assert(two[0] == p && two[1] == json::JsonView::Str("content"@));
    let three = seq![
        p,
        json::JsonView::Str("old_string"@),
        json::JsonView::Str("new_string"@),
    ];
    assert(three[0] == p && three[1] == json::JsonView::Str("old_string"@) && three[2]
        == json::JsonView::Str("new_string"@));
    let run = seq![json::JsonView::Str("command"@)];
    assert(run[0] == json::JsonView::Str("command"@));
    let look = seq![json::JsonView::Str("pattern"@)];
    assert(look[0] == json::JsonView::Str("pattern"@));
}

/// Enabling keeps the order of the tools, and so do the ids that name none: of two
/// lists, one behind the other, those of the first come first.
pub proof fn law_enabling_keeps_the_order(
    a: Seq<tool::ToolSchemaView>,
    b: Seq<tool::ToolSchemaView>,
    enabled: Seq<Seq<char>>,
    ids: Seq<Seq<char>>,
    more: Seq<Seq<char>>,
    id: Seq<char>,
)
    ensures
        named_tools(a + b, enabled) == named_tools(a, enabled) + named_tools(b, enabled),
        unknown(ids + more) == unknown(ids) + unknown(more),
        workspace_names().contains(id) ==> unknown(seq![id]).len() == 0,
        !workspace_names().contains(id) ==> unknown(seq![id]) == seq![id],
{
    reveal_with_fuel(unknown, 2);
    assert(seq![id].drop_last() =~= Seq::empty());
    if !workspace_names().contains(id) {
        assert(unknown(seq![id]) =~= seq![id]);
    }
    lemma_enabling_adds_up(a, b, enabled);
    lemma_unknown_adds_up(ids, more);
}

proof fn lemma_enabling_adds_up(
    a: Seq<tool::ToolSchemaView>,
    b: Seq<tool::ToolSchemaView>,
    enabled: Seq<Seq<char>>,
)
    ensures
        named_tools(a + b, enabled) == named_tools(a, enabled) + named_tools(b, enabled),
    decreases b.len(),
{
    if b.len() == 0 {
        assert(a + b =~= a);
        assert(named_tools(a, enabled) + named_tools(b, enabled) =~= named_tools(a, enabled));
    } else {
        assert((a + b).drop_last() =~= a + b.drop_last());
        lemma_enabling_adds_up(a, b.drop_last(), enabled);
        assert(named_tools(a + b, enabled) =~= named_tools(a, enabled) + named_tools(b, enabled));
    }
}

proof fn lemma_unknown_adds_up(a: Seq<Seq<char>>, b: Seq<Seq<char>>)
    ensures
        unknown(a + b) == unknown(a) + unknown(b),
    decreases b.len(),
{
    if b.len() == 0 {
        assert(a + b =~= a);
        assert(unknown(a) + unknown(b) =~= unknown(a));
    } else {
        assert((a + b).drop_last() =~= a + b.drop_last());
        lemma_unknown_adds_up(a, b.drop_last());
        assert(unknown(a + b) =~= unknown(a) + unknown(b));
    }
}

/// What the tools come to where their work was done: of a command all that it
/// wrote, of a directory its path and entries, of a search its matches, and of an
/// edit whether the file is new. None of the first three makes anything stale, and
/// an edit makes its file so.
pub proof fn law_the_tools_tell_their_work(
    workspace: Seq<char>,
    input: json::JsonView,
    done: ShellRun,
    entries: Vec<DirEntry>,
    stdout: String,
    e: String,
)
    ensures
        input.get_str("command"@) is Some ==> (shell(input, Ok(done)) matches Ok(output)
            && output.result == shell_result(done.exit_code, done.stdout@, done.stderr@)
            && output.invalidations.len() == 0),
        input.get_str("command"@) is Some ==> shell(input, Err(e)) == Err::<
            tool::ToolOutputView,
            tool::ToolErrorView,
        >(tool::ToolErrorView::ExecutionFailed("failed to spawn shell: "@ + e@)),
        input.get_str("command"@) is None ==> shell(input, Ok(done)) == Err::<
            tool::ToolOutputView,
            tool::ToolErrorView,
        >(tool::ToolErrorView::InvalidInput("missing 'command'"@)),
        ls(input, Ok(entries)) matches Ok(output) && output.result.get_str("path"@) == Some(
            path_or_dot(input),
        ) && output.result.get("entries"@) == Some(json::JsonView::Array(entry_docs(entries@)))
            && output.invalidations.len() == 0,
        ls(input, Err(e)) == Err::<tool::ToolOutputView, tool::ToolErrorView>(
            tool::ToolErrorView::ExecutionFailed("failed to read directory: "@ + e@),
        ),
        input.get_str("pattern"@) is Some ==> (grep(input, Ok(stdout)) matches Ok(output)
            && output.result == grep_result(stdout@) && output.invalidations.len() == 0),
        input.get_str("pattern"@) is None ==> grep(input, Ok(stdout)) is Err,
        input.get_str("pattern"@) is Some ==> grep(input, Err(e)) == Err::<
            tool::ToolOutputView,
            tool::ToolErrorView,
        >(tool::ToolErrorView::ExecutionFailed("grep failed: "@ + e@)),
        edit_input(input) matches Ok(asked) ==> (file_edit(
            workspace,
            input,
            WriteOutcome::Written,
        ) matches Ok(output) && output.result.get_str("path"@) == input.get_str("path"@)
            && output.result.get_str("action"@) == Some(
            if asked.old_text.len() == 0 {
                "created"@
            } else {
                "edited"@
            },
        ) && output.invalidations == seq![
            types::InvalidationView::Files(seq![paths::join(workspace, asked.path)]),
        ]),
        edit_input(input) is Ok ==> file_edit(workspace, input, WriteOutcome::NotWritten(e)) is Err,
{
    lemma_words_differ();
}

/// What is written is what was asked for, in the workspace and under the path that
/// was given: the content as it is, or the file as it was read with the one place
/// of the old text taken by the new.
pub proof fn law_files_are_written_as_asked(
    workspace: Seq<char>,
    input: json::JsonView,
    path: Seq<char>,
    before: Seq<char>,
    behind: Seq<char>,
)
    requires
        input.get_str("path"@) == Some(path),
    ensures
        input.get_str("content"@) matches Some(content) ==> (write_plan(
            workspace,
            input,
        ) matches Ok(plan) && plan.path == paths::join(workspace, path) && plan.parent
            == paths::parent(plan.path) && plan.content == content),
        input.get_str("content"@) is None ==> write_plan(workspace, input) is Err,
        ({
            let old_text = input.get_str("old_string"@);
            let new_text = input.get_str("new_string"@);
            old_text is Some && new_text is Some && old_text->0.len() > 0 ==> {
                let content = before + old_text->0 + behind;
                edit_plan(workspace, input, Ok(content)) matches Ok(plan) ==> {
                    let at = text::find_from(content, old_text->0, 0);
                    &&& plan.path == paths::join(workspace, path)
                    &&& plan.content == content.take(at) + new_text->0 + content.skip(
                        at + old_text->0.len(),
                    )
                    &&& (forall|k: int|
                        0 <= k < before.len() ==> !text::occurs_at(content, old_text->0, k))
                        ==> plan.content == before + new_text->0 + behind
                }
            }
        }),
        ({
            let new_text = input.get_str("new_string"@);
            input.get_str("old_string"@) == Some(Seq::<char>::empty()) && new_text is Some ==> (
            edit_plan(workspace, input, Ok(before)) matches Ok(plan) && plan.path == paths::join(
                workspace,
                path,
            ) && plan.content == new_text->0)
        }),
{
    let old_text = input.get_str("old_string"@);
    let new_text = input.get_str("new_string"@);
    if old_text is Some && new_text is Some && old_text->0.len() > 0 {
        let o = old_text->0;
        let content = before + o + behind;
        law_an_edit_replaces_the_only_occurrence(content, o, new_text->0);
        assert(content.subrange(before.len() as int, (before.len() + o.len()) as int) =~= o);
        assert(text::occurs_at(content, o, before.len() as int));
        text::lemma_find_from(content, o, 0);
        if forall|k: int| 0 <= k < before.len() ==> !text::occurs_at(content, o, k) {
            let at = text::find_from(content, o, 0);
            assert(0 <= at <= before.len());
            assert(at == before.len());
            assert(content.take(at) =~= before);
            assert(content.skip(at + o.len()) =~= behind);
        }
    }
}

} // verus!
