//! Event logs: one event a line, each a JSON record.

use crate::json;
use crate::json::Json;
use crate::members;
use crate::members::{find_content_end, find_item, find_members, Member};
use crate::session_events;
use crate::session_events::{SessionEvent, WorkspaceFingerprint};
use crate::text;
use crate::text::{
    byte_len_of, chars_of, debug_of, decimal_of, is_blank, lines_of, same, string_of,
};
use vstd::prelude::*;
use vstd::string::*;

verus! {

// ---------------------------------------------------------------------------
// Records
// ---------------------------------------------------------------------------

pub open spec fn optional_text(t: Option<Seq<char>>) -> json::JsonView {
    match t {
        Some(s) => json::JsonView::Str(s),
        None => json::JsonView::Null,
    }
}

pub open spec fn number(n: u64) -> json::JsonView {
    json::JsonView::Number(json::JsonNumber::U64(n))
}

/// The record of a fingerprint.
pub open spec fn fingerprint_record(f: session_events::FingerprintView) -> json::JsonView {
    json::json_object().with("commit"@, optional_text(f.commit)).with(
        "branch"@,
        optional_text(f.branch),
    ).with("dirty"@, json::JsonView::Bool(f.dirty)).with(
        "workspace_path"@,
        json::JsonView::Str(f.workspace_path),
    )
}

/// The start of the record of an event: its type, time and turn.
pub open spec fn record_head(kind: Seq<char>, e: session_events::EventView) -> json::JsonView {
    json::json_object().with("type"@, json::JsonView::Str(kind)).with(
        "timestamp_ms"@,
        number(e.timestamp_ms),
    ).with("turn_index"@, number(e.turn_index as u64))
}

/// The record of an event.
pub open spec fn event_record(e: session_events::EventView) -> json::JsonView {
    match e.what {
        session_events::Happening::SessionStarted {
            workspace,
            system_prompt,
            policy_name,
            fingerprint,
        } => record_head("SessionStarted"@, e).with(
            "workspace"@,
            json::JsonView::Str(workspace),
        ).with("system_prompt"@, json::JsonView::Str(system_prompt)).with(
            "policy_name"@,
            json::JsonView::Str(policy_name),
        ).with(
            "fingerprint"@,
            match fingerprint {
                Some(f) => fingerprint_record(f),
                None => json::JsonView::Null,
            },
        ),
        session_events::Happening::UserInput { text } => record_head("UserInput"@, e).with(
            "text"@,
            json::JsonView::Str(text),
        ),
        session_events::Happening::AssistantResponse { text } => record_head(
            "AssistantResponse"@,
            e,
        ).with("text"@, json::JsonView::Str(text)),
        session_events::Happening::ToolExchange { tool_name, input, result } => record_head(
            "ToolExchange"@,
            e,
        ).with("tool_name"@, json::JsonView::Str(tool_name)).with("input"@, input).with(
            "result"@,
            result,
        ),
        session_events::Happening::SystemMessage { text } => record_head("SystemMessage"@, e).with(
            "text"@,
            json::JsonView::Str(text),
        ),
    }
}

fn optional_text_json(t: &Option<String>) -> (r: Json)
    ensures
        r.deep_view() == optional_text(t.deep_view()),
{
    match t {
        Some(s) => Json::text(s.as_str()),
        None => Json::Null,
    }
}

fn head_json(kind: &str, timestamp_ms: u64, turn_index: usize) -> (r: Json)
    ensures
        forall|e: session_events::EventView|
            e.timestamp_ms == timestamp_ms && e.turn_index == turn_index ==> r.deep_view()
                == #[trigger] record_head(kind@, e),
{
    Json::object().with("type", Json::text(kind)).with(
        "timestamp_ms",
        Json::natural(timestamp_ms),
    ).with("turn_index", Json::natural(turn_index as u64))
}

impl WorkspaceFingerprint {
    /// The record of the fingerprint.
    pub fn to_json(&self) -> (r: Json)
        ensures
            r.deep_view() == fingerprint_record(self.deep_view()),
    {
        Json::object().with("commit", optional_text_json(&self.commit)).with(
            "branch",
            optional_text_json(&self.branch),
        ).with("dirty", Json::Bool(self.dirty)).with(
            "workspace_path",
            Json::text(self.workspace_path.as_str()),
        )
    }
}

impl SessionEvent {
    /// The record of the event.
    pub fn to_json(&self) -> (r: Json)
        ensures
            r.deep_view() == event_record(self.deep_view()),
    {
        match self {
            SessionEvent::SessionStarted {
                timestamp_ms,
                turn_index,
                workspace,
                system_prompt,
                policy_name,
                fingerprint,
            } => {
                assert(record_head("SessionStarted"@, self.deep_view()) == record_head(
                    "SessionStarted"@,
                    self.deep_view(),
                ));
                head_json("SessionStarted", *timestamp_ms, *turn_index).with(
                    "workspace",
                    Json::text(workspace.as_str()),
                ).with("system_prompt", Json::text(system_prompt.as_str())).with(
                    "policy_name",
                    Json::text(policy_name.as_str()),
                ).with(
                    "fingerprint",
                    match fingerprint {
                        Some(f) => f.to_json(),
                        None => Json::Null,
                    },
                )
            },
            SessionEvent::UserInput { timestamp_ms, turn_index, text } => head_json(
                "UserInput",
                *timestamp_ms,
                *turn_index,
            ).with("text", Json::text(text.as_str())),
            SessionEvent::AssistantResponse { timestamp_ms, turn_index, text } => head_json(
                "AssistantResponse",
                *timestamp_ms,
                *turn_index,
            ).with("text", Json::text(text.as_str())),
            SessionEvent::ToolExchange { timestamp_ms, turn_index, tool_name, input, result } => {
                head_json("ToolExchange", *timestamp_ms, *turn_index).with(
                    "tool_name",
                    Json::text(tool_name.as_str()),
                ).with("input", input.clone()).with("result", result.clone())
            },
            SessionEvent::SystemMessage { timestamp_ms, turn_index, text } => head_json(
                "SystemMessage",
                *timestamp_ms,
                *turn_index,
            ).with("text", Json::text(text.as_str())),
        }
    }
}

// ---------------------------------------------------------------------------
// What is wrong with a record
// ---------------------------------------------------------------------------

/// How a value is called that should be another.
pub open spec fn unexpected(v: json::JsonView) -> Seq<char> {
    match v {
        json::JsonView::Null => "null"@,
        json::JsonView::Bool(b) => if b {
            "boolean `true`"@
        } else {
            "boolean `false`"@
        },
        json::JsonView::Number(json::JsonNumber::Other(_)) => "floating point `"@ + json::json_text(
            v,
        ) + "`"@,
        json::JsonView::Number(_) => "integer `"@ + json::json_text(v) + "`"@,
        json::JsonView::Str(s) => "string "@ + text::debug_text(s),
        json::JsonView::Array(_) => "sequence"@,
        json::JsonView::Object(_) => "map"@,
    }
}

/// What is said of a value of another type than is wanted.
pub open spec fn invalid_type(v: json::JsonView, wanted: Seq<char>) -> Seq<char> {
    "invalid type: "@ + unexpected(v) + ", expected "@ + wanted
}

/// What is said of a value that is out of range.
pub open spec fn invalid_value(v: json::JsonView, wanted: Seq<char>) -> Seq<char> {
    "invalid value: "@ + unexpected(v) + ", expected "@ + wanted
}

/// What is said of a member that is not there.
pub open spec fn missing(name: Seq<char>) -> Seq<char> {
    "missing field `"@ + name + "`"@
}

/// What is said of a member that is there twice.
pub open spec fn duplicate(name: Seq<char>) -> Seq<char> {
    "duplicate field `"@ + name + "`"@
}

/// What is said of an array with `n` items where `wanted` are.
pub open spec fn invalid_length(n: nat, wanted: Seq<char>) -> Seq<char> {
    "invalid length "@ + text::decimal(n) + ", expected "@ + wanted
}

/// What is said of a type of event that there is not.
pub open spec fn unknown_kind(kind: Seq<char>) -> Seq<char> {
    "unknown variant `"@ + kind
        + "`, expected one of `SessionStarted`, `UserInput`, `AssistantResponse`, `ToolExchange`, `SystemMessage`"@
}

fn unexpected_of(v: &Json) -> (r: String)
    ensures
        r@ == unexpected(v.deep_view()),
{
    match v {
        Json::Null => "null".to_owned(),
        Json::Bool(b) => if *b {
            "boolean `true`".to_owned()
        } else {
            "boolean `false`".to_owned()
        },
        Json::Number(_) => {
            let mut r = if v.as_u64().is_none() && v.as_i64().is_none() {
                "floating point `".to_owned()
            } else {
                "integer `".to_owned()
            };
            r.push_str(v.to_text().as_str());
            r.push_str("`");
            r
        },
        Json::Str(s) => {
            let mut r = "string ".to_owned();
            r.push_str(debug_of(s.as_str()).as_str());
            r
        },
        Json::Array(_) => "sequence".to_owned(),
        Json::Object(_) => "map".to_owned(),
    }
}

fn invalid_of(what: &str, v: &Json, wanted: &str) -> (r: String)
    ensures
        r@ == what@ + unexpected(v.deep_view()) + ", expected "@ + wanted@,
{
    let mut r = what.to_owned();
    r.push_str(unexpected_of(v).as_str());
    r.push_str(", expected ");
    r.push_str(wanted);
    r
}

fn field_error(what: &str, name: &str) -> (r: String)
    ensures
        r@ == what@ + name@ + "`"@,
{
    let mut r = what.to_owned();
    r.push_str(name);
    r.push_str("`");
    r
}

fn invalid_length_of(n: usize, wanted: &str) -> (r: String)
    ensures
        r@ == invalid_length(n as nat, wanted@),
{
    let mut r = "invalid length ".to_owned();
    r.push_str(decimal_of(n as u64).as_str());
    r.push_str(", expected ");
    r.push_str(wanted);
    r
}

fn unknown_kind_of(kind: &str) -> (r: String)
    ensures
        r@ == unknown_kind(kind@),
{
    let mut r = "unknown variant `".to_owned();
    r.push_str(kind);
    r.push_str(
        "`, expected one of `SessionStarted`, `UserInput`, `AssistantResponse`, `ToolExchange`, `SystemMessage`",
    );
    r
}

// ---------------------------------------------------------------------------
// Values of members
// ---------------------------------------------------------------------------

/// The text that a value is.
pub open spec fn text_value(v: json::JsonView) -> Result<Seq<char>, Seq<char>> {
    match v {
        json::JsonView::Str(s) => Ok(s),
        _ => Err(invalid_type(v, "a string"@)),
    }
}

/// The truth value that a value is.
pub open spec fn bool_value(v: json::JsonView) -> Result<bool, Seq<char>> {
    match v {
        json::JsonView::Bool(b) => Ok(b),
        _ => Err(invalid_type(v, "a boolean"@)),
    }
}

/// The time that a value is.
pub open spec fn time_value(v: json::JsonView) -> Result<u64, Seq<char>> {
    match v {
        json::JsonView::Number(json::JsonNumber::U64(n)) => Ok(n),
        json::JsonView::Number(json::JsonNumber::I64(_)) => Err(invalid_value(v, "u64"@)),
        _ => Err(invalid_type(v, "u64"@)),
    }
}

/// The count that a value is.
pub open spec fn count_value(v: json::JsonView) -> Result<usize, Seq<char>> {
    match v {
        json::JsonView::Number(json::JsonNumber::U64(n)) => if n <= usize::MAX {
            Ok(n as usize)
        } else {
            Err(invalid_value(v, "usize"@))
        },
        json::JsonView::Number(json::JsonNumber::I64(_)) => Err(invalid_value(v, "usize"@)),
        _ => Err(invalid_type(v, "usize"@)),
    }
}

/// The text that a value is, or none where it is null.
pub open spec fn optional_text_value(v: json::JsonView) -> Result<Option<Seq<char>>, Seq<char>> {
    match v {
        json::JsonView::Null => Ok(None),
        json::JsonView::Str(s) => Ok(Some(s)),
        _ => Err(invalid_type(v, "a string"@)),
    }
}

/// What was read, or what was wrong with it.
pub open spec fn told<T: DeepView>(r: Result<T, String>) -> Result<T::V, Seq<char>> {
    match r {
        Ok(v) => Ok(v.deep_view()),
        Err(e) => Err(e@),
    }
}

fn text_from(v: &Json) -> (r: Result<String, String>)
    ensures
        told(r) == text_value(v.deep_view()),
{
    match v {
        Json::Str(s) => Ok(s.clone()),
        _ => Err(invalid_of("invalid type: ", v, "a string")),
    }
}

fn bool_from(v: &Json) -> (r: Result<bool, String>)
    ensures
        match r {
            Ok(b) => bool_value(v.deep_view()) == Ok::<bool, Seq<char>>(b),
            Err(e) => bool_value(v.deep_view()) == Err::<bool, Seq<char>>(e@),
        },
{
    match v {
        Json::Bool(b) => Ok(*b),
        _ => Err(invalid_of("invalid type: ", v, "a boolean")),
    }
}

fn time_from(v: &Json) -> (r: Result<u64, String>)
    ensures
        match r {
            Ok(n) => time_value(v.deep_view()) == Ok::<u64, Seq<char>>(n),
            Err(e) => time_value(v.deep_view()) == Err::<u64, Seq<char>>(e@),
        },
{
    match v.as_u64() {
        Some(n) => Ok(n),
        None => if v.as_i64().is_some() {
            Err(invalid_of("invalid value: ", v, "u64"))
        } else {
            Err(invalid_of("invalid type: ", v, "u64"))
        },
    }
}

fn count_from(v: &Json) -> (r: Result<usize, String>)
    ensures
        match r {
            Ok(n) => count_value(v.deep_view()) == Ok::<usize, Seq<char>>(n),
            Err(e) => count_value(v.deep_view()) == Err::<usize, Seq<char>>(e@),
        },
{
    match v.as_u64() {
        Some(n) => if n <= usize::MAX as u64 {
            Ok(n as usize)
        } else {
            Err(invalid_of("invalid value: ", v, "usize"))
        },
        None => if v.as_i64().is_some() {
            Err(invalid_of("invalid value: ", v, "usize"))
        } else {
            Err(invalid_of("invalid type: ", v, "usize"))
        },
    }
}

fn optional_text_from(v: &Json) -> (r: Result<Option<String>, String>)
    ensures
        told(r) == optional_text_value(v.deep_view()),
{
    match v {
        Json::Null => Ok(None),
        Json::Str(s) => Ok(Some(s.clone())),
        _ => Err(invalid_of("invalid type: ", v, "a string")),
    }
}

// ---------------------------------------------------------------------------
// Members
// ---------------------------------------------------------------------------

/// The member `name` of a record. Where it is absent, `short` is said if the
/// members were given by their places.
pub open spec fn member(doc: json::JsonView, name: Seq<char>, short: Option<Seq<char>>) -> Result<
    json::JsonView,
    Seq<char>,
> {
    match doc.get(name) {
        Some(v) => Ok(v),
        None => Err(
            match short {
                Some(e) => e,
                None => missing(name),
            },
        ),
    }
}

/// The text that the member `name` of a record holds.
pub open spec fn text_member(
    doc: json::JsonView,
    name: Seq<char>,
    short: Option<Seq<char>>,
) -> Result<Seq<char>, Seq<char>> {
    match member(doc, name, short) {
        Err(e) => Err(e),
        Ok(v) => text_value(v),
    }
}

/// The text that the member `name` of a record holds: none where it is null, or
/// absent from a record by names.
pub open spec fn optional_text_member(
    doc: json::JsonView,
    name: Seq<char>,
    short: Option<Seq<char>>,
) -> Result<Option<Seq<char>>, Seq<char>> {
    match member(doc, name, short) {
        Ok(v) => optional_text_value(v),
        Err(e) => if short is Some {
            Err(e)
        } else {
            Ok(None)
        },
    }
}

/// The first `n` items as members of a record, by the names in the same places.
pub open spec fn placed(items: Seq<json::JsonView>, names: Seq<Seq<char>>, n: nat) -> json::JsonView
    decreases n,
{
    if n == 0 {
        json::json_object()
    } else {
        placed(items, names, (n - 1) as nat).with(names[n - 1], items[n - 1])
    }
}

/// The items of an array as members of a record, as far as there are names.
pub open spec fn by_place(items: Seq<json::JsonView>, names: Seq<Seq<char>>) -> json::JsonView {
    placed(
        items,
        names,
        if items.len() <= names.len() {
            items.len()
        } else {
            names.len()
        },
    )
}

/// What was read of an array with `n` members, where these are no more than the
/// `most` that there are names for.
pub open spec fn if_not_longer<T>(
    r: Result<T, Seq<char>>,
    n: nat,
    most: nat,
    wanted: Seq<char>,
) -> Result<T, Seq<char>> {
    match r {
        Ok(_) => if n > most {
            Err(invalid_length(n, wanted))
        } else {
            r
        },
        Err(_) => r,
    }
}

fn member_in<'a>(doc: &'a Json, name: &str, short: &Option<String>) -> (r: Result<&'a Json, String>)
    ensures
        match r {
            Ok(v) => member(doc.deep_view(), name@, short.deep_view()) == Ok::<
                json::JsonView,
                Seq<char>,
            >(v.deep_view()),
            Err(e) => member(doc.deep_view(), name@, short.deep_view()) == Err::<
                json::JsonView,
                Seq<char>,
            >(e@),
        },
{
    match doc.get(name) {
        Some(v) => Ok(v),
        None => match short {
            Some(e) => Err(e.clone()),
            None => Err(field_error("missing field `", name)),
        },
    }
}

fn text_in(doc: &Json, name: &str, short: &Option<String>) -> (r: Result<String, String>)
    ensures
        told(r) == text_member(doc.deep_view(), name@, short.deep_view()),
{
    match member_in(doc, name, short) {
        Err(e) => Err(e),
        Ok(v) => text_from(v),
    }
}

fn optional_text_in(doc: &Json, name: &str, short: &Option<String>) -> (r: Result<
    Option<String>,
    String,
>)
    ensures
        told(r) == optional_text_member(doc.deep_view(), name@, short.deep_view()),
{
    match member_in(doc, name, short) {
        Ok(v) => optional_text_from(v),
        Err(e) => if short.is_some() {
            Err(e)
        } else {
            Ok(None)
        },
    }
}

spec fn texts_of(names: Seq<&str>) -> Seq<Seq<char>> {
    Seq::new(names.len(), |i: int| names[i]@)
}

fn by_place_of(items: &Vec<Json>, names: &Vec<&str>) -> (r: Json)
    ensures
        r.deep_view() == by_place(items.deep_view(), texts_of(names@)),
{
    let ghost all = items.deep_view();
    let mut r = Json::object();
    let mut i: usize = 0;
    while i < items.len() && i < names.len()
        invariant
            all == items.deep_view(),
            i <= items@.len() == all.len(),
            i <= names@.len(),
            r.deep_view() == placed(all, texts_of(names@), i as nat),
        decreases items@.len() - i,
    {
        r = r.with(names[i], items[i].clone());
        i += 1;
    }
    r
}

// ---------------------------------------------------------------------------
// Fingerprints
// ---------------------------------------------------------------------------

/// The members of a fingerprint's record, in their places.
pub open spec fn fingerprint_names() -> Seq<Seq<char>> {
    seq!["commit"@, "branch"@, "dirty"@, "workspace_path"@]
}

/// The fingerprint that the members of a record hold.
pub open spec fn fingerprint_in(doc: json::JsonView, short: Option<Seq<char>>) -> Result<
    session_events::FingerprintView,
    Seq<char>,
> {
    match optional_text_member(doc, "commit"@, short) {
        Err(e) => Err(e),
        Ok(commit) => match optional_text_member(doc, "branch"@, short) {
            Err(e) => Err(e),
            Ok(branch) => match member(doc, "dirty"@, short) {
                Err(e) => Err(e),
                Ok(v) => match bool_value(v) {
                    Err(e) => Err(e),
                    Ok(dirty) => match text_member(doc, "workspace_path"@, short) {
                        Err(e) => Err(e),
                        Ok(workspace_path) => Ok(
                            session_events::FingerprintView {
                                commit,
                                branch,
                                dirty,
                                workspace_path,
                            },
                        ),
                    },
                },
            },
        },
    }
}

/// The fingerprint that a record holds, with its members by name or by place.
pub open spec fn fingerprint_of_record(given: json::JsonView) -> Result<
    session_events::FingerprintView,
    Seq<char>,
> {
    match given {
        json::JsonView::Object(_) => fingerprint_in(given, None),
        json::JsonView::Array(items) => if_not_longer(
            fingerprint_in(
                by_place(items, fingerprint_names()),
                Some(
                    invalid_length(items.len(), "struct WorkspaceFingerprint with 4 elements"@),
                ),
            ),
            items.len(),
            4,
            "4 elements in sequence"@,
        ),
        _ => Err(invalid_type(given, "struct WorkspaceFingerprint"@)),
    }
}

fn fingerprint_from(doc: &Json, short: &Option<String>) -> (r: Result<WorkspaceFingerprint, String>)
    ensures
        told(r) == fingerprint_in(doc.deep_view(), short.deep_view()),
{
    let commit = match optional_text_in(doc, "commit", short) {
        Ok(commit) => commit,
        Err(e) => {
            return Err(e);
        },
    };
    let branch = match optional_text_in(doc, "branch", short) {
        Ok(branch) => branch,
        Err(e) => {
            return Err(e);
        },
    };
    let dirty: bool = match member_in(doc, "dirty", short) {
        Ok(v) => match bool_from(v) {
            Ok(dirty) => dirty,
            Err(e) => {
                return Err(e);
            },
        },
        Err(e) => {
            return Err(e);
        },
    };
    match text_in(doc, "workspace_path", short) {
        Ok(workspace_path) => Ok(WorkspaceFingerprint { commit, branch, dirty, workspace_path }),
        Err(e) => Err(e),
    }
}

impl WorkspaceFingerprint {
    /// The fingerprint that a record holds, or the first thing that is wrong with
    /// it.
    pub fn from_json(given: &Json) -> (r: Result<Self, String>)
        ensures
            told(r) == fingerprint_of_record(given.deep_view()),
    {
        if let Some(items) = given.as_array() {
            assert(given.deep_view() == json::JsonView::Array(items.deep_view()));
            let n: usize = items.len();
            let names: Vec<&str> = vec!["commit", "branch", "dirty", "workspace_path"];
            assert(texts_of(names@) =~= fingerprint_names());
            let short = Some(invalid_length_of(n, "struct WorkspaceFingerprint with 4 elements"));
            let doc = by_place_of(items, &names);
            let r = fingerprint_from(&doc, &short);
            return if r.is_ok() && n > 4 {
                Err(invalid_length_of(n, "4 elements in sequence"))
            } else {
                r
            };
        }
        match given {
            Json::Object(_) => fingerprint_from(given, &None),
            _ => Err(invalid_of("invalid type: ", given, "struct WorkspaceFingerprint")),
        }
    }
}

/// The fingerprint that a session's start names: none where it is absent or
/// null.
pub open spec fn optional_fingerprint(doc: Option<json::JsonView>) -> Result<
    Option<session_events::FingerprintView>,
    Seq<char>,
> {
    match doc {
        None => Ok(None),
        Some(json::JsonView::Null) => Ok(None),
        Some(f) => match fingerprint_of_record(f) {
            Ok(f) => Ok(Some(f)),
            Err(e) => Err(e),
        },
    }
}

fn optional_fingerprint_from(doc: Option<&Json>) -> (r: Result<
    Option<WorkspaceFingerprint>,
    String,
>)
    ensures
        told(r) == optional_fingerprint(doc.deep_view()),
{
    match doc {
        None => Ok(None),
        Some(Json::Null) => Ok(None),
        Some(f) => match WorkspaceFingerprint::from_json(f) {
            Ok(f) => Ok(Some(f)),
            Err(e) => Err(e),
        },
    }
}

// ---------------------------------------------------------------------------
// Events
// ---------------------------------------------------------------------------

/// Whether there are events of this type.
pub open spec fn is_kind(kind: Seq<char>) -> bool {
    kind == "SessionStarted"@ || kind == "UserInput"@ || kind == "AssistantResponse"@ || kind
        == "ToolExchange"@ || kind == "SystemMessage"@
}

/// The members of the record of a type of event, in their places.
pub open spec fn event_names(kind: Seq<char>) -> Seq<Seq<char>> {
    if kind == "SessionStarted"@ {
        seq![
            "type"@,
            "timestamp_ms"@,
            "turn_index"@,
            "workspace"@,
            "system_prompt"@,
            "policy_name"@,
            "fingerprint"@,
        ]
    } else if kind == "ToolExchange"@ {
        seq!["type"@, "timestamp_ms"@, "turn_index"@, "tool_name"@, "input"@, "result"@]
    } else {
        seq!["type"@, "timestamp_ms"@, "turn_index"@, "text"@]
    }
}

/// The start that the record of a session's start tells of.
pub open spec fn start_of_record(doc: json::JsonView, short: Option<Seq<char>>) -> Result<
    session_events::Happening,
    Seq<char>,
> {
    match text_member(doc, "workspace"@, short) {
        Err(e) => Err(e),
        Ok(workspace) => match text_member(doc, "system_prompt"@, short) {
            Err(e) => Err(e),
            Ok(system_prompt) => match text_member(doc, "policy_name"@, short) {
                Err(e) => Err(e),
                Ok(policy_name) => match optional_fingerprint(doc.get("fingerprint"@)) {
                    Err(e) => Err(e),
                    Ok(fingerprint) => Ok(
                        session_events::Happening::SessionStarted {
                            workspace,
                            system_prompt,
                            policy_name,
                            fingerprint,
                        },
                    ),
                },
            },
        },
    }
}

/// The call that the record of a tool call tells of.
pub open spec fn exchange_of_record(doc: json::JsonView, short: Option<Seq<char>>) -> Result<
    session_events::Happening,
    Seq<char>,
> {
    match text_member(doc, "tool_name"@, short) {
        Err(e) => Err(e),
        Ok(tool_name) => match member(doc, "input"@, short) {
            Err(e) => Err(e),
            Ok(input) => match member(doc, "result"@, short) {
                Err(e) => Err(e),
                Ok(result) => Ok(
                    session_events::Happening::ToolExchange { tool_name, input, result },
                ),
            },
        },
    }
}

/// What a record of a type of event says happened.
pub open spec fn happening_of_record(
    kind: Seq<char>,
    doc: json::JsonView,
    short: Option<Seq<char>>,
) -> Result<session_events::Happening, Seq<char>> {
    if kind == "SessionStarted"@ {
        start_of_record(doc, short)
    } else if kind == "ToolExchange"@ {
        exchange_of_record(doc, short)
    } else {
        match text_member(doc, "text"@, short) {
            Err(e) => Err(e),
            Ok(text) => Ok(
                if kind == "UserInput"@ {
                    session_events::Happening::UserInput { text }
                } else if kind == "AssistantResponse"@ {
                    session_events::Happening::AssistantResponse { text }
                } else {
                    session_events::Happening::SystemMessage { text }
                },
            ),
        }
    }
}

/// The event that the members of a record of a type of event hold.
pub open spec fn event_in(kind: Seq<char>, doc: json::JsonView, short: Option<Seq<char>>) -> Result<
    session_events::EventView,
    Seq<char>,
> {
    match member(doc, "timestamp_ms"@, short) {
        Err(e) => Err(e),
        Ok(v) => match time_value(v) {
            Err(e) => Err(e),
            Ok(timestamp_ms) => match member(doc, "turn_index"@, short) {
                Err(e) => Err(e),
                Ok(v) => match count_value(v) {
                    Err(e) => Err(e),
                    Ok(turn_index) => timed(
                        timestamp_ms,
                        turn_index,
                        happening_of_record(kind, doc, short),
                    ),
                },
            },
        },
    }
}

/// The event of what happened, with its time and turn.
pub open spec fn timed(
    timestamp_ms: u64,
    turn_index: usize,
    what: Result<session_events::Happening, Seq<char>>,
) -> Result<session_events::EventView, Seq<char>> {
    match what {
        Ok(what) => Ok(session_events::EventView { timestamp_ms, turn_index, what }),
        Err(e) => Err(e),
    }
}

/// How a record by places of a type of event is called, which has so many
/// members.
pub open spec fn variant(kind: Seq<char>) -> Seq<char> {
    "struct variant SessionEvent::"@ + kind + " with "@ + text::decimal(
        (event_names(kind).len() - 1) as nat,
    ) + " elements"@
}

/// The event that a record by places holds.
pub open spec fn event_by_place(kind: Seq<char>, items: Seq<json::JsonView>) -> Result<
    session_events::EventView,
    Seq<char>,
> {
    let n = (items.len() - 1) as nat;
    let most = (event_names(kind).len() - 1) as nat;
    if_not_longer(
        event_in(
            kind,
            by_place(items, event_names(kind)),
            Some(invalid_length(n, variant(kind))),
        ),
        n,
        most,
        text::decimal(most) + " elements in sequence"@,
    )
}

/// The type of event that a value names.
pub open spec fn kind_value(v: json::JsonView) -> Result<Seq<char>, Seq<char>> {
    match v {
        json::JsonView::Str(kind) => if is_kind(kind) {
            Ok(kind)
        } else {
            Err(unknown_kind(kind))
        },
        _ => Err(invalid_type(v, "variant identifier"@)),
    }
}

/// The event that a record holds, or the first thing that is wrong with it. The
/// members stand in it by name, or by place in an array.
pub open spec fn event_of_record(given: json::JsonView) -> Result<
    session_events::EventView,
    Seq<char>,
> {
    match given {
        json::JsonView::Object(_) => match member(given, "type"@, None) {
            Err(e) => Err(e),
            Ok(v) => match kind_value(v) {
                Err(e) => Err(e),
                Ok(kind) => event_in(kind, given, None),
            },
        },
        json::JsonView::Array(items) => if items.len() == 0 {
            Err(missing("type"@))
        } else {
            match kind_value(items[0]) {
                Err(e) => Err(e),
                Ok(kind) => event_by_place(kind, items),
            }
        },
        _ => Err(invalid_type(given, "internally tagged enum SessionEvent"@)),
    }
}

fn kind_from(v: &Json) -> (r: Result<String, String>)
    ensures
        told(r) == kind_value(v.deep_view()),
{
    match v {
        Json::Str(kind) => {
            let name: &str = kind.as_str();
            if same(name, "SessionStarted") || same(name, "UserInput") || same(
                name,
                "AssistantResponse",
            ) || same(name, "ToolExchange") || same(name, "SystemMessage") {
                Ok(kind.clone())
            } else {
                Err(unknown_kind_of(name))
            }
        },
        _ => Err(invalid_of("invalid type: ", v, "variant identifier")),
    }
}

fn event_names_of(kind: &str) -> (r: Vec<&'static str>)
    ensures
        texts_of(r@) == event_names(kind@),
        r@.len() == event_names(kind@).len(),
{
    let r: Vec<&'static str> = if same(kind, "SessionStarted") {
        vec![
            "type",
            "timestamp_ms",
            "turn_index",
            "workspace",
            "system_prompt",
            "policy_name",
            "fingerprint",
        ]
    } else if same(kind, "ToolExchange") {
        vec!["type", "timestamp_ms", "turn_index", "tool_name", "input", "result"]
    } else {
        vec!["type", "timestamp_ms", "turn_index", "text"]
    };
    assert(texts_of(r@) =~= event_names(kind@));
    r
}

fn start_from(doc: &Json, timestamp_ms: u64, turn_index: usize, short: &Option<String>) -> (r:
    Result<SessionEvent, String>)
    ensures
        told(r) == timed(
            timestamp_ms,
            turn_index,
            start_of_record(doc.deep_view(), short.deep_view()),
        ),
{
    let workspace = match text_in(doc, "workspace", short) {
        Ok(workspace) => workspace,
        Err(e) => {
            return Err(e);
        },
    };
    let system_prompt = match text_in(doc, "system_prompt", short) {
        Ok(system_prompt) => system_prompt,
        Err(e) => {
            return Err(e);
        },
    };
    let policy_name = match text_in(doc, "policy_name", short) {
        Ok(policy_name) => policy_name,
        Err(e) => {
            return Err(e);
        },
    };
    match optional_fingerprint_from(doc.get("fingerprint")) {
        Ok(fingerprint) => Ok(
            SessionEvent::SessionStarted {
                timestamp_ms,
                turn_index,
                workspace,
                system_prompt,
                policy_name,
                fingerprint,
            },
        ),
        Err(e) => Err(e),
    }
}

fn exchange_from(doc: &Json, timestamp_ms: u64, turn_index: usize, short: &Option<String>) -> (r:
    Result<SessionEvent, String>)
    ensures
        told(r) == timed(
            timestamp_ms,
            turn_index,
            exchange_of_record(doc.deep_view(), short.deep_view()),
        ),
{
    let tool_name = match text_in(doc, "tool_name", short) {
        Ok(tool_name) => tool_name,
        Err(e) => {
            return Err(e);
        },
    };
    let input = match member_in(doc, "input", short) {
        Ok(input) => input.clone(),
        Err(e) => {
            return Err(e);
        },
    };
    match member_in(doc, "result", short) {
        Ok(result) => Ok(
            SessionEvent::ToolExchange {
                timestamp_ms,
                turn_index,
                tool_name,
                input,
                result: result.clone(),
            },
        ),
        Err(e) => Err(e),
    }
}

fn event_from(kind: &str, doc: &Json, short: &Option<String>) -> (r: Result<SessionEvent, String>)
    requires
        is_kind(kind@),
    ensures
        told(r) == event_in(kind@, doc.deep_view(), short.deep_view()),
{
    let timestamp_ms: u64 = match member_in(doc, "timestamp_ms", short) {
        Ok(v) => match time_from(v) {
            Ok(n) => n,
            Err(e) => {
                return Err(e);
            },
        },
        Err(e) => {
            return Err(e);
        },
    };
    let turn_index: usize = match member_in(doc, "turn_index", short) {
        Ok(v) => match count_from(v) {
            Ok(n) => n,
            Err(e) => {
                return Err(e);
            },
        },
        Err(e) => {
            return Err(e);
        },
    };
    if same(kind, "SessionStarted") {
        return start_from(doc, timestamp_ms, turn_index, short);
    }
    if same(kind, "ToolExchange") {
        return exchange_from(doc, timestamp_ms, turn_index, short);
    }
    let text = match text_in(doc, "text", short) {
        Ok(text) => text,
        Err(e) => {
            return Err(e);
        },
    };
    if same(kind, "UserInput") {
        Ok(SessionEvent::UserInput { timestamp_ms, turn_index, text })
    } else if same(kind, "AssistantResponse") {
        Ok(SessionEvent::AssistantResponse { timestamp_ms, turn_index, text })
    } else {
        Ok(SessionEvent::SystemMessage { timestamp_ms, turn_index, text })
    }
}

fn event_by_place_of(kind: &str, items: &Vec<Json>) -> (r: Result<SessionEvent, String>)
    requires
        is_kind(kind@),
        items@.len() > 0,
    ensures
        told(r) == event_by_place(kind@, items.deep_view()),
{
    let names = event_names_of(kind);
    let n: usize = items.len() - 1;
    let most: usize = names.len() - 1;
    let mut wanted = "struct variant SessionEvent::".to_owned();
    wanted.push_str(kind);
    wanted.push_str(" with ");
    wanted.push_str(decimal_of(most as u64).as_str());
    wanted.push_str(" elements");
    let short = Some(invalid_length_of(n, wanted.as_str()));
    let doc = by_place_of(items, &names);
    let r = event_from(kind, &doc, &short);
    if r.is_ok() && n > most {
        let mut wanted = decimal_of(most as u64);
        wanted.push_str(" elements in sequence");
        Err(invalid_length_of(n, wanted.as_str()))
    } else {
        r
    }
}

impl SessionEvent {
    /// The event that a record holds, or the first thing that is wrong with it.
    pub fn from_json(given: &Json) -> (r: Result<Self, String>)
        ensures
            told(r) == event_of_record(given.deep_view()),
    {
        if let Some(items) = given.as_array() {
            assert(given.deep_view() == json::JsonView::Array(items.deep_view()));
            if items.len() == 0 {
                return Err(field_error("missing field `", "type"));
            }
            return match kind_from(&items[0]) {
                Err(e) => Err(e),
                Ok(kind) => event_by_place_of(kind.as_str(), items),
            };
        }
        match given {
            Json::Object(_) => match member_in(given, "type", &None) {
                Err(e) => Err(e),
                Ok(v) => match kind_from(v) {
                    Err(e) => Err(e),
                    Ok(kind) => event_from(kind.as_str(), given, &None),
                },
            },
            _ => Err(invalid_of("invalid type: ", given, "internally tagged enum SessionEvent")),
        }
    }
}

/// A record holds the event that it was made of.
pub proof fn law_records_read_back(e: session_events::EventView)
    ensures
        event_of_record(event_record(e)) == Ok::<session_events::EventView, Seq<char>>(e),
{
    reveal_strlit("type");
    reveal_strlit("timestamp_ms");
    reveal_strlit("turn_index");
    reveal_strlit("text");
    reveal_strlit("tool_name");
    reveal_strlit("input");
    reveal_strlit("result");
    reveal_strlit("workspace");
    reveal_strlit("system_prompt");
    reveal_strlit("policy_name");
    reveal_strlit("fingerprint");
    reveal_strlit("commit");
    reveal_strlit("branch");
    reveal_strlit("dirty");
    reveal_strlit("workspace_path");
    reveal_strlit("SessionStarted");
    reveal_strlit("UserInput");
    reveal_strlit("AssistantResponse");
    reveal_strlit("ToolExchange");
    reveal_strlit("SystemMessage");
    assert("type"@.len() == 4);
    assert("timestamp_ms"@.len() == 12);
    assert("turn_index"@.len() == 10);
    assert("text"@.len() == 4);
    assert("tool_name"@.len() == 9);
    assert("input"@.len() == 5);
    assert("result"@.len() == 6);
    assert("workspace"@.len() == 9);
    assert("system_prompt"@.len() == 13);
    assert("policy_name"@.len() == 11);
    assert("fingerprint"@.len() == 11);
    assert("commit"@.len() == 6);
    assert("branch"@.len() == 6);
    assert("dirty"@.len() == 5);
    assert("workspace_path"@.len() == 14);
    assert("SessionStarted"@.len() == 14);
    assert("UserInput"@.len() == 9);
    assert("AssistantResponse"@.len() == 17);
    assert("ToolExchange"@.len() == 12);
    assert("SystemMessage"@.len() == 13);
    assert("type"@[1] != "text"@[1]);
    assert("commit"@[0] != "branch"@[0]);
    assert("input"@[0] != "dirty"@[0]);
    assert("policy_name"@[0] != "fingerprint"@[0]);
    assert("input"@[0] != "result"@[0]);
    match e.what {
        session_events::Happening::SessionStarted { fingerprint, .. } => {
            if let Some(f) = fingerprint {
                assert(fingerprint_of_record(fingerprint_record(f)) == Ok::<
                    session_events::FingerprintView,
                    Seq<char>,
                >(f));
            }
            let doc = event_record(e);
            assert(optional_fingerprint(doc.get("fingerprint"@)) == Ok::<
                Option<session_events::FingerprintView>,
                Seq<char>,
            >(fingerprint));
            assert(doc.get_str("policy_name"@) == Some(e.what->policy_name));
            assert(doc.get_str("system_prompt"@) == Some(e.what->system_prompt));
            assert(doc.get_str("workspace"@) == Some(e.what->workspace));
            assert(doc.get_str("type"@) == Some("SessionStarted"@));
        },
        _ => {},
    }
}

// ---------------------------------------------------------------------------
// Lines
// ---------------------------------------------------------------------------

/// Where in a line something is wrong: behind so many bytes.
pub open spec fn at(t: Seq<char>, i: int) -> Seq<char> {
    " at line 1 column "@ + text::decimal(text::byte_len(t.take(i)))
}

/// Where the first member of the given name stands, from place `i` on, or the
/// number of members.
pub open spec fn first_named(all: Seq<members::MemberView>, name: Seq<char>, i: int) -> int
    decreases all.len() - i,
{
    if i < 0 || i >= all.len() {
        all.len() as int
    } else if all[i].name == name {
        i
    } else {
        first_named(all, name, i + 1)
    }
}

/// The value of the member number `i` on a line that holds `doc`: what `doc` has
/// under its name, or, where the name is there twice, what its own text holds.
pub open spec fn value_at(
    t: Seq<char>,
    doc: json::JsonView,
    all: Seq<members::MemberView>,
    i: int,
) -> json::JsonView {
    let name = all[i].name;
    let first = first_named(all, name, 0);
    if first_named(all, name, first + 1) >= all.len() {
        match doc.get(name) {
            Some(v) => v,
            None => json::JsonView::Null,
        }
    } else {
        match json::json_parsed(all[i].text(t)) {
            Ok(v) => v,
            Err(_) => json::JsonView::Null,
        }
    }
}

/// What is wrong with a result, if anything.
pub open spec fn fault<T>(r: Result<T, Seq<char>>) -> Option<Seq<char>> {
    match r {
        Ok(_) => None,
        Err(e) => Some(e),
    }
}

/// Whether a fingerprint has the member `name`.
pub open spec fn is_fingerprint_member(name: Seq<char>) -> bool {
    name == "commit"@ || name == "branch"@ || name == "dirty"@ || name == "workspace_path"@
}

/// What is wrong with the member `name` of a fingerprint, if it has one.
pub open spec fn fingerprint_member_fault(name: Seq<char>, v: json::JsonView) -> Option<Seq<char>> {
    if name == "commit"@ || name == "branch"@ {
        fault(optional_text_value(v))
    } else if name == "dirty"@ {
        fault(bool_value(v))
    } else if name == "workspace_path"@ {
        fault(text_value(v))
    } else {
        None
    }
}

/// What is wrong with the members of a fingerprint from number `i` on, in the
/// order of the text: one is there twice, or is not what it should be.
pub open spec fn fingerprint_members_fault(
    t: Seq<char>,
    doc: json::JsonView,
    all: Seq<members::MemberView>,
    i: int,
) -> Option<Seq<char>>
    decreases all.len() - i,
{
    if i < 0 || i >= all.len() {
        None
    } else {
        let name = all[i].name;
        if is_fingerprint_member(name) && first_named(all, name, 0) < i {
            Some(duplicate(name))
        } else {
            match fingerprint_member_fault(name, value_at(t, doc, all, i)) {
                Some(e) => Some(e),
                None => fingerprint_members_fault(t, doc, all, i + 1),
            }
        }
    }
}

/// What is wrong with the fingerprint `v`, whose text is `t`.
pub open spec fn fingerprint_fault(t: Seq<char>, v: json::JsonView) -> Option<Seq<char>> {
    let doubled = if v is Object {
        fingerprint_members_fault(t, v, members::members_of(t), 0)
    } else {
        None
    };
    match doubled {
        Some(e) => Some(e),
        None => fault(optional_fingerprint(Some(v))),
    }
}

/// What is wrong with the member `name` of an event. The text of the value is
/// `t`.
pub open spec fn member_fault(name: Seq<char>, t: Seq<char>, v: json::JsonView) -> Option<
    Seq<char>,
> {
    if name == "timestamp_ms"@ {
        fault(time_value(v))
    } else if name == "turn_index"@ {
        fault(count_value(v))
    } else if name == "fingerprint"@ {
        fingerprint_fault(t, v)
    } else if name == "input"@ || name == "result"@ {
        None
    } else {
        fault(text_value(v))
    }
}

/// Whether a type of event has the member `name`, besides its type.
pub open spec fn has_member(kind: Seq<char>, name: Seq<char>) -> bool {
    name == "timestamp_ms"@ || name == "turn_index"@ || if kind == "SessionStarted"@ {
        name == "workspace"@ || name == "system_prompt"@ || name == "policy_name"@ || name
            == "fingerprint"@
    } else if kind == "ToolExchange"@ {
        name == "tool_name"@ || name == "input"@ || name == "result"@
    } else {
        name == "text"@
    }
}

/// What is wrong with the members of an event from number `i` on, in the order of
/// the text: one is there twice, or is not what it should be.
pub open spec fn members_fault(
    kind: Seq<char>,
    t: Seq<char>,
    doc: json::JsonView,
    all: Seq<members::MemberView>,
    i: int,
) -> Option<Seq<char>>
    decreases all.len() - i,
{
    if i < 0 || i >= all.len() {
        None
    } else {
        let name = all[i].name;
        if !has_member(kind, name) {
            members_fault(kind, t, doc, all, i + 1)
        } else if first_named(all, name, 0) < i {
            Some(duplicate(name))
        } else {
            match member_fault(name, all[i].text(t), value_at(t, doc, all, i)) {
                Some(e) => Some(e),
                None => members_fault(kind, t, doc, all, i + 1),
            }
        }
    }
}

/// The place that is told where a type of event is wrong, which stands from
/// `start` to `end`: the start of an array or an object, the end of anything else.
pub open spec fn kind_place(v: json::JsonView, start: int, end: int) -> int {
    if v is Array || v is Object {
        start
    } else {
        end
    }
}

/// What is wrong with a line that holds an object, if anything is but that a
/// member is missing: the type first, and then the members in the order of the
/// text.
pub open spec fn object_fault(t: Seq<char>, doc: json::JsonView) -> Option<Seq<char>> {
    let all = members::members_of(t);
    let first = first_named(all, "type"@, 0);
    let second = first_named(all, "type"@, first + 1);
    if first >= all.len() {
        if doc.get("type"@) is None {
            Some(missing("type"@) + at(t, members::content_end(t, t.len() as int)))
        } else {
            None
        }
    } else {
        let v = value_at(t, doc, all, first);
        match kind_value(v) {
            Err(e) => Some(e + at(t, kind_place(v, all[first].start, all[first].end))),
            Ok(kind) => if second < all.len() {
                Some(duplicate("type"@) + at(t, all[second].colon))
            } else {
                members_fault(kind, t, doc, all, 0)
            },
        }
    }
}

/// What is wrong with a line that holds an array, if anything is but the number
/// and the types of its items: the type of event, or the fingerprint.
pub open spec fn array_fault(t: Seq<char>, items: Seq<json::JsonView>) -> Option<Seq<char>> {
    if items.len() == 0 {
        Some(missing("type"@) + at(t, members::content_end(t, t.len() as int)))
    } else {
        let start = members::item_of(t, 0);
        match kind_value(items[0]) {
            Err(e) => Some(e + at(t, kind_place(items[0], start, members::value_end(t, start)))),
            Ok(kind) => match event_by_place(kind, items) {
                Err(e) => Some(e),
                Ok(_) => if kind == "SessionStarted"@ && items.len() > 6 {
                    let place = members::item_of(t, 6);
                    fingerprint_fault(
                        t.subrange(place, members::value_end(t, place)),
                        items[6],
                    )
                } else {
                    None
                },
            },
        }
    }
}

/// What is wrong with a line that holds `doc`, if anything is but that a member is
/// missing.
pub open spec fn line_fault(t: Seq<char>, doc: json::JsonView) -> Option<Seq<char>> {
    match doc {
        json::JsonView::Object(_) => object_fault(t, doc),
        json::JsonView::Array(items) => array_fault(t, items),
        _ => Some(
            invalid_type(doc, "internally tagged enum SessionEvent"@) + at(
                t,
                members::content_end(t, t.len() as int),
            ),
        ),
    }
}

/// The event on a line, or what is wrong with the line.
pub open spec fn event_on(line: Seq<char>) -> Result<session_events::EventView, Seq<char>> {
    match json::json_parsed(line) {
        Err(e) => Err(e),
        Ok(doc) => match line_fault(line, doc) {
            Some(e) => Err(e),
            None => event_of_record(doc),
        },
    }
}

fn at_of(v: &Vec<char>, i: usize) -> (r: String)
    requires
        i <= v@.len(),
    ensures
        r@ == at(v@, i as int),
{
    let before = string_of(v, 0, i);
    assert(before@ =~= v@.take(i as int));
    let mut r = " at line 1 column ".to_owned();
    r.push_str(decimal_of(byte_len_of(before.as_str()) as u64).as_str());
    r
}

fn placed_error(e: String, v: &Vec<char>, i: usize) -> (r: String)
    requires
        i <= v@.len(),
    ensures
        r@ == e@ + at(v@, i as int),
{
    let mut r = e;
    r.push_str(at_of(v, i).as_str());
    r
}

fn first_named_in(all: &Vec<Member>, name: &str, from: usize) -> (r: usize)
    requires
        from <= all@.len(),
    ensures
        r == first_named(all.deep_view(), name@, from as int),
        from <= r <= all@.len(),
{
    let ghost view = all.deep_view();
    let mut i: usize = from;
    while i < all.len()
        invariant
            view == all.deep_view(),
            from <= i <= all@.len() == view.len(),
            first_named(view, name@, from as int) == first_named(view, name@, i as int),
        decreases all@.len() - i,
    {
        if same(all[i].name.as_str(), name) {
            return i;
        }
        i += 1;
    }
    i
}

fn next_named_in(all: &Vec<Member>, name: &str, first: usize) -> (r: usize)
    requires
        first <= all@.len(),
    ensures
        r == first_named(all.deep_view(), name@, first + 1),
        r <= all@.len(),
{
    if first < all.len() {
        first_named_in(all, name, first + 1)
    } else {
        all.len()
    }
}

fn value_at_of(v: &Vec<char>, doc: &Json, all: &Vec<Member>, i: usize) -> (r: Json)
    requires
        i < all@.len(),
        all@[i as int].start <= all@[i as int].end <= v@.len(),
    ensures
        r.deep_view() == value_at(v@, doc.deep_view(), all.deep_view(), i as int),
{
    let name: &str = all[i].name.as_str();
    let first = first_named_in(all, name, 0);
    if next_named_in(all, name, first) >= all.len() {
        match doc.get(name) {
            Some(v) => v.clone(),
            None => Json::Null,
        }
    } else {
        let own = string_of(v, all[i].start, all[i].end);
        match Json::parse(own.as_str()) {
            Ok(v) => v,
            Err(_) => Json::Null,
        }
    }
}

fn fault_of<T: DeepView>(r: Result<T, String>) -> (f: Option<String>)
    ensures
        f.deep_view() == fault(told(r)),
{
    match r {
        Ok(_) => None,
        Err(e) => Some(e),
    }
}

fn fingerprint_member_fault_of(name: &str, v: &Json) -> (r: Option<String>)
    ensures
        r.deep_view() == fingerprint_member_fault(name@, v.deep_view()),
{
    if same(name, "commit") || same(name, "branch") {
        fault_of(optional_text_from(v))
    } else if same(name, "dirty") {
        match bool_from(v) {
            Ok(_) => None,
            Err(e) => Some(e),
        }
    } else if same(name, "workspace_path") {
        fault_of(text_from(v))
    } else {
        None
    }
}

fn fingerprint_members_fault_of(v: &Vec<char>, doc: &Json) -> (r: Option<String>)
    ensures
        r.deep_view() == fingerprint_members_fault(
            v@,
            doc.deep_view(),
            members::members_of(v@),
            0,
        ),
{
    let all = find_members(v);
    let ghost view = all.deep_view();
    let mut i: usize = 0;
    while i < all.len()
        invariant
            view == all.deep_view(),
            view == members::members_of(v@),
            i <= all@.len() == view.len(),
            forall|k: int|
                0 <= k < all@.len() ==> (#[trigger] all@[k]).start <= all@[k].end <= v@.len(),
            fingerprint_members_fault(v@, doc.deep_view(), view, 0) == fingerprint_members_fault(
                v@,
                doc.deep_view(),
                view,
                i as int,
            ),
        decreases all@.len() - i,
    {
        let name: &str = all[i].name.as_str();
        assert(view[i as int].name == name@);
        let known = same(name, "commit") || same(name, "branch") || same(name, "dirty") || same(
            name,
            "workspace_path",
        );
        if known && first_named_in(&all, name, 0) < i {
            return Some(field_error("duplicate field `", name));
        }
        let value = value_at_of(v, doc, &all, i);
        match fingerprint_member_fault_of(name, &value) {
            Some(e) => {
                return Some(e);
            },
            None => {},
        }
        i += 1;
    }
    None
}

fn fingerprint_fault_of(t: &str, v: &Json) -> (r: Option<String>)
    ensures
        r.deep_view() == fingerprint_fault(t@, v.deep_view()),
{
    match v {
        Json::Object(_) => match fingerprint_members_fault_of(&chars_of(t), v) {
            Some(e) => {
                return Some(e);
            },
            None => {},
        },
        _ => {},
    }
    fault_of(optional_fingerprint_from(Some(v)))
}

fn member_fault_of(name: &str, t: &str, v: &Json) -> (r: Option<String>)
    ensures
        r.deep_view() == member_fault(name@, t@, v.deep_view()),
{
    if same(name, "timestamp_ms") {
        match time_from(v) {
            Ok(_) => None,
            Err(e) => Some(e),
        }
    } else if same(name, "turn_index") {
        match count_from(v) {
            Ok(_) => None,
            Err(e) => Some(e),
        }
    } else if same(name, "fingerprint") {
        fingerprint_fault_of(t, v)
    } else if same(name, "input") || same(name, "result") {
        None
    } else {
        fault_of(text_from(v))
    }
}

fn has_member_of(kind: &str, name: &str) -> (r: bool)
    ensures
        r == has_member(kind@, name@),
{
    same(name, "timestamp_ms") || same(name, "turn_index") || if same(kind, "SessionStarted") {
        same(name, "workspace") || same(name, "system_prompt") || same(name, "policy_name")
            || same(name, "fingerprint")
    } else if same(kind, "ToolExchange") {
        same(name, "tool_name") || same(name, "input") || same(name, "result")
    } else {
        same(name, "text")
    }
}

fn members_fault_of(kind: &str, v: &Vec<char>, doc: &Json, all: &Vec<Member>) -> (r: Option<String>)
    requires
        forall|k: int|
            0 <= k < all@.len() ==> (#[trigger] all@[k]).start <= all@[k].end <= v@.len(),
    ensures
        r.deep_view() == members_fault(kind@, v@, doc.deep_view(), all.deep_view(), 0),
{
    let ghost view = all.deep_view();
    let mut i: usize = 0;
    while i < all.len()
        invariant
            view == all.deep_view(),
            i <= all@.len() == view.len(),
            forall|k: int|
                0 <= k < all@.len() ==> (#[trigger] all@[k]).start <= all@[k].end <= v@.len(),
            members_fault(kind@, v@, doc.deep_view(), view, 0) == members_fault(
                kind@,
                v@,
                doc.deep_view(),
                view,
                i as int,
            ),
        decreases all@.len() - i,
    {
        let name: &str = all[i].name.as_str();
        assert(view[i as int].name == name@);
        if has_member_of(kind, name) {
            if first_named_in(all, name, 0) < i {
                return Some(field_error("duplicate field `", name));
            }
            let value = value_at_of(v, doc, all, i);
            let own = string_of(v, all[i].start, all[i].end);
            assert(own@ == view[i as int].text(v@));
            match member_fault_of(name, own.as_str(), &value) {
                Some(e) => {
                    return Some(e);
                },
                None => {},
            }
        }
        i += 1;
    }
    None
}

fn kind_place_of(v: &Json, start: usize, end: usize) -> (r: usize)
    ensures
        r == kind_place(v.deep_view(), start as int, end as int),
{
    match v {
        Json::Array(_) => start,
        Json::Object(_) => start,
        _ => end,
    }
}

fn object_fault_of(v: &Vec<char>, doc: &Json) -> (r: Option<String>)
    ensures
        r.deep_view() == object_fault(v@, doc.deep_view()),
{
    let all = find_members(v);
    let first = first_named_in(&all, "type", 0);
    if first >= all.len() {
        return match doc.get("type") {
            None => Some(
                placed_error(field_error("missing field `", "type"), v, find_content_end(v)),
            ),
            Some(_) => None,
        };
    }
    let value = value_at_of(v, doc, &all, first);
    match kind_from(&value) {
        Err(e) => Some(
            placed_error(e, v, kind_place_of(&value, all[first].start, all[first].end)),
        ),
        Ok(kind) => {
            let second = next_named_in(&all, "type", first);
            if second < all.len() {
                Some(
                    placed_error(field_error("duplicate field `", "type"), v, all[second].colon),
                )
            } else {
                members_fault_of(kind.as_str(), v, doc, &all)
            }
        },
    }
}

fn array_fault_of(v: &Vec<char>, items: &Vec<Json>) -> (r: Option<String>)
    ensures
        r.deep_view() == array_fault(v@, items.deep_view()),
{
    if items.len() == 0 {
        return Some(placed_error(field_error("missing field `", "type"), v, find_content_end(v)));
    }
    let (start, end) = find_item(v, 0);
    match kind_from(&items[0]) {
        Err(e) => Some(placed_error(e, v, kind_place_of(&items[0], start, end))),
        Ok(kind) => match event_by_place_of(kind.as_str(), items) {
            Err(e) => Some(e),
            Ok(_) => if same(kind.as_str(), "SessionStarted") && items.len() > 6 {
                let (start, end) = find_item(v, 6);
                let own = string_of(v, start, end);
                fingerprint_fault_of(own.as_str(), &items[6])
            } else {
                None
            },
        },
    }
}

fn line_fault_of(line: &str, doc: &Json) -> (r: Option<String>)
    ensures
        r.deep_view() == line_fault(line@, doc.deep_view()),
{
    let v = chars_of(line);
    if let Some(items) = doc.as_array() {
        assert(doc.deep_view() == json::JsonView::Array(items.deep_view()));
        return array_fault_of(&v, items);
    }
    match doc {
        Json::Object(_) => object_fault_of(&v, doc),
        _ => Some(
            placed_error(
                invalid_of("invalid type: ", doc, "internally tagged enum SessionEvent"),
                &v,
                find_content_end(&v),
            ),
        ),
    }
}

/// The event on a line, or what is wrong with the line. Of a line that is no JSON
/// this is said first, wherever in the line it shows.
pub fn read_event(line: &str) -> (r: Result<SessionEvent, String>)
    ensures
        told(r) == event_on(line@),
{
    match Json::parse(line) {
        Err(e) => Err(e),
        Ok(doc) => match line_fault_of(line, &doc) {
            Some(e) => Err(e),
            None => SessionEvent::from_json(&doc),
        },
    }
}

// ---------------------------------------------------------------------------
// Logs
// ---------------------------------------------------------------------------

/// Whether `line` is one line of a log and holds the event `e`.
pub open spec fn is_line_of(line: Seq<char>, e: session_events::EventView) -> bool {
    &&& line.len() > 0
    &&& line[0] == '{'
    &&& forall|i: int| 0 <= i < line.len() ==> #[trigger] line[i] >= ' '
    &&& json::reads_as(line, event_record(e))
    &&& members::names_once(line, json::read_depth())
}

/// Whether what an event carries can be read back from text: the documents of a
/// tool call hold no number but integers of 64 bits, and are not nested too
/// deep; any other event can.
pub open spec fn is_readable(e: session_events::EventView) -> bool {
    match e.what {
        session_events::Happening::ToolExchange { input, result, .. } => json::plain(
            input,
            (json::read_depth() - 1) as nat,
        ) && json::plain(result, (json::read_depth() - 1) as nat),
        _ => true,
    }
}

proof fn lemma_with_plain(doc: json::JsonView, key: Seq<char>, v: json::JsonView, depth: nat)
    requires
        doc is Object,
        json::plain(doc, depth + 1),
        json::plain(v, depth),
    ensures
        doc.with(key, v) is Object,
        json::plain(doc.with(key, v), depth + 1),
{
}

proof fn lemma_readable(e: session_events::EventView)
    requires
        is_readable(e),
    ensures
        json::plain(event_record(e), json::read_depth()),
{
    let depth = (json::read_depth() - 1) as nat;
    let kind = match e.what {
        session_events::Happening::SessionStarted { .. } => "SessionStarted"@,
        session_events::Happening::UserInput { .. } => "UserInput"@,
        session_events::Happening::AssistantResponse { .. } => "AssistantResponse"@,
        session_events::Happening::ToolExchange { .. } => "ToolExchange"@,
        session_events::Happening::SystemMessage { .. } => "SystemMessage"@,
    };
    let empty = json::json_object();
    let a = empty.with("type"@, json::JsonView::Str(kind));
    let b = a.with("timestamp_ms"@, number(e.timestamp_ms));
    let head = record_head(kind, e);
    lemma_with_plain(empty, "type"@, json::JsonView::Str(kind), depth);
    lemma_with_plain(a, "timestamp_ms"@, number(e.timestamp_ms), depth);
    lemma_with_plain(b, "turn_index"@, number(e.turn_index as u64), depth);
    match e.what {
        session_events::Happening::SessionStarted {
            workspace,
            system_prompt,
            policy_name,
            fingerprint,
        } => {
            let last = match fingerprint {
                Some(f) => {
                    let d = (depth - 1) as nat;
                    let c = empty.with("commit"@, optional_text(f.commit));
                    let br = c.with("branch"@, optional_text(f.branch));
                    let di = br.with("dirty"@, json::JsonView::Bool(f.dirty));
                    lemma_with_plain(empty, "commit"@, optional_text(f.commit), d);
                    lemma_with_plain(c, "branch"@, optional_text(f.branch), d);
                    lemma_with_plain(br, "dirty"@, json::JsonView::Bool(f.dirty), d);
                    lemma_with_plain(
                        di,
                        "workspace_path"@,
                        json::JsonView::Str(f.workspace_path),
                        d,
                    );
                    fingerprint_record(f)
                },
                None => json::JsonView::Null,
            };
            let w = head.with("workspace"@, json::JsonView::Str(workspace));
            let p = w.with("system_prompt"@, json::JsonView::Str(system_prompt));
            let n = p.with("policy_name"@, json::JsonView::Str(policy_name));
            lemma_with_plain(head, "workspace"@, json::JsonView::Str(workspace), depth);
            lemma_with_plain(w, "system_prompt"@, json::JsonView::Str(system_prompt), depth);
            lemma_with_plain(p, "policy_name"@, json::JsonView::Str(policy_name), depth);
            lemma_with_plain(n, "fingerprint"@, last, depth);
        },
        session_events::Happening::ToolExchange { tool_name, input, result } => {
            let t = head.with("tool_name"@, json::JsonView::Str(tool_name));
            let i = t.with("input"@, input);
            lemma_with_plain(head, "tool_name"@, json::JsonView::Str(tool_name), depth);
            lemma_with_plain(t, "input"@, input, depth);
            lemma_with_plain(i, "result"@, result, depth);
        },
        session_events::Happening::UserInput { text } => {
            lemma_with_plain(head, "text"@, json::JsonView::Str(text), depth);
        },
        session_events::Happening::AssistantResponse { text } => {
            lemma_with_plain(head, "text"@, json::JsonView::Str(text), depth);
        },
        session_events::Happening::SystemMessage { text } => {
            lemma_with_plain(head, "text"@, json::JsonView::Str(text), depth);
        },
    }
}

impl SessionEvent {
    /// The line of the event in a log.
    pub fn to_line(&self) -> (r: String)
        ensures
            r@ == json::json_text(event_record(self.deep_view())),
            is_readable(self.deep_view()) ==> is_line_of(r@, self.deep_view()),
    {
        proof {
            if is_readable(self.deep_view()) {
                lemma_readable(self.deep_view());
            }
        }
        self.to_json().to_text()
    }

    /// What is appended to a log for the event: its line, with the end of it.
    pub fn to_entry(&self) -> (r: String)
        ensures
            r@ == json::json_text(event_record(self.deep_view())).push('\n'),
            is_readable(self.deep_view()) ==> is_line_of(r@.drop_last(), self.deep_view()),
    {
        let mut r = self.to_line();
        let ghost line = r@;
        r.push('\n');
        assert(r@.drop_last() =~= line);
        r
    }
}

/// The events on the lines from position `i` on, behind those in `done`; or
/// the first line that holds none, with its number and what is wrong with it.
/// Blank lines are skipped.
pub open spec fn read_from(
    lines: Seq<Seq<char>>,
    i: int,
    done: Seq<session_events::EventView>,
) -> Result<Seq<session_events::EventView>, Seq<char>>
    decreases lines.len() - i,
{
    if i < 0 || i >= lines.len() {
        Ok(done)
    } else if text::trim(lines[i]).len() == 0 {
        read_from(lines, i + 1, done)
    } else {
        match event_on(lines[i]) {
            Err(e) => Err("line "@ + text::decimal((i + 1) as nat) + ": "@ + e),
            Ok(event) => read_from(lines, i + 1, done.push(event)),
        }
    }
}

/// The events that a log holds.
pub open spec fn read_log(log: Seq<char>) -> Result<Seq<session_events::EventView>, Seq<char>> {
    read_from(text::lines(log), 0, Seq::empty())
}

fn line_error(number: u64, message: &str) -> (r: String)
    ensures
        r@ == "line "@ + text::decimal(number as nat) + ": "@ + message@,
{
    let mut r = "line ".to_owned();
    r.push_str(decimal_of(number).as_str());
    r.push_str(": ");
    r.push_str(message);
    r
}

/// The events that a log holds, or the first line that holds none.
pub fn read_events(log: &str) -> (r: Result<Vec<SessionEvent>, String>)
    ensures
        match r {
            Ok(events) => read_log(log@) == Ok::<Seq<session_events::EventView>, Seq<char>>(
                events.deep_view(),
            ),
            Err(e) => read_log(log@) == Err::<Seq<session_events::EventView>, Seq<char>>(e@),
        },
{
    let lines = lines_of(log);
    let ghost all = lines.deep_view();
    let mut events: Vec<SessionEvent> = Vec::new();
    assert(events.deep_view() =~= Seq::empty());
    let mut i: usize = 0;
    while i < lines.len()
        invariant
            all == lines.deep_view(),
            all == text::lines(log@),
            i <= all.len(),
            read_log(log@) == read_from(all, i as int, events.deep_view()),
        decreases all.len() - i,
    {
        let line: &str = lines[i].as_str();
        let number: u64 = i as u64 + 1;
        if !is_blank(line) {
            match read_event(line) {
                Err(e) => {
                    return Err(line_error(number, e.as_str()));
                },
                Ok(event) => {
                    let ghost before = events.deep_view();
                    let ghost added = event.deep_view();
                    events.push(event);
                    assert(events.deep_view() =~= before.push(added));
                },
            }
        }
        i += 1;
    }
    Ok(events)
}

/// The log whose lines are `lines`.
pub open spec fn log_text(lines: Seq<Seq<char>>) -> Seq<char>
    decreases lines.len(),
{
    if lines.len() == 0 {
        Seq::empty()
    } else {
        lines[0] + seq!['\n'] + log_text(lines.drop_first())
    }
}

/// A log of the lines of some events reads back as those events, in order.
pub proof fn law_logs_read_back(events: Seq<session_events::EventView>, lines: Seq<Seq<char>>)
    requires
        events.len() == lines.len(),
        forall|i: int| 0 <= i < lines.len() ==> is_line_of(#[trigger] lines[i], events[i]),
    ensures
        read_log(log_text(lines)) == Ok::<Seq<session_events::EventView>, Seq<char>>(events),
{
    lemma_log_lines(Seq::empty(), lines);
    assert(Seq::empty() + log_text(lines) =~= log_text(lines));
    lemma_read_from(events, lines, 0);
    assert(events.take(0) =~= Seq::empty());
}

/// The log that some writers leave behind who append to it, each after the one
/// before: what the first finds, and then the lines of each.
pub open spec fn appended(found: Seq<char>, writers: Seq<Seq<Seq<char>>>) -> Seq<char>
    decreases writers.len(),
{
    if writers.len() == 0 {
        found
    } else {
        appended(found, writers.drop_last()) + log_text(writers.last())
    }
}

/// What some writers recorded, in order.
pub open spec fn all_recorded<T>(writers: Seq<Seq<T>>) -> Seq<T>
    decreases writers.len(),
{
    if writers.len() == 0 {
        Seq::empty()
    } else {
        all_recorded(writers.drop_last()) + writers.last()
    }
}

/// A log that several writers appended to, one after the other, reads back as
/// all that they recorded, in order: opening it again loses, reorders and
/// overwrites nothing.
pub proof fn law_reopened_logs_read_back(
    events: Seq<Seq<session_events::EventView>>,
    lines: Seq<Seq<Seq<char>>>,
)
    requires
        events.len() == lines.len(),
        forall|w: int| 0 <= w < lines.len() ==> (#[trigger] lines[w]).len() == events[w].len(),
        forall|w: int, i: int|
            0 <= w < lines.len() && 0 <= i < lines[w].len() ==> is_line_of(
                #[trigger] lines[w][i],
                events[w][i],
            ),
    ensures
        read_log(appended(Seq::empty(), lines)) == Ok::<
            Seq<session_events::EventView>,
            Seq<char>,
        >(all_recorded(events)),
{
    lemma_all_lines(events, lines);
    lemma_appended(lines);
    law_logs_read_back(all_recorded(events), all_recorded(lines));
}

proof fn lemma_all_lines(
    events: Seq<Seq<session_events::EventView>>,
    lines: Seq<Seq<Seq<char>>>,
)
    requires
        events.len() == lines.len(),
        forall|w: int| 0 <= w < lines.len() ==> (#[trigger] lines[w]).len() == events[w].len(),
        forall|w: int, i: int|
            0 <= w < lines.len() && 0 <= i < lines[w].len() ==> is_line_of(
                #[trigger] lines[w][i],
                events[w][i],
            ),
    ensures
        all_recorded(lines).len() == all_recorded(events).len(),
        forall|i: int|
            0 <= i < all_recorded(lines).len() ==> is_line_of(
                #[trigger] all_recorded(lines)[i],
                all_recorded(events)[i],
            ),
    decreases lines.len(),
{
    if lines.len() > 0 {
        let n = lines.len() - 1;
        let before = all_recorded(lines.drop_last());
        assert forall|w: int| 0 <= w < n implies (#[trigger] lines.drop_last()[w]).len()
            == events.drop_last()[w].len() by {
            assert(lines.drop_last()[w] == lines[w]);
        }
        assert forall|w: int, i: int|
            0 <= w < n && 0 <= i < lines.drop_last()[w].len() implies is_line_of(
            #[trigger] lines.drop_last()[w][i],
            events.drop_last()[w][i],
        ) by {
            assert(is_line_of(lines[w][i], events[w][i]));
        }
        lemma_all_lines(events.drop_last(), lines.drop_last());
        assert(lines.last() == lines[n]);
        assert(lines[n].len() == events[n].len());
        assert forall|i: int| 0 <= i < all_recorded(lines).len() implies is_line_of(
            #[trigger] all_recorded(lines)[i],
            all_recorded(events)[i],
        ) by {
            if i >= before.len() {
                assert(is_line_of(lines[n][i - before.len()], events[n][i - before.len()]));
            }
        }
    }
}

proof fn lemma_appended(lines: Seq<Seq<Seq<char>>>)
    ensures
        appended(Seq::empty(), lines) == log_text(all_recorded(lines)),
    decreases lines.len(),
{
    if lines.len() > 0 {
        lemma_appended(lines.drop_last());
        lemma_log_text_split(all_recorded(lines.drop_last()), lines.last());
    }
}

proof fn lemma_log_text_split(a: Seq<Seq<char>>, b: Seq<Seq<char>>)
    ensures
        log_text(a + b) == log_text(a) + log_text(b),
    decreases a.len(),
{
    if a.len() == 0 {
        assert(a + b =~= b);
        assert(log_text(a) + log_text(b) =~= log_text(b));
    } else {
        lemma_log_text_split(a.drop_first(), b);
        assert((a + b).drop_first() =~= a.drop_first() + b);
        assert(log_text(a + b) =~= log_text(a) + log_text(b));
    }
}

#[verifier::spinoff_prover]
#[verifier::rlimit(50)]
proof fn lemma_log_lines(before: Seq<char>, lines: Seq<Seq<char>>)
    requires
        forall|i: int|
            0 <= i < lines.len() ==> (#[trigger] lines[i]).len() > 0 && forall|k: int|
                0 <= k < lines[i].len() ==> #[trigger] lines[i][k] >= ' ',
    ensures
        text::lines_from(before + log_text(lines), before.len() as int) == lines,
    decreases lines.len(),
{
    let s = before + log_text(lines);
    if lines.len() == 0 {
        assert(s =~= before);
    } else {
        let line = lines[0];
        let rest = lines.drop_first();
        let next = before + line + seq!['\n'];
        assert(s =~= next + log_text(rest));
        assert forall|i: int|
            0 <= i < rest.len() implies (#[trigger] rest[i]).len() > 0 && forall|k: int|
            0 <= k < rest[i].len() ==> #[trigger] rest[i][k] >= ' ' by {
            assert(rest[i] == lines[i + 1]);
        }
        lemma_log_lines(next, rest);
        let end = before.len() + line.len();
        assert(s[end as int] == '\n');
        assert forall|i: int| before.len() <= i < end implies s[i] != '\n' by {
            assert(s[i] == line[i - before.len()]);
        }
        text::lemma_next_char_is(s, '\n', before.len() as int, end as int);
        assert(s.subrange(before.len() as int, end as int) =~= line);
        assert(line.last() >= ' ');
        assert(seq![line] + rest =~= lines);
    }
}

/// The names of members differ from each other.
proof fn lemma_names_differ()
    ensures
        "type"@ != "timestamp_ms"@,
        "type"@ != "turn_index"@,
        "type"@ != "text"@,
        "type"@ != "tool_name"@,
        "type"@ != "input"@,
        "type"@ != "result"@,
        "type"@ != "workspace"@,
        "type"@ != "system_prompt"@,
        "type"@ != "policy_name"@,
        "type"@ != "fingerprint"@,
        "fingerprint"@ != "timestamp_ms"@,
        "fingerprint"@ != "turn_index"@,
        "fingerprint"@ != "text"@,
        "fingerprint"@ != "tool_name"@,
        "fingerprint"@ != "input"@,
        "fingerprint"@ != "result"@,
{
    reveal_strlit("type");
    reveal_strlit("text");
    reveal_strlit("timestamp_ms");
    reveal_strlit("turn_index");
    reveal_strlit("tool_name");
    reveal_strlit("input");
    reveal_strlit("result");
    reveal_strlit("workspace");
    reveal_strlit("system_prompt");
    reveal_strlit("policy_name");
    reveal_strlit("fingerprint");
    assert("type"@[1] != "text"@[1]);
    assert("type"@.len() == 4);
    assert("timestamp_ms"@.len() == 12);
    assert("turn_index"@.len() == 10);
    assert("tool_name"@.len() == 9);
    assert("input"@.len() == 5);
    assert("result"@.len() == 6);
    assert("workspace"@.len() == 9);
    assert("system_prompt"@.len() == 13);
    assert("policy_name"@.len() == 11);
    assert("fingerprint"@.len() == 11);
}

proof fn lemma_first_named(all: Seq<members::MemberView>, i: int, from: int)
    requires
        0 <= from <= i < all.len(),
        forall|a: int, b: int| 0 <= a < b < all.len() ==> all[a].name != all[b].name,
    ensures
        first_named(all, all[i].name, from) == i,
        first_named(all, all[i].name, i + 1) == all.len(),
    decreases i - from,
{
    lemma_none_named(all, all[i].name, i + 1);
    if from < i {
        assert(all[from].name != all[i].name);
        lemma_first_named(all, i, from + 1);
    }
}

proof fn lemma_none_named(all: Seq<members::MemberView>, name: Seq<char>, from: int)
    requires
        0 <= from <= all.len(),
        forall|a: int| from <= a < all.len() ==> (#[trigger] all[a]).name != name,
    ensures
        first_named(all, name, from) == all.len(),
    decreases all.len() - from,
{
    if from < all.len() {
        assert(all[from].name != name);
        lemma_none_named(all, name, from + 1);
    }
}

proof fn lemma_found(all: Seq<members::MemberView>, name: Seq<char>, from: int)
    requires
        0 <= from <= all.len(),
    ensures
        from <= first_named(all, name, from) <= all.len(),
        first_named(all, name, from) < all.len() ==> all[first_named(all, name, from)].name == name,
    decreases all.len() - from,
{
    if from < all.len() && all[from].name != name {
        lemma_found(all, name, from + 1);
    }
}

proof fn lemma_fingerprint_is_fine(t: Seq<char>, f: session_events::FingerprintView, i: int)
    requires
        members::names_once(t, 1),
        0 <= i <= members::members_of(t).len(),
    ensures
        fingerprint_members_fault(t, fingerprint_record(f), members::members_of(t), i) is None,
    decreases members::members_of(t).len() - i,
{
    let all = members::members_of(t);
    let doc = fingerprint_record(f);
    if i < all.len() {
        lemma_first_named(all, i, 0);
        lemma_fingerprint_is_fine(t, f, i + 1);
        reveal_strlit("commit");
        reveal_strlit("branch");
        reveal_strlit("dirty");
        reveal_strlit("workspace_path");
        assert("commit"@[0] != "branch"@[0]);
        assert("commit"@.len() == 6);
        assert("branch"@.len() == 6);
        assert("dirty"@.len() == 5);
        assert("workspace_path"@.len() == 14);
        assert(doc.get("commit"@) == Some(optional_text(f.commit)));
        assert(doc.get("branch"@) == Some(optional_text(f.branch)));
        assert(doc.get("dirty"@) == Some(json::JsonView::Bool(f.dirty)));
        assert(doc.get("workspace_path"@) == Some(json::JsonView::Str(f.workspace_path)));
    }
}

/// Nothing is wrong with the members of the line of an event.
proof fn lemma_members_are_fine(
    kind: Seq<char>,
    t: Seq<char>,
    e: session_events::EventView,
    all: Seq<members::MemberView>,
    i: int,
)
    requires
        members::names_once(t, json::read_depth()),
        all == members::members_of(t),
        0 <= i <= all.len(),
        event_record(e).get("type"@) == Some(json::JsonView::Str(kind)),
        event_of_record(event_record(e)) == Ok::<session_events::EventView, Seq<char>>(e),
    ensures
        members_fault(kind, t, event_record(e), all, i) is None,
    decreases all.len() - i,
{
    let doc = event_record(e);
    if i < all.len() {
        lemma_members_are_fine(kind, t, e, all, i + 1);
        let name = all[i].name;
        if has_member(kind, name) {
            lemma_first_named(all, i, 0);
            assert(value_at(t, doc, all, i) == (match doc.get(name) {
                Some(v) => v,
                None => json::JsonView::Null,
            }));
            if name == "fingerprint"@ {
                lemma_names_differ();
                let own = all[i].text(t);
                assert(members::names_once(own, (json::read_depth() - 1) as nat));
                lemma_names_less(own, (json::read_depth() - 1) as nat);
                assert(e.what is SessionStarted);
                let held = e.what->fingerprint;
                assert(doc.get("fingerprint"@) == Some(
                    match held {
                        Some(f) => fingerprint_record(f),
                        None => json::JsonView::Null,
                    },
                ));
                if let Some(f) = held {
                    lemma_fingerprint_is_fine(own, f, 0);
                }
            }
            assert(member_fault(name, all[i].text(t), value_at(t, doc, all, i)) is None);
        }
    }
}

proof fn lemma_names_less(t: Seq<char>, depth: nat)
    requires
        depth >= 1,
        members::names_once(t, depth),
    ensures
        members::names_once(t, 1),
{
    assert forall|i: int| 0 <= i < members::members_of(t).len() implies members::names_once(
        #[trigger] members::members_of(t)[i].text(t),
        0,
    ) by {}
}

/// The line of an event reads back as the event.
pub proof fn law_lines_read_back(line: Seq<char>, e: session_events::EventView)
    requires
        is_line_of(line, e),
    ensures
        event_on(line) == Ok::<session_events::EventView, Seq<char>>(e),
{
    law_records_read_back(e);
    lemma_names_differ();
    let doc = event_record(e);
    let all = members::members_of(line);
    let kind = match e.what {
        session_events::Happening::SessionStarted { .. } => "SessionStarted"@,
        session_events::Happening::UserInput { .. } => "UserInput"@,
        session_events::Happening::AssistantResponse { .. } => "AssistantResponse"@,
        session_events::Happening::ToolExchange { .. } => "ToolExchange"@,
        session_events::Happening::SystemMessage { .. } => "SystemMessage"@,
    };
    assert(doc.get("type"@) == Some(json::JsonView::Str(kind)));
    let first = first_named(all, "type"@, 0);
    lemma_found(all, "type"@, 0);
    if first < all.len() {
        lemma_first_named(all, first, 0);
        lemma_members_are_fine(kind, line, e, all, 0);
    }
}

proof fn lemma_read_from(
    events: Seq<session_events::EventView>,
    lines: Seq<Seq<char>>,
    i: int,
)
    requires
        events.len() == lines.len(),
        0 <= i <= lines.len(),
        forall|k: int| 0 <= k < lines.len() ==> is_line_of(#[trigger] lines[k], events[k]),
    ensures
        read_from(lines, i, events.take(i)) == Ok::<Seq<session_events::EventView>, Seq<char>>(
            events,
        ),
    decreases lines.len() - i,
{
    if i == lines.len() {
        assert(events.take(i) =~= events);
    } else {
        assert(is_line_of(lines[i], events[i]));
        text::lemma_not_blank(lines[i]);
        law_lines_read_back(lines[i], events[i]);
        lemma_read_from(events, lines, i + 1);
        assert(events.take(i).push(events[i]) =~= events.take(i + 1));
    }
}

/// The record of an event says its type, time and turn, and holds all that
/// happened, each under its name.
pub proof fn law_records_tell_the_event(e: session_events::EventView)
    ensures
        ({
            let doc = event_record(e);
            &&& doc.get_u64("timestamp_ms"@) == Some(e.timestamp_ms)
            &&& doc.get_u64("turn_index"@) == Some(e.turn_index as u64)
            &&& match e.what {
                session_events::Happening::SessionStarted {
                    workspace,
                    system_prompt,
                    policy_name,
                    fingerprint,
                } => doc.get_str("type"@) == Some("SessionStarted"@) && doc.get_str("workspace"@)
                    == Some(workspace) && doc.get_str("system_prompt"@) == Some(system_prompt)
                    && doc.get_str("policy_name"@) == Some(policy_name) && (match fingerprint {
                    None => doc.get("fingerprint"@) == Some(json::JsonView::Null),
                    Some(f) => doc.get("fingerprint"@) matches Some(d) && d.get_str("commit"@)
                        == f.commit && d.get_str("branch"@) == f.branch && d.get("dirty"@) == Some(
                        json::JsonView::Bool(f.dirty),
                    ) && d.get_str("workspace_path"@) == Some(f.workspace_path),
                }),
                session_events::Happening::UserInput { text } => doc.get_str("type"@) == Some(
                    "UserInput"@,
                ) && doc.get_str("text"@) == Some(text),
                session_events::Happening::AssistantResponse { text } => doc.get_str("type"@)
                    == Some("AssistantResponse"@) && doc.get_str("text"@) == Some(text),
                session_events::Happening::SystemMessage { text } => doc.get_str("type"@) == Some(
                    "SystemMessage"@,
                ) && doc.get_str("text"@) == Some(text),
                session_events::Happening::ToolExchange { tool_name, input, result } =>
                doc.get_str("type"@) == Some("ToolExchange"@) && doc.get_str("tool_name"@) == Some(
                    tool_name,
                ) && doc.get("input"@) == Some(input) && doc.get("result"@) == Some(result),
            }
        }),
{
    lemma_record_words_differ();
}

/// By these the words differ.
proof fn lemma_record_words_differ()
    ensures
        "type"@.len() == 4 && "type"@[1] == 'y',
        "timestamp_ms"@.len() == 12,
        "turn_index"@.len() == 10,
        "workspace"@.len() == 9 && "workspace"@[0] == 'w',
        "system_prompt"@.len() == 13,
        "policy_name"@.len() == 11 && "policy_name"@[0] == 'p',
        "fingerprint"@.len() == 11 && "fingerprint"@[0] == 'f',
        "text"@.len() == 4 && "text"@[1] == 'e',
        "tool_name"@.len() == 9 && "tool_name"@[0] == 't',
        "input"@.len() == 5 && "input"@[0] == 'i',
        "result"@.len() == 6 && "result"@[0] == 'r',
        "commit"@.len() == 6 && "commit"@[0] == 'c',
        "branch"@.len() == 6 && "branch"@[0] == 'b',
        "dirty"@.len() == 5 && "dirty"@[0] == 'd',
        "workspace_path"@.len() == 14,
{
    reveal_strlit("type");
    reveal_strlit("timestamp_ms");
    reveal_strlit("turn_index");
    reveal_strlit("workspace");
    reveal_strlit("system_prompt");
    reveal_strlit("policy_name");
    reveal_strlit("fingerprint");
    reveal_strlit("text");
    reveal_strlit("tool_name");
    reveal_strlit("input");
    reveal_strlit("result");
    reveal_strlit("commit");
    reveal_strlit("branch");
    reveal_strlit("dirty");
    reveal_strlit("workspace_path");
}

/// Blank lines of a log are passed over, a line that holds no event is told with
/// its number, and the events come in the order of the lines.
pub proof fn law_logs_are_read_line_by_line(
    lines: Seq<Seq<char>>,
    i: int,
    done: Seq<session_events::EventView>,
)
    requires
        0 <= i < lines.len(),
    ensures
        text::trim(lines[i]).len() == 0 ==> read_from(lines, i, done) == read_from(
            lines,
            i + 1,
            done,
        ),
        text::trim(lines[i]).len() > 0 ==> match event_on(lines[i]) {
            Ok(e) => read_from(lines, i, done) == read_from(lines, i + 1, done.push(e)),
            Err(e) => read_from(lines, i, done) == Err::<
                Seq<session_events::EventView>,
                Seq<char>,
            >("line "@ + text::decimal((i + 1) as nat) + ": "@ + e),
        },
        read_from(lines, lines.len() as int, done) == Ok::<
            Seq<session_events::EventView>,
            Seq<char>,
        >(done),
{
}

/// An event is read as the record says it: a record from which an event is read
/// names its type, its time and its turn, and holds all that the event says.
pub proof fn law_events_are_read_as_recorded(doc: json::JsonView)
    requires
        doc is Object,
    ensures
        event_of_record(doc) matches Ok(e) ==> {
            &&& doc.get_u64("timestamp_ms"@) == Some(e.timestamp_ms)
            &&& doc.get_u64("turn_index"@) == Some(e.turn_index as u64)
            &&& match e.what {
                session_events::Happening::SessionStarted {
                    workspace,
                    system_prompt,
                    policy_name,
                    fingerprint,
                } => doc.get_str("type"@) == Some("SessionStarted"@) && doc.get_str("workspace"@)
                    == Some(workspace) && doc.get_str("system_prompt"@) == Some(system_prompt)
                    && doc.get_str("policy_name"@) == Some(policy_name) && (doc.get("fingerprint"@)
                    is None ==> fingerprint is None),
                session_events::Happening::UserInput { text } => doc.get_str("type"@) == Some(
                    "UserInput"@,
                ) && doc.get_str("text"@) == Some(text),
                session_events::Happening::AssistantResponse { text } => doc.get_str("type"@)
                    == Some("AssistantResponse"@) && doc.get_str("text"@) == Some(text),
                session_events::Happening::SystemMessage { text } => doc.get_str("type"@) == Some(
                    "SystemMessage"@,
                ) && doc.get_str("text"@) == Some(text),
                session_events::Happening::ToolExchange { tool_name, input, result } =>
                doc.get_str("type"@) == Some("ToolExchange"@) && doc.get_str("tool_name"@) == Some(
                    tool_name,
                ) && doc.get("input"@) == Some(input) && doc.get("result"@) == Some(result),
            }
        },
        doc.get("type"@) is None ==> event_of_record(doc) == Err::<
            session_events::EventView,
            Seq<char>,
        >("missing field `type`"@),
{
    reveal_strlit("missing field `");
    reveal_strlit("type");
    reveal_strlit("`");
    reveal_strlit("missing field `type`");
    assert("missing field `"@ + "type"@ + "`"@ =~= "missing field `type`"@);
}

/// A member that an event has, and that stands twice on a line, is refused, and so
/// is a type that does.
pub proof fn law_members_given_twice_are_refused(
    line: Seq<char>,
    kind: Seq<char>,
    j: int,
    i: int,
    k: int,
)
    requires
        json::json_parsed(line) matches Ok(doc) && doc is Object && doc.get_str("type"@) == Some(
            kind,
        ),
        0 <= j < members::members_of(line).len(),
        members::members_of(line)[j].name == "type"@,
        0 <= i < k < members::members_of(line).len(),
        members::members_of(line)[i].name == members::members_of(line)[k].name,
    ensures
        ({
            let name = members::members_of(line)[i].name;
            &&& name == "type"@ || name == "timestamp_ms"@ || name == "turn_index"@ ==> event_on(
                line,
            ) is Err
            &&& kind == "SessionStarted"@ && (name == "workspace"@ || name == "system_prompt"@
                || name == "policy_name"@ || name == "fingerprint"@) ==> event_on(line) is Err
            &&& kind == "ToolExchange"@ && (name == "tool_name"@ || name == "input"@ || name
                == "result"@) ==> event_on(line) is Err
            &&& (kind == "UserInput"@ || kind == "AssistantResponse"@ || kind == "SystemMessage"@)
                && name == "text"@ ==> event_on(line) is Err
        }),
{
    let doc = json::json_parsed(line)->Ok_0;
    let all = members::members_of(line);
    let name = all[i].name;
    lemma_kind_words_differ();
    let first = first_named(all, "type"@, 0);
    lemma_first_found(all, "type"@, 0);
    lemma_first_found(all, "type"@, first + 1);
    assert(first <= j);
    if name == "type"@ {
        assert(first <= i);
        assert(first_named(all, "type"@, first + 1) <= k);
    }
    lemma_first_found(all, name, 0);
    if first_named(all, "type"@, first + 1) >= all.len() && is_kind(kind) {
        assert(value_at(line, doc, all, first) == json::JsonView::Str(kind));
        if has_member(kind, name) {
            lemma_twice(kind, line, doc, all, 0, k);
        }
    }
}

proof fn lemma_kind_words_differ()
    ensures
        "SessionStarted"@.len() == 14,
        "ToolExchange"@.len() == 12,
        "UserInput"@.len() == 9,
        "AssistantResponse"@.len() == 17,
        "SystemMessage"@.len() == 13,
{
    reveal_strlit("SessionStarted");
    reveal_strlit("ToolExchange");
    reveal_strlit("UserInput");
    reveal_strlit("AssistantResponse");
    reveal_strlit("SystemMessage");
}

proof fn lemma_first_found(all: Seq<members::MemberView>, name: Seq<char>, from: int)
    requires
        0 <= from,
    ensures
        forall|k: int|
            from <= k < all.len() && (#[trigger] all[k]).name == name ==> from <= first_named(
                all,
                name,
                from,
            ) <= k,
        from <= all.len() ==> from <= first_named(all, name, from) <= all.len(),
    decreases all.len() - from,
{
    if from < all.len() {
        lemma_first_found(all, name, from + 1);
    }
}

proof fn lemma_twice(
    kind: Seq<char>,
    t: Seq<char>,
    doc: json::JsonView,
    all: Seq<members::MemberView>,
    i: int,
    k: int,
)
    requires
        0 <= i <= k < all.len(),
        has_member(kind, all[k].name),
        first_named(all, all[k].name, 0) < k,
    ensures
        members_fault(kind, t, doc, all, i) is Some,
    decreases k - i,
{
    if i < k {
        lemma_twice(kind, t, doc, all, i + 1, k);
    }
}

/// What is wrong with a value is told with the value and with what was wanted: a
/// value of another type as such, and a number out of range as such.
pub proof fn law_wrong_values_are_told(v: json::JsonView, n: u64, b: bool, s: Seq<char>)
    ensures
        text_value(json::JsonView::Str(s)) == Ok::<Seq<char>, Seq<char>>(s),
        bool_value(json::JsonView::Bool(b)) == Ok::<bool, Seq<char>>(b),
        time_value(number(n)) == Ok::<u64, Seq<char>>(n),
        n <= usize::MAX ==> count_value(number(n)) == Ok::<usize, Seq<char>>(n as usize),
        optional_text_value(json::JsonView::Null) == Ok::<Option<Seq<char>>, Seq<char>>(None),
        !(v is Str) ==> text_value(v) == Err::<Seq<char>, Seq<char>>(
            "invalid type: "@ + unexpected(v) + ", expected a string"@,
        ),
        !(v is Bool) ==> bool_value(v) == Err::<bool, Seq<char>>(
            "invalid type: "@ + unexpected(v) + ", expected a boolean"@,
        ),
        !(v is Number) ==> time_value(v) == Err::<u64, Seq<char>>(
            "invalid type: "@ + unexpected(v) + ", expected u64"@,
        ),
        v matches json::JsonView::Number(json::JsonNumber::I64(_)) ==> count_value(v) == Err::<
            usize,
            Seq<char>,
        >("invalid value: "@ + unexpected(v) + ", expected usize"@),
        unexpected(json::JsonView::Null) == "null"@,
        unexpected(json::JsonView::Bool(true)) == "boolean `true`"@,
        unexpected(json::JsonView::Str(s)) == "string "@ + text::debug_text(s),
        unexpected(number(n)) == "integer `"@ + json::json_text(number(n)) + "`"@,
{
    reveal_strlit(", expected a string");
    reveal_strlit(", expected a boolean");
    reveal_strlit(", expected u64");
    reveal_strlit(", expected usize");
    reveal_strlit(", expected ");
    reveal_strlit("a string");
    reveal_strlit("a boolean");
    reveal_strlit("u64");
    reveal_strlit("usize");
    let told = "invalid type: "@ + unexpected(v);
    assert(", expected "@ + "a string"@ =~= ", expected a string"@);
    assert(", expected "@ + "a boolean"@ =~= ", expected a boolean"@);
    assert(", expected "@ + "u64"@ =~= ", expected u64"@);
    assert(", expected "@ + "usize"@ =~= ", expected usize"@);
    assert(invalid_type(v, "a string"@) =~= told + ", expected a string"@);
    assert(invalid_type(v, "a boolean"@) =~= told + ", expected a boolean"@);
    assert(invalid_type(v, "u64"@) =~= told + ", expected u64"@);
    let value = "invalid value: "@ + unexpected(v);
    assert(invalid_value(v, "usize"@) =~= value + ", expected usize"@);
}

} // verus!
