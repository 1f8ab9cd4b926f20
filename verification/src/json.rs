//! JSON documents: a model of their contents, access to members, and the
//! passage between text and document, which serde_json makes.

use crate::members;
use crate::text::same;
use vstd::prelude::*;
use vstd::string::*;

verus! {

/// `serde_json::Number`, carried where a document holds a number that is no
/// 64-bit integer.
#[verifier::external_type_specification]
#[verifier::external_body]
pub struct ExSerdeNumber(serde_json::Number);

/// `serde_json::Value`, the document as serde_json holds it.
#[verifier::external_type_specification]
#[verifier::external_body]
pub struct ExSerdeValue(serde_json::Value);

/// `Clone` of a `serde_json::Number` gives the same number.
pub assume_specification[ <serde_json::Number as Clone>::clone ](n: &serde_json::Number) -> (r:
    serde_json::Number)
    ensures
        r == *n,
;

/// What a JSON number is.
pub enum JsonNumber {
    /// A non-negative integer of at most 64 bits.
    U64(u64),
    /// A negative integer of at most 64 bits.
    I64(i64),
    /// Any other number, as serde_json holds it.
    Other(serde_json::Number),
}

/// What `Number::as_u64` gives of a number.
pub uninterp spec fn number_as_u64(n: serde_json::Number) -> Option<u64>;

/// What `Number::as_i64` gives of a number.
pub uninterp spec fn number_as_i64(n: serde_json::Number) -> Option<i64>;

/// What a `serde_json::Number` is.
pub open spec fn number_contents(n: serde_json::Number) -> JsonNumber {
    match number_as_u64(n) {
        Some(u) => JsonNumber::U64(u),
        None => match number_as_i64(n) {
            Some(i) => JsonNumber::I64(i),
            None => JsonNumber::Other(n),
        },
    }
}

/// `Number::as_u64` gives the number where it is a non-negative integer of at
/// most 64 bits.
pub assume_specification[ serde_json::Number::as_u64 ](n: &serde_json::Number) -> (r: Option<u64>)
    ensures
        r == number_as_u64(*n),
;

/// `Number::as_i64` gives the number where it is an integer that an `i64` holds;
/// of a non-negative integer, where it is not too large.
pub assume_specification[ serde_json::Number::as_i64 ](n: &serde_json::Number) -> (r: Option<i64>)
    ensures
        r == number_as_i64(*n),
        number_as_u64(*n) matches Some(u) ==> r == (if u <= i64::MAX {
            Some(u as i64)
        } else {
            None
        }),
;

/// `Number::from` of a `u64` is that non-negative integer.
#[verifier::external_body]
fn number_of_u64(n: u64) -> (r: serde_json::Number)
    ensures
        number_as_u64(r) == Some(n),
{
    serde_json::Number::from(n)
}

/// `Number::from` of an `i64` is that integer; a non-negative one is held as
/// a `u64` holds it.
#[verifier::external_body]
fn number_of_i64(n: i64) -> (r: serde_json::Number)
    ensures
        number_as_u64(r) == (if n >= 0 {
            Some(n as u64)
        } else {
            None
        }),
        number_as_i64(r) == Some(n),
{
    serde_json::Number::from(n)
}

/// A JSON document. `==` compares the members of objects in their order too.
#[derive(Debug, PartialEq, Eq)]
pub enum Json {
    Null,
    Bool(bool),
    Number(serde_json::Number),
    Str(String),
    Array(Vec<Json>),
    /// The members; of two members with one key the later counts.
    Object(Vec<(String, Json)>),
}

// ---------------------------------------------------------------------------
// Contents
// ---------------------------------------------------------------------------

/// The contents of a JSON document.
#[verifier::ext_equal]
pub ghost enum JsonView {
    Null,
    Bool(bool),
    Number(JsonNumber),
    Str(Seq<char>),
    Array(Seq<JsonView>),
    Object(Map<Seq<char>, JsonView>),
}

impl JsonView {
    /// The member `key`, where the document is an object that has one.
    pub open spec fn get(self, key: Seq<char>) -> Option<JsonView> {
        match self {
            JsonView::Object(members) => if members.contains_key(key) {
                Some(members[key])
            } else {
                None
            },
            _ => None,
        }
    }

    /// The text of a string document.
    pub open spec fn as_str(self) -> Option<Seq<char>> {
        match self {
            JsonView::Str(s) => Some(s),
            _ => None,
        }
    }

    pub open spec fn as_u64(self) -> Option<u64> {
        match self {
            JsonView::Number(JsonNumber::U64(n)) => Some(n),
            _ => None,
        }
    }

    pub open spec fn as_i64(self) -> Option<i64> {
        match self {
            JsonView::Number(JsonNumber::U64(n)) => if n <= i64::MAX {
                Some(n as i64)
            } else {
                None
            },
            JsonView::Number(JsonNumber::I64(n)) => Some(n),
            _ => None,
        }
    }

    pub open spec fn as_array(self) -> Option<Seq<JsonView>> {
        match self {
            JsonView::Array(items) => Some(items),
            _ => None,
        }
    }

    /// The text of the member `key`, where there is one and it is a string.
    pub open spec fn get_str(self, key: Seq<char>) -> Option<Seq<char>> {
        match self.get(key) {
            Some(v) => v.as_str(),
            None => None,
        }
    }

    /// The member `key`, where there is one and it is a non-negative integer.
    pub open spec fn get_u64(self, key: Seq<char>) -> Option<u64> {
        match self.get(key) {
            Some(v) => v.as_u64(),
            None => None,
        }
    }

    /// The object without the member `key`.
    pub open spec fn without(self, key: Seq<char>) -> JsonView {
        match self {
            JsonView::Object(members) => JsonView::Object(members.remove(key)),
            _ => self,
        }
    }

    /// The object with the member `key` set.
    pub open spec fn with(self, key: Seq<char>, value: JsonView) -> JsonView {
        match self {
            JsonView::Object(members) => JsonView::Object(members.insert(key, value)),
            _ => self,
        }
    }
}

/// The document of an integer.
pub open spec fn json_int(n: i64) -> JsonView {
    JsonView::Number(
        if n >= 0 {
            JsonNumber::U64(n as u64)
        } else {
            JsonNumber::I64(n)
        },
    )
}

/// The object without members.
pub open spec fn json_object() -> JsonView {
    JsonView::Object(Map::empty())
}

impl DeepView for Json {
    type V = JsonView;

    open spec fn deep_view(&self) -> JsonView {
        json_view(*self)
    }
}

pub open spec fn json_view(j: Json) -> JsonView
    decreases j,
{
    match j {
        Json::Null => JsonView::Null,
        Json::Bool(b) => JsonView::Bool(b),
        Json::Number(n) => JsonView::Number(number_contents(n)),
        Json::Str(s) => JsonView::Str(s@),
        Json::Array(items) => JsonView::Array(json_items(items@)),
        Json::Object(members) => JsonView::Object(json_members(members@)),
    }
}

pub open spec fn json_items(items: Seq<Json>) -> Seq<JsonView>
    decreases items,
{
    if items.len() == 0 {
        Seq::empty()
    } else {
        json_items(items.subrange(0, items.len() - 1)).push(json_view(items[items.len() - 1]))
    }
}

pub open spec fn json_members(members: Seq<(String, Json)>) -> Map<Seq<char>, JsonView>
    decreases members,
{
    if members.len() == 0 {
        Map::empty()
    } else {
        let last = members[members.len() - 1];
        json_members(members.subrange(0, members.len() - 1)).insert(last.0@, json_view(last.1))
    }
}

/// The items of an array are the contents of its elements.
pub broadcast proof fn lemma_json_items(items: Seq<Json>)
    ensures
        #![trigger json_items(items)]
        json_items(items).len() == items.len(),
        forall|i: int| 0 <= i < items.len() ==> #[trigger] json_items(items)[i] == items[i].deep_view(),
    decreases items.len(),
{
    if items.len() > 0 {
        lemma_json_items(items.subrange(0, items.len() - 1));
    }
}

proof fn lemma_json_members_push(members: Seq<(String, Json)>, m: (String, Json))
    ensures
        json_members(members.push(m)) == json_members(members).insert(m.0@, json_view(m.1)),
{
    assert(members.push(m).subrange(0, members.push(m).len() - 1) =~= members);
}

// ---------------------------------------------------------------------------
// Access
// ---------------------------------------------------------------------------

impl Json {
    /// The object without members.
    pub fn object() -> (r: Json)
        ensures
            r.deep_view() == json_object(),
    {
        Json::Object(Vec::new())
    }

    /// The string document with the given text.
    pub fn text(s: &str) -> (r: Json)
        ensures
            r.deep_view() == JsonView::Str(s@),
    {
        Json::Str(s.to_owned())
    }

    /// The document of a non-negative integer.
    pub fn natural(n: u64) -> (r: Json)
        ensures
            r.deep_view() == JsonView::Number(JsonNumber::U64(n)),
    {
        Json::Number(number_of_u64(n))
    }

    /// The document of an integer.
    pub fn integer(n: i64) -> (r: Json)
        ensures
            r.deep_view() == json_int(n),
    {
        Json::Number(number_of_i64(n))
    }

    /// The object with the member `key` set; another document is left as it is.
    pub fn with(self, key: &str, value: Json) -> (r: Json)
        ensures
            r.deep_view() == self.deep_view().with(key@, value.deep_view()),
    {
        match self {
            Json::Object(members) => {
                let mut members = members;
                proof {
                    assert forall|k: String| k@ == key@ implies json_members(
                        members@.push((k, value)),
                    ) == json_members(members@).insert(key@, value.deep_view()) by {
                        lemma_json_members_push(members@, (k, value));
                    }
                }
                members.push((key.to_owned(), value));
                Json::Object(members)
            },
            other => other,
        }
    }

    /// The member `key`, where the document is an object that has one.
    pub fn get(&self, key: &str) -> (r: Option<&Json>)
        ensures
            r.deep_view() == self.deep_view().get(key@),
    {
        match self {
            Json::Object(members) => {
                let mut i: usize = members.len();
                assert(members@.subrange(0, i as int) =~= members@);
                while i > 0
                    invariant
                        i <= members@.len(),
                        self.deep_view().get(key@) == JsonView::Object(
                            json_members(members@.subrange(0, i as int)),
                        ).get(key@),
                    decreases i,
                {
                    i -= 1;
                    assert(members@.subrange(0, i + 1).subrange(0, i as int) =~= members@.subrange(
                        0,
                        i as int,
                    ));
                    if same(members[i].0.as_str(), key) {
                        return Some(&members[i].1);
                    }
                }
                None
            },
            _ => None,
        }
    }

    /// The object without the member `key`; another document is left as it is.
    pub fn without(self, key: &str) -> (r: Json)
        ensures
            r.deep_view() == self.deep_view().without(key@),
    {
        match self {
            Json::Object(members) => {
                let mut kept: Vec<(String, Json)> = Vec::new();
                let mut left = members;
                let ghost mut i: int = 0;
                assert(members@.subrange(0, 0) =~= Seq::empty());
                assert(json_members(kept@) =~= json_members(members@.subrange(0, 0)).remove(key@));
                assert(left@ =~= members@.skip(0));
                while left.len() > 0
                    invariant
                        0 <= i <= members@.len(),
                        left@ == members@.skip(i),
                        json_members(kept@) == json_members(members@.subrange(0, i)).remove(key@),
                    decreases left@.len(),
                {
                    let ghost had = json_members(members@.subrange(0, i));
                    let member = left.remove(0);
                    proof {
                        assert(member == members@[i]);
                        assert(members@.subrange(0, i + 1).subrange(0, i) =~= members@.subrange(
                            0,
                            i,
                        ));
                        assert(json_members(members@.subrange(0, i + 1)) == had.insert(
                            member.0@,
                            json_view(member.1),
                        ));
                        lemma_json_members_push(kept@, member);
                    }
                    if !same(member.0.as_str(), key) {
                        let ghost view = json_view(member.1);
                        let ghost name = member.0@;
                        kept.push(member);
                        assert(had.insert(name, view).remove(key@) =~= had.remove(key@).insert(
                            name,
                            view,
                        ));
                    } else {
                        assert(had.insert(key@, json_view(member.1)).remove(key@) =~= had.remove(
                            key@,
                        ));
                    }
                    proof {
                        i = i + 1;
                        assert(left@ =~= members@.skip(i));
                    }
                }
                assert(members@.subrange(0, i) =~= members@);
                Json::Object(kept)
            },
            other => other,
        }
    }

    pub fn as_str(&self) -> (r: Option<&str>)
        ensures
            r.deep_view() == self.deep_view().as_str(),
    {
        match self {
            Json::Str(s) => Some(s.as_str()),
            _ => None,
        }
    }

    pub fn as_u64(&self) -> (r: Option<u64>)
        ensures
            r == self.deep_view().as_u64(),
    {
        match self {
            Json::Number(n) => n.as_u64(),
            _ => None,
        }
    }

    pub fn as_i64(&self) -> (r: Option<i64>)
        ensures
            r == self.deep_view().as_i64(),
    {
        match self {
            Json::Number(n) => n.as_i64(),
            _ => None,
        }
    }

    pub fn as_array(&self) -> (r: Option<&Vec<Json>>)
        ensures
            r.deep_view() == self.deep_view().as_array(),
    {
        broadcast use lemma_json_items;

        match self {
            Json::Array(items) => {
                assert(items.deep_view() =~= json_items(items@));
                Some(items)
            },
            _ => None,
        }
    }

    /// The text of the member `key`, where there is one and it is a string.
    pub fn get_str(&self, key: &str) -> (r: Option<&str>)
        ensures
            r.deep_view() == self.deep_view().get_str(key@),
    {
        match self.get(key) {
            Some(v) => v.as_str(),
            None => None,
        }
    }

    /// The member `key`, where there is one and it is a non-negative integer.
    pub fn get_u64(&self, key: &str) -> (r: Option<u64>)
        ensures
            r == self.deep_view().get_u64(key@),
    {
        match self.get(key) {
            Some(v) => v.as_u64(),
            None => None,
        }
    }
}

/// The text of the member `key`, or `default` where there is none.
pub open spec fn str_or(doc: JsonView, key: Seq<char>, default: Seq<char>) -> Seq<char> {
    match doc.get_str(key) {
        Some(s) => s,
        None => default,
    }
}

/// The text of the member `key`, or `default` where there is none.
pub fn str_in<'a>(doc: &'a Json, key: &str, default: &'a str) -> (r: &'a str)
    ensures
        r@ == str_or(doc.deep_view(), key@, default@),
{
    match doc.get_str(key) {
        Some(s) => s,
        None => default,
    }
}

/// The text of the member `key`, or `default` where there is none.
pub fn string_in(doc: &Json, key: &str, default: &str) -> (r: String)
    ensures
        r@ == str_or(doc.deep_view(), key@, default@),
{
    str_in(doc, key, default).to_owned()
}

impl Clone for Json {
    fn clone(&self) -> (r: Self)
        ensures
            r.deep_view() == self.deep_view(),
        decreases self,
    {
        match self {
            Json::Null => Json::Null,
            Json::Bool(b) => Json::Bool(*b),
            Json::Number(n) => Json::Number(n.clone()),
            Json::Str(s) => Json::Str(s.clone()),
            Json::Array(items) => {
                let mut copies: Vec<Json> = Vec::new();
                let mut i: usize = 0;
                while i < items.len()
                    invariant
                        i <= items@.len(),
                        self == Json::Array(*items),
                        json_items(copies@) == json_items(items@.subrange(0, i as int)),
                    decreases items@.len() - i,
                {
                    assert(decreases_to!(*self => self->Array_0));
                    assert(decreases_to!(items => items@));
                    assert(decreases_to!(items@ => items@[i as int]));
                    assert(decreases_to!(self => items@[i as int]));
                    let copy = (&items[i]).clone();
                    let ghost before = copies@;
                    copies.push(copy);
                    proof {
                        assert(copies@.subrange(0, copies@.len() - 1) =~= before);
                        assert(items@.subrange(0, i + 1).subrange(0, i as int) =~= items@.subrange(0, i as int));
                    }
                    i += 1;
                }
                assert(items@.subrange(0, i as int) =~= items@);
                Json::Array(copies)
            },
            Json::Object(members) => {
                let mut copies: Vec<(String, Json)> = Vec::new();
                let mut i: usize = 0;
                while i < members.len()
                    invariant
                        i <= members@.len(),
                        self == Json::Object(*members),
                        json_members(copies@) == json_members(members@.subrange(0, i as int)),
                    decreases members@.len() - i,
                {
                    assert(decreases_to!(*self => self->Object_0));
                    assert(decreases_to!(members => members@));
                    assert(decreases_to!(members@ => members@[i as int]));
                    assert(decreases_to!(members@[i as int] => members@[i as int].1));
                    assert(decreases_to!(self => members@[i as int].1));
                    let copy = (&members[i].1).clone();
                    let key = members[i].0.clone();
                    let ghost before = copies@;
                    copies.push((key, copy));
                    proof {
                        assert(copies@.subrange(0, copies@.len() - 1) =~= before);
                        assert(members@.subrange(0, i + 1).subrange(0, i as int) =~= members@.subrange(0, i as int));
                    }
                    i += 1;
                }
                assert(members@.subrange(0, i as int) =~= members@);
                Json::Object(copies)
            },
        }
    }
}

// ---------------------------------------------------------------------------
// Text and documents
// ---------------------------------------------------------------------------

/// The outermost layer of a `serde_json::Value`.
pub enum ValueLayer {
    Null,
    Bool(bool),
    Number(serde_json::Number),
    Str(String),
    Array(Vec<serde_json::Value>),
    Object(Vec<(String, serde_json::Value)>),
}

/// What a `serde_json::Value` holds.
pub uninterp spec fn value_contents(v: serde_json::Value) -> JsonView;

/// The contents of the values in `vs`.
pub open spec fn values_contents(vs: Seq<serde_json::Value>) -> Seq<JsonView> {
    Seq::new(vs.len(), |i: int| value_contents(vs[i]))
}

/// The contents of the members in `ms`; of two with one key the later counts.
pub open spec fn members_contents(ms: Seq<(String, serde_json::Value)>) -> Map<Seq<char>, JsonView>
    decreases ms.len(),
{
    if ms.len() == 0 {
        Map::empty()
    } else {
        members_contents(ms.drop_last()).insert(ms.last().0@, value_contents(ms.last().1))
    }
}

impl ValueLayer {
    pub open spec fn contents(self) -> JsonView {
        match self {
            ValueLayer::Null => JsonView::Null,
            ValueLayer::Bool(b) => JsonView::Bool(b),
            ValueLayer::Number(n) => JsonView::Number(number_contents(n)),
            ValueLayer::Str(s) => JsonView::Str(s@),
            ValueLayer::Array(items) => JsonView::Array(values_contents(items@)),
            ValueLayer::Object(members) => JsonView::Object(members_contents(members@)),
        }
    }
}

/// Builds a `serde_json::Value` from its outermost layer: each variant of
/// `Value` from the like one here, an object by `Map::from_iter`, which keeps
/// the later of two members with one key.
#[verifier::external_body]
fn value_of_layer(layer: ValueLayer) -> (v: serde_json::Value)
    ensures
        value_contents(v) == layer.contents(),
{
    match layer {
        ValueLayer::Null => serde_json::Value::Null,
        ValueLayer::Bool(b) => serde_json::Value::Bool(b),
        ValueLayer::Number(n) => serde_json::Value::Number(n),
        ValueLayer::Str(s) => serde_json::Value::String(s),
        ValueLayer::Array(items) => serde_json::Value::Array(items),
        ValueLayer::Object(members) => serde_json::Value::Object(members.into_iter().collect()),
    }
}

/// Takes a `serde_json::Value` apart into its outermost layer: each variant of
/// `Value` into the like one here. The keys of a `Map` differ.
#[verifier::external_body]
fn layer_of_value(v: serde_json::Value) -> (layer: ValueLayer)
    ensures
        layer.contents() == value_contents(v),
        layer matches ValueLayer::Object(members) ==> forall|i: int, j: int|
            0 <= i < j < members@.len() ==> members@[i].0@ != members@[j].0@,
{
    match v {
        serde_json::Value::Null => ValueLayer::Null,
        serde_json::Value::Bool(b) => ValueLayer::Bool(b),
        serde_json::Value::Number(n) => ValueLayer::Number(n),
        serde_json::Value::String(s) => ValueLayer::Str(s),
        serde_json::Value::Array(items) => ValueLayer::Array(items),
        serde_json::Value::Object(members) => ValueLayer::Object(members.into_iter().collect()),
    }
}

/// The compact text that serde_json writes for a document.
pub uninterp spec fn json_text(doc: JsonView) -> Seq<char>;

/// The document that serde_json reads from a text, or the text of its error.
pub uninterp spec fn json_parsed(text: Seq<char>) -> Result<JsonView, Seq<char>>;

/// Whether every number in `doc` is an integer of 64 bits, and arrays and
/// objects are nested at most `depth` deep.
pub open spec fn plain(doc: JsonView, depth: nat) -> bool
    decreases depth,
{
    match doc {
        JsonView::Number(n) => !(n is Other),
        JsonView::Array(items) => depth > 0 && forall|i: int|
            0 <= i < items.len() ==> plain(#[trigger] items[i], (depth - 1) as nat),
        JsonView::Object(members) => depth > 0 && forall|k: Seq<char>| #[trigger]
            members.contains_key(k) ==> plain(members[k], (depth - 1) as nat),
        _ => true,
    }
}

/// Whether `text` is read as the document `doc`.
pub open spec fn reads_as(text: Seq<char>, doc: JsonView) -> bool {
    json_parsed(text) == Ok::<JsonView, Seq<char>>(doc)
}

/// How deep serde_json reads nested arrays and objects.
pub open spec fn read_depth() -> nat {
    127
}

/// `Value::to_string` writes the compact text of the document. The text holds
/// no character below the space, since all of them are escaped inside strings;
/// that of an object starts with its brace, and names each member once. Read again, it gives the document back,
/// where its numbers are integers (other numbers may be read a last digit off)
/// and it is not nested deeper than the reader goes.
#[verifier::external_body]
fn value_text(v: &serde_json::Value) -> (r: String)
    ensures
        r@ == json_text(value_contents(*v)),
        forall|i: int| 0 <= i < r@.len() ==> #[trigger] r@[i] >= ' ',
        value_contents(*v) is Object ==> r@.len() > 0 && r@[0] == '{',
        plain(value_contents(*v), read_depth()) ==> reads_as(r@, value_contents(*v)),
        members::names_once(r@, read_depth()),
{
    v.to_string()
}

/// `serde_json::from_str` reads one document, or fails with an error whose
/// text the result holds.
#[verifier::external_body]
fn value_parsed(text: &str) -> (r: Result<serde_json::Value, String>)
    ensures
        match r {
            Ok(v) => json_parsed(text@) == Ok::<JsonView, Seq<char>>(value_contents(v)),
            Err(e) => json_parsed(text@) == Err::<JsonView, Seq<char>>(e@),
        },
{
    serde_json::from_str::<serde_json::Value>(text).map_err(|e| e.to_string())
}

/// The document that serde_json reads from bytes, or the text of its error.
pub uninterp spec fn json_read(bytes: Seq<u8>) -> Result<JsonView, Seq<char>>;

/// `serde_json::from_slice` reads one document from bytes, or fails with an error
/// whose text the result holds. Of bytes that are UTF-8 it makes what `from_str`
/// makes of their text, and other bytes it refuses.
#[verifier::external_body]
fn value_read(bytes: &[u8]) -> (r: Result<serde_json::Value, String>)
    ensures
        match r {
            Ok(v) => json_read(bytes@) == Ok::<JsonView, Seq<char>>(value_contents(v)),
            Err(e) => json_read(bytes@) == Err::<JsonView, Seq<char>>(e@),
        },
        vstd::utf8::valid_utf8(bytes@) ==> match r {
            Ok(v) => json_parsed(vstd::utf8::decode_utf8(bytes@)) == Ok::<JsonView, Seq<char>>(
                value_contents(v),
            ),
            Err(e) => json_parsed(vstd::utf8::decode_utf8(bytes@)) == Err::<JsonView, Seq<char>>(
                e@,
            ),
        },
        !vstd::utf8::valid_utf8(bytes@) ==> r is Err,
{
    serde_json::from_slice::<serde_json::Value>(bytes).map_err(|e| e.to_string())
}

/// The value that serde_json holds for the document `j`.
fn to_value(j: &Json) -> (v: serde_json::Value)
    ensures
        value_contents(v) == j.deep_view(),
    decreases j,
{
    broadcast use lemma_json_items;

    match j {
        Json::Null => value_of_layer(ValueLayer::Null),
        Json::Bool(b) => value_of_layer(ValueLayer::Bool(*b)),
        Json::Number(n) => value_of_layer(ValueLayer::Number(n.clone())),
        Json::Str(s) => value_of_layer(ValueLayer::Str(s.clone())),
        Json::Array(items) => {
            let mut values: Vec<serde_json::Value> = Vec::new();
            let mut i: usize = 0;
            while i < items.len()
                invariant
                    i <= items@.len(),
                    j == Json::Array(*items),
                    values@.len() == i,
                    forall|k: int| 0 <= k < i ==> value_contents(#[trigger] values@[k]) == items@[k].deep_view(),
                decreases items@.len() - i,
            {
                assert(decreases_to!(*j => j->Array_0));
                assert(decreases_to!(items => items@));
                assert(decreases_to!(items@ => items@[i as int]));
                values.push(to_value(&items[i]));
                i += 1;
            }
            assert(values_contents(values@) =~= json_items(items@));
            value_of_layer(ValueLayer::Array(values))
        },
        Json::Object(members) => {
            let mut values: Vec<(String, serde_json::Value)> = Vec::new();
            let mut i: usize = 0;
            while i < members.len()
                invariant
                    i <= members@.len(),
                    j == Json::Object(*members),
                    members_contents(values@) == json_members(members@.subrange(0, i as int)),
                decreases members@.len() - i,
            {
                assert(decreases_to!(*j => j->Object_0));
                assert(decreases_to!(members => members@));
                assert(decreases_to!(members@ => members@[i as int]));
                assert(decreases_to!(members@[i as int] => members@[i as int].1));
                let value = to_value(&members[i].1);
                let ghost before = values@;
                values.push((members[i].0.clone(), value));
                proof {
                    assert(values@.drop_last() =~= before);
                    assert(members@.subrange(0, i + 1).subrange(0, i as int) =~= members@.subrange(
                        0,
                        i as int,
                    ));
                }
                i += 1;
            }
            assert(members@.subrange(0, i as int) =~= members@);
            value_of_layer(ValueLayer::Object(values))
        },
    }
}

/// With distinct keys every member of an object holds what stands with its key.
proof fn lemma_members_contents(ms: Seq<(String, serde_json::Value)>)
    requires
        forall|i: int, j: int| 0 <= i < j < ms.len() ==> ms[i].0@ != ms[j].0@,
    ensures
        members_contents(ms).dom().finite(),
        forall|i: int|
            #![trigger ms[i]]
            0 <= i < ms.len() ==> members_contents(ms).contains_key(ms[i].0@)
                && members_contents(ms)[ms[i].0@] == value_contents(ms[i].1),
        forall|k: Seq<char>| #[trigger] members_contents(ms).contains_key(k) ==> exists|i: int|
            0 <= i < ms.len() && ms[i].0@ == k,
    decreases ms.len(),
{
    if ms.len() > 0 {
        lemma_members_contents(ms.drop_last());
        assert forall|i: int| #![trigger ms[i]] 0 <= i < ms.len() implies members_contents(
            ms,
        ).contains_key(ms[i].0@) && members_contents(ms)[ms[i].0@] == value_contents(ms[i].1) by {
            if i < ms.len() - 1 {
                assert(ms.drop_last()[i] == ms[i]);
            }
        }
        assert forall|k: Seq<char>| #[trigger] members_contents(ms).contains_key(k) implies exists|
            i: int,
        |
            0 <= i < ms.len() && ms[i].0@ == k by {
            if k == ms.last().0@ {
                assert(ms[ms.len() - 1].0@ == k);
            } else {
                assert(members_contents(ms.drop_last()).contains_key(k));
                let i = choose|i: int| 0 <= i < ms.drop_last().len() && ms.drop_last()[i].0@ == k;
                assert(ms[i].0@ == k);
            }
        }
    }
}

/// The items from the last to the first.
fn reversed<T>(v: Vec<T>) -> (r: Vec<T>)
    ensures
        r@.len() == v@.len(),
        forall|k: int| 0 <= k < r@.len() ==> #[trigger] r@[k] == v@[v@.len() - 1 - k],
{
    let ghost all = v@;
    let mut v = v;
    let mut r: Vec<T> = Vec::new();
    loop
        invariant
            v@.len() + r@.len() == all.len(),
            v@ == all.take(v@.len() as int),
            forall|k: int| 0 <= k < r@.len() ==> #[trigger] r@[k] == all[all.len() - 1 - k],
        ensures
            v@.len() == 0,
        decreases v@.len(),
    {
        match v.pop() {
            Some(item) => {
                r.push(item);
                assert(v@ =~= all.take(v@.len() as int));
            },
            None => {
                break;
            },
        }
    }
    r
}

/// The document that a serde_json value holds.
fn from_value(v: serde_json::Value) -> (j: Json)
    ensures
        j.deep_view() == value_contents(v),
    decreases value_contents(v),
{
    broadcast use lemma_json_items;

    let ghost doc = value_contents(v);
    match layer_of_value(v) {
        ValueLayer::Null => Json::Null,
        ValueLayer::Bool(b) => Json::Bool(b),
        ValueLayer::Number(n) => Json::Number(n),
        ValueLayer::Str(s) => Json::Str(s),
        ValueLayer::Array(values) => {
            let ghost all = values@;
            let mut left = reversed(values);
            let mut items: Vec<Json> = Vec::new();
            loop
                invariant
                    left@.len() + items@.len() == all.len(),
                    forall|k: int|
                        0 <= k < left@.len() ==> #[trigger] left@[k] == all[all.len() - 1 - k],
                    forall|k: int| 0 <= k < items@.len() ==> (#[trigger] items@[k]).deep_view() == value_contents(all[k]),
                    doc == JsonView::Array(values_contents(all)),
                    doc == value_contents(v),
                ensures
                    left@.len() == 0,
                decreases left@.len(),
            {
                let ghost done = items@.len() as int;
                let first = match left.pop() {
                    Some(first) => first,
                    None => {
                        break;
                    },
                };
                proof {
                    assert(first == all[done]);
                    assert(doc->Array_0[done] == value_contents(first));
                    assert(decreases_to!(doc => doc->Array_0));
                    assert(decreases_to!(doc->Array_0 => doc->Array_0[done]));
                }
                items.push(from_value(first));
            }
            assert(json_items(items@) =~= values_contents(all));
            Json::Array(items)
        },
        ValueLayer::Object(values) => {
            let ghost all = values@;
            let mut left = reversed(values);
            let mut members: Vec<(String, Json)> = Vec::new();
            proof {
                lemma_members_contents(all);
            }
            loop
                invariant
                    left@.len() + members@.len() == all.len(),
                    forall|k: int|
                        0 <= k < left@.len() ==> #[trigger] left@[k] == all[all.len() - 1 - k],
                    json_members(members@) == members_contents(all.take(members@.len() as int)),
                    doc == JsonView::Object(members_contents(all)),
                    doc == value_contents(v),
                    members_contents(all).dom().finite(),
                    forall|i: int|
                        #![trigger all[i]]
                        0 <= i < all.len() ==> members_contents(all).contains_key(all[i].0@)
                            && members_contents(all)[all[i].0@] == value_contents(all[i].1),
                ensures
                    left@.len() == 0,
                decreases left@.len(),
            {
                let ghost done = members@.len() as int;
                let ghost before = members@;
                let (key, value) = match left.pop() {
                    Some(member) => member,
                    None => {
                        break;
                    },
                };
                proof {
                    assert((key, value) == all[done]);
                    assert(doc->Object_0[key@] == value_contents(value));
                    assert(decreases_to!(doc => doc->Object_0));
                    assert(decreases_to!(doc->Object_0 => doc->Object_0[key@]));
                }
                let item = from_value(value);
                members.push((key, item));
                proof {
                    assert(members@.subrange(0, members@.len() - 1) =~= before);
                    assert(all.take(done + 1).drop_last() =~= all.take(done));
                }
            }
            assert(all.take(members@.len() as int) =~= all);
            Json::Object(members)
        },
    }
}

impl Json {
    /// The compact text of the document, which reads back as the document.
    pub fn to_text(&self) -> (r: String)
        ensures
            r@ == json_text(self.deep_view()),
            forall|i: int| 0 <= i < r@.len() ==> #[trigger] r@[i] >= ' ',
            self.deep_view() is Object ==> r@.len() > 0 && r@[0] == '{',
            plain(self.deep_view(), read_depth()) ==> reads_as(r@, self.deep_view()),
            members::names_once(r@, read_depth()),
    {
        value_text(&to_value(self))
    }

    /// The document that some bytes hold, or the text of the error in them.
    pub fn read(bytes: &[u8]) -> (r: Result<Json, String>)
        ensures
            match r {
                Ok(j) => json_read(bytes@) == Ok::<JsonView, Seq<char>>(j.deep_view()),
                Err(e) => json_read(bytes@) == Err::<JsonView, Seq<char>>(e@),
            },
            vstd::utf8::valid_utf8(bytes@) ==> json_read(bytes@) == json_parsed(
                vstd::utf8::decode_utf8(bytes@),
            ),
            !vstd::utf8::valid_utf8(bytes@) ==> r is Err,
    {
        match value_read(bytes) {
            Ok(v) => Ok(from_value(v)),
            Err(e) => Err(e),
        }
    }

    /// The document that `text` holds, or the text of the error in it.
    pub fn parse(text: &str) -> (r: Result<Json, String>)
        ensures
            match r {
                Ok(j) => json_parsed(text@) == Ok::<JsonView, Seq<char>>(j.deep_view()),
                Err(e) => json_parsed(text@) == Err::<JsonView, Seq<char>>(e@),
            },
    {
        match value_parsed(text) {
            Ok(v) => Ok(from_value(v)),
            Err(e) => Err(e),
        }
    }
}

} // verus!
