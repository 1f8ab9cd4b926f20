//! Where the members of a JSON object, and the items of a JSON array, stand in
//! the text of a document.

use crate::json;
use crate::json::Json;
use crate::text::string_of;
use vstd::prelude::*;
use vstd::string::*;

verus! {

// ---------------------------------------------------------------------------
// Values
// ---------------------------------------------------------------------------

/// Whether JSON passes over a character between values.
pub open spec fn is_space(c: char) -> bool {
    c == ' ' || c == '\t' || c == '\n' || c == '\r'
}

/// The first place from `i` on that holds no space.
pub open spec fn skip_space(t: Seq<char>, i: int) -> int
    decreases t.len() - i,
{
    if 0 <= i < t.len() && is_space(t[i]) {
        skip_space(t, i + 1)
    } else {
        i
    }
}

/// The place behind what stands at `i`, or the end of the text.
pub open spec fn behind(t: Seq<char>, i: int) -> int {
    if i < t.len() {
        i + 1
    } else {
        t.len() as int
    }
}

/// The place behind the string whose characters start at `i`.
pub open spec fn string_end(t: Seq<char>, i: int) -> int
    decreases t.len() - i,
{
    if i < 0 || i >= t.len() {
        t.len() as int
    } else if t[i] == '"' {
        i + 1
    } else if t[i] == '\\' {
        string_end(t, behind(t, i + 1))
    } else {
        string_end(t, i + 1)
    }
}

/// The place behind the bracket that closes the outermost of `depth` open ones.
pub open spec fn bracket_end(t: Seq<char>, i: int, depth: nat) -> int
    decreases t.len() - i,
{
    if i < 0 || i >= t.len() {
        t.len() as int
    } else if t[i] == '"' {
        let end = string_end(t, i + 1);
        if i < end <= t.len() {
            bracket_end(t, end, depth)
        } else {
            t.len() as int
        }
    } else if t[i] == '{' || t[i] == '[' {
        bracket_end(t, i + 1, depth + 1)
    } else if t[i] == '}' || t[i] == ']' {
        if depth <= 1 {
            i + 1
        } else {
            bracket_end(t, i + 1, (depth - 1) as nat)
        }
    } else {
        bracket_end(t, i + 1, depth)
    }
}

/// Whether a number, a truth value or a null ends before a character.
pub open spec fn ends_scalar(c: char) -> bool {
    is_space(c) || c == ',' || c == ']' || c == '}'
}

/// The place behind the number, truth value or null that stands at `i`.
pub open spec fn scalar_end(t: Seq<char>, i: int) -> int
    decreases t.len() - i,
{
    if 0 <= i < t.len() && !ends_scalar(t[i]) {
        scalar_end(t, i + 1)
    } else {
        i
    }
}

/// The place behind the value that stands at `i`.
pub open spec fn value_end(t: Seq<char>, i: int) -> int {
    if i < 0 || i >= t.len() {
        t.len() as int
    } else if t[i] == '"' {
        string_end(t, i + 1)
    } else if t[i] == '{' || t[i] == '[' {
        bracket_end(t, i + 1, 1)
    } else {
        scalar_end(t, i)
    }
}

fn skip_space_in(v: &Vec<char>, from: usize) -> (r: usize)
    requires
        from <= v@.len(),
    ensures
        r == skip_space(v@, from as int),
        from <= r <= v@.len(),
{
    let mut i: usize = from;
    while i < v.len() && (v[i] == ' ' || v[i] == '\t' || v[i] == '\n' || v[i] == '\r')
        invariant
            from <= i <= v@.len(),
            skip_space(v@, from as int) == skip_space(v@, i as int),
        decreases v@.len() - i,
    {
        i += 1;
    }
    i
}

fn string_end_in(v: &Vec<char>, from: usize) -> (r: usize)
    requires
        from <= v@.len(),
    ensures
        r == string_end(v@, from as int),
        from <= r <= v@.len(),
{
    let mut i: usize = from;
    while i < v.len()
        invariant
            from <= i <= v@.len(),
            string_end(v@, from as int) == string_end(v@, i as int),
        decreases v@.len() - i,
    {
        if v[i] == '"' {
            return i + 1;
        }
        if v[i] == '\\' {
            i = if i + 1 < v.len() {
                i + 2
            } else {
                v.len()
            };
        } else {
            i += 1;
        }
    }
    i
}

fn bracket_end_in(v: &Vec<char>, from: usize) -> (r: usize)
    requires
        1 <= from <= v@.len(),
    ensures
        r == bracket_end(v@, from as int, 1),
        from <= r <= v@.len(),
{
    let mut i: usize = from;
    let mut depth: usize = 1;
    while i < v.len()
        invariant
            1 <= from <= i <= v@.len(),
            1 <= depth <= i - from + 1,
            bracket_end(v@, from as int, 1) == bracket_end(v@, i as int, depth as nat),
        decreases v@.len() - i,
    {
        let c = v[i];
        if c == '"' {
            i = string_end_in(v, i + 1);
        } else if c == '{' || c == '[' {
            depth += 1;
            i += 1;
        } else if c == '}' || c == ']' {
            if depth == 1 {
                return i + 1;
            }
            depth -= 1;
            i += 1;
        } else {
            i += 1;
        }
    }
    i
}

fn scalar_end_in(v: &Vec<char>, from: usize) -> (r: usize)
    requires
        from <= v@.len(),
    ensures
        r == scalar_end(v@, from as int),
        from <= r <= v@.len(),
{
    let mut i: usize = from;
    while i < v.len() && !(v[i] == ' ' || v[i] == '\t' || v[i] == '\n' || v[i] == '\r' || v[i]
        == ',' || v[i] == ']' || v[i] == '}')
        invariant
            from <= i <= v@.len(),
            scalar_end(v@, from as int) == scalar_end(v@, i as int),
        decreases v@.len() - i,
    {
        i += 1;
    }
    i
}

fn value_end_in(v: &Vec<char>, i: usize) -> (r: usize)
    requires
        i <= v@.len(),
    ensures
        r == value_end(v@, i as int),
        i <= r <= v@.len(),
{
    if i >= v.len() {
        v.len()
    } else if v[i] == '"' {
        string_end_in(v, i + 1)
    } else if v[i] == '{' || v[i] == '[' {
        bracket_end_in(v, i + 1)
    } else {
        scalar_end_in(v, i)
    }
}

// ---------------------------------------------------------------------------
// Members
// ---------------------------------------------------------------------------

/// A member of an object: its name, and where in the text its colon and its value
/// stand.
#[verifier::ext_equal]
pub ghost struct MemberView {
    pub name: Seq<char>,
    pub colon: int,
    pub start: int,
    pub end: int,
}

impl MemberView {
    /// The text of the value.
    pub open spec fn text(self, t: Seq<char>) -> Seq<char> {
        t.subrange(self.start, self.end)
    }
}

/// A member of an object, and where it stands.
#[derive(Debug)]
pub struct Member {
    pub name: String,
    pub colon: usize,
    pub start: usize,
    pub end: usize,
}

impl DeepView for Member {
    type V = MemberView;

    open spec fn deep_view(&self) -> MemberView {
        MemberView {
            name: self.name@,
            colon: self.colon as int,
            start: self.start as int,
            end: self.end as int,
        }
    }
}

/// The name that a string in the text stands for.
pub open spec fn name_of(literal: Seq<char>) -> Seq<char> {
    match json::json_parsed(literal) {
        Ok(json::JsonView::Str(s)) => s,
        _ => literal,
    }
}

/// The members from place `i` on, behind those in `done`.
pub open spec fn members_from(t: Seq<char>, i: int, done: Seq<MemberView>) -> Seq<MemberView>
    decreases t.len() - i,
{
    let key = skip_space(t, i);
    if i < 0 || key < i || key >= t.len() || t[key] != '"' {
        done
    } else {
        let key_end = string_end(t, key + 1);
        let colon = skip_space(t, key_end);
        let start = skip_space(t, behind(t, colon));
        let end = value_end(t, start);
        let comma = skip_space(t, end);
        let name = name_of(t.subrange(key, key_end));
        let now = done.push(MemberView { name, colon, start, end });
        if i <= comma < t.len() && t[comma] == ',' {
            members_from(t, comma + 1, now)
        } else {
            now
        }
    }
}

/// The members of the object that a text holds, in the order of the text.
pub open spec fn members_of(t: Seq<char>) -> Seq<MemberView> {
    let open = skip_space(t, 0);
    if 0 <= open < t.len() && t[open] == '{' {
        members_from(t, open + 1, Seq::empty())
    } else {
        Seq::empty()
    }
}

/// Whether the object that a text holds names no member twice, nor do the objects
/// in it, down to `depth` objects in each other.
pub open spec fn names_once(t: Seq<char>, depth: nat) -> bool
    decreases depth,
{
    depth > 0 ==> {
        let all = members_of(t);
        &&& forall|i: int, k: int| 0 <= i < k < all.len() ==> all[i].name != all[k].name
        &&& forall|i: int|
            0 <= i < all.len() ==> names_once(#[trigger] all[i].text(t), (depth - 1) as nat)
    }
}

fn name_from(literal: &str) -> (r: String)
    ensures
        r@ == name_of(literal@),
{
    match Json::parse(literal) {
        Ok(Json::Str(s)) => s,
        _ => literal.to_owned(),
    }
}

/// The members of the object that a text holds, in the order of the text.
pub fn find_members(v: &Vec<char>) -> (r: Vec<Member>)
    ensures
        r.deep_view() == members_of(v@),
        forall|i: int| 0 <= i < r@.len() ==> (#[trigger] r@[i]).start <= r@[i].end <= v@.len(),
        forall|i: int| 0 <= i < r@.len() ==> (#[trigger] r@[i]).colon <= v@.len(),
{
    let ghost t = v@;
    let mut r: Vec<Member> = Vec::new();
    assert(r.deep_view() =~= Seq::empty());
    let open = skip_space_in(v, 0);
    if open >= v.len() || v[open] != '{' {
        return r;
    }
    let mut i: usize = open + 1;
    loop
        invariant_except_break
            members_of(t) == members_from(t, i as int, r.deep_view()),
        invariant
            t == v@,
            i <= t.len(),
            forall|k: int| 0 <= k < r@.len() ==> (#[trigger] r@[k]).start <= r@[k].end <= t.len(),
            forall|k: int| 0 <= k < r@.len() ==> (#[trigger] r@[k]).colon <= t.len(),
        ensures
            members_of(t) == r.deep_view(),
        decreases t.len() - i,
    {
        let key = skip_space_in(v, i);
        if key >= v.len() || v[key] != '"' {
            break;
        }
        let key_end = string_end_in(v, key + 1);
        let colon = skip_space_in(v, key_end);
        let after: usize = if colon < v.len() {
            colon + 1
        } else {
            v.len()
        };
        let start = skip_space_in(v, after);
        let end = value_end_in(v, start);
        let comma = skip_space_in(v, end);
        let literal = string_of(v, key, key_end);
        assert(literal@ =~= t.subrange(key as int, key_end as int));
        let name = name_from(literal.as_str());
        let ghost before = r.deep_view();
        let member = Member { name, colon, start, end };
        let ghost added = member.deep_view();
        r.push(member);
        assert(r.deep_view() =~= before.push(added));
        if comma >= v.len() || v[comma] != ',' {
            break;
        }
        i = comma + 1;
    }
    r
}

// ---------------------------------------------------------------------------
// Items
// ---------------------------------------------------------------------------

/// Where the item number `n` of an array starts, counted from the item at `i`.
pub open spec fn item_start(t: Seq<char>, i: int, n: nat) -> int
    decreases n,
{
    let start = skip_space(t, i);
    if n == 0 {
        start
    } else {
        item_start(t, behind(t, skip_space(t, value_end(t, start))), (n - 1) as nat)
    }
}

/// Where the item number `n` of the array that a text holds starts.
pub open spec fn item_of(t: Seq<char>, n: nat) -> int {
    item_start(t, behind(t, skip_space(t, 0)), n)
}

/// Where the item number `n` of the array that a text holds starts and ends.
pub fn find_item(v: &Vec<char>, n: usize) -> (r: (usize, usize))
    ensures
        r.0 == item_of(v@, n as nat),
        r.1 == value_end(v@, r.0 as int),
        r.0 <= r.1 <= v@.len(),
{
    let open = skip_space_in(v, 0);
    let mut i: usize = if open < v.len() {
        open + 1
    } else {
        v.len()
    };
    let mut left: usize = n;
    while left > 0
        invariant
            i <= v@.len(),
            item_of(v@, n as nat) == item_start(v@, i as int, left as nat),
        decreases left,
    {
        let start = skip_space_in(v, i);
        let end = value_end_in(v, start);
        let comma = skip_space_in(v, end);
        i = if comma < v.len() {
            comma + 1
        } else {
            v.len()
        };
        left -= 1;
    }
    let start = skip_space_in(v, i);
    (start, value_end_in(v, start))
}

/// The place behind the last of the first `n` characters that is no space.
pub open spec fn content_end(t: Seq<char>, n: int) -> int
    decreases n,
{
    if 0 < n <= t.len() && is_space(t[n - 1]) {
        content_end(t, n - 1)
    } else {
        n
    }
}

/// The place behind the last character that is no space.
pub fn find_content_end(v: &Vec<char>) -> (r: usize)
    ensures
        r == content_end(v@, v@.len() as int),
        r <= v@.len(),
{
    let mut n: usize = v.len();
    while n > 0 && (v[n - 1] == ' ' || v[n - 1] == '\t' || v[n - 1] == '\n' || v[n - 1] == '\r')
        invariant
            n <= v@.len(),
            content_end(v@, v@.len() as int) == content_end(v@, n as int),
        decreases n,
    {
        n -= 1;
    }
    n
}

// ---------------------------------------------------------------------------
// Laws
// ---------------------------------------------------------------------------

/// Whether a text can stand between quotes as it is.
pub open spec fn is_bare(s: Seq<char>) -> bool {
    forall|i: int| 0 <= i < s.len() ==> #[trigger] s[i] != '"' && s[i] != '\\'
}

/// Whether a text can stand for a number, a truth value or a null.
pub open spec fn is_scalar(s: Seq<char>) -> bool {
    &&& s.len() > 0
    &&& s[0] != '"' && s[0] != '{' && s[0] != '['
    &&& forall|i: int| 0 <= i < s.len() ==> !ends_scalar(#[trigger] s[i])
}

/// A name and a value, as a member of an object is written.
pub open spec fn pair(name: Seq<char>, value: Seq<char>) -> Seq<char> {
    seq!['"'] + name + seq!['"', ':'] + value
}

/// A string ends at its quote. One that is escaped does not end it.
pub proof fn law_strings_end_at_their_quote(before: Seq<char>, s: Seq<char>, after: Seq<char>)
    requires
        is_bare(s),
    ensures
        string_end(before + s + seq!['"'] + after, before.len() as int) == before.len() + s.len()
            + 1,
        string_end(
            before + seq!['\\', '"'] + s + seq!['"'] + after,
            before.len() as int,
        ) == before.len() + s.len() + 3,
    decreases s.len(),
{
    lemma_string_end(before, s, after);
    let t = before + seq!['\\', '"'] + s + seq!['"'] + after;
    let i = before.len() as int;
    assert(t[i] == '\\');
    lemma_string_end(before + seq!['\\', '"'], s, after);
    assert(string_end(t, i) == string_end(t, i + 2));
}

proof fn lemma_string_end(before: Seq<char>, s: Seq<char>, after: Seq<char>)
    requires
        is_bare(s),
    ensures
        string_end(before + s + seq!['"'] + after, before.len() as int) == before.len() + s.len()
            + 1,
    decreases s.len(),
{
    let t = before + s + seq!['"'] + after;
    let i = before.len() as int;
    if s.len() > 0 {
        assert(t[i] == s[0]);
        assert(s[0] != '"' && s[0] != '\\');
        let more = before.push(s[0]);
        let rest = s.skip(1);
        assert forall|k: int| 0 <= k < rest.len() implies #[trigger] rest[k] != '"' && rest[k]
            != '\\' by {
            assert(rest[k] == s[k + 1]);
        }
        assert(more + rest + seq!['"'] + after =~= t);
        lemma_string_end(more, rest, after);
    } else {
        assert(t[i] == '"');
    }
}

proof fn lemma_scalar_end(before: Seq<char>, s: Seq<char>, after: Seq<char>)
    requires
        forall|i: int| 0 <= i < s.len() ==> !ends_scalar(#[trigger] s[i]),
        after.len() > 0,
        ends_scalar(after[0]),
    ensures
        scalar_end(before + s + after, before.len() as int) == before.len() + s.len(),
    decreases s.len(),
{
    let t = before + s + after;
    let i = before.len() as int;
    if s.len() > 0 {
        assert(t[i] == s[0]);
        let more = before.push(s[0]);
        let rest = s.skip(1);
        assert forall|k: int| 0 <= k < rest.len() implies !ends_scalar(#[trigger] rest[k]) by {
            assert(rest[k] == s[k + 1]);
        }
        assert(more + rest + after =~= t);
        lemma_scalar_end(more, rest, after);
    } else {
        assert(t[i] == after[0]);
    }
}

proof fn lemma_member(
    before: Seq<char>,
    name: Seq<char>,
    value: Seq<char>,
    after: Seq<char>,
    done: Seq<MemberView>,
)
    requires
        is_bare(name),
        is_scalar(value),
        after.len() > 0,
        after[0] == ',' || after[0] == '}',
    ensures
        ({
            let t = before + pair(name, value) + after;
            let i = before.len() as int;
            let found = MemberView {
                name: name_of(seq!['"'] + name + seq!['"']),
                colon: i + name.len() + 2,
                start: i + name.len() + 3,
                end: i + name.len() + 3 + value.len(),
            };
            &&& found.text(t) == value
            &&& after[0] == ',' ==> members_from(t, i, done) == members_from(
                t,
                found.end + 1,
                done.push(found),
            )
            &&& after[0] == '}' ==> members_from(t, i, done) == done.push(found)
        }),
{
    let t = before + pair(name, value) + after;
    let i = before.len() as int;
    let key = before.push('"');
    let colon = i + name.len() + 2;
    let start = colon + 1;
    let end = start + value.len();
    assert(t[i] == '"');
    assert(skip_space(t, i) == i);
    assert(t =~= key + name + seq!['"'] + (seq![':'] + value + after));
    lemma_string_end(key, name, seq![':'] + value + after);
    assert(string_end(t, i + 1) == colon);
    assert(t[colon] == ':');
    assert(skip_space(t, colon) == colon);
    assert(t[start] == value[0]);
    assert(!ends_scalar(value[0]));
    assert(skip_space(t, start) == start);
    let front = before + seq!['"'] + name + seq!['"', ':'];
    assert(t =~= front + value + after);
    lemma_scalar_end(front, value, after);
    assert(value_end(t, start) == end);
    assert(t[end] == after[0]);
    assert(skip_space(t, end) == end);
    assert(t.subrange(i, colon) =~= seq!['"'] + name + seq!['"']);
    assert(t.subrange(start, end) =~= value);
}

/// The members of an object are found in the order of the text, each with its name
/// and where its own value stands.
pub proof fn law_members_stand_where_they_are_found(
    a: Seq<char>,
    x: Seq<char>,
    b: Seq<char>,
    y: Seq<char>,
)
    requires
        is_bare(a) && is_bare(b),
        is_scalar(x) && is_scalar(y),
    ensures
        ({
            let t = seq!['{'] + pair(a, x) + seq![','] + pair(b, y) + seq!['}'];
            let found = members_of(t);
            &&& found.len() == 2
            &&& found[0].name == name_of(seq!['"'] + a + seq!['"'])
            &&& found[0].text(t) == x
            &&& t[found[0].colon] == ':'
            &&& found[1].name == name_of(seq!['"'] + b + seq!['"'])
            &&& found[1].text(t) == y
            &&& t[found[1].colon] == ':'
        }),
        members_of(seq!['{'] + pair(a, x) + seq!['}']).len() == 1,
        members_of(seq!['{', '}']).len() == 0,
{
    let one = seq!['{'] + pair(a, x) + seq!['}'];
    assert(one[0] == '{');
    assert(skip_space(one, 0) == 0);
    lemma_member(seq!['{'], a, x, seq!['}'], Seq::empty());
    let none = seq!['{', '}'];
    assert(skip_space(none, 0) == 0);
    assert(skip_space(none, 1) == 1);
    let t = seq!['{'] + pair(a, x) + seq![','] + pair(b, y) + seq!['}'];
    assert(t[0] == '{');
    assert(skip_space(t, 0) == 0);
    let rest = seq![','] + pair(b, y) + seq!['}'];
    assert(t =~= seq!['{'] + pair(a, x) + rest);
    lemma_member(seq!['{'], a, x, rest, Seq::empty());
    let front = seq!['{'] + pair(a, x) + seq![','];
    assert(t =~= front + pair(b, y) + seq!['}']);
    let first = MemberView {
        name: name_of(seq!['"'] + a + seq!['"']),
        colon: 1int + a.len() + 2,
        start: 1int + a.len() + 3,
        end: 1int + a.len() + 3 + x.len(),
    };
    assert(front.len() == first.end + 1);
    lemma_member(front, b, y, seq!['}'], Seq::empty().push(first));
}

/// An object in which a name stands twice is told from one in which every name
/// stands once.
pub proof fn law_names_that_stand_twice_are_seen(
    t: Seq<char>,
    depth: nat,
    i: int,
    k: int,
)
    requires
        0 <= i < k < members_of(t).len(),
        members_of(t)[i].name == members_of(t)[k].name,
        depth > 0,
    ensures
        !names_once(t, depth),
{
}

} // verus!
