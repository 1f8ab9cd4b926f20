//! The pool of toolsets that sessions take their tools from.

use crate::manifest::ToolsetEntry;
use crate::text;
use crate::text::{debug_of, joined, same};
use crate::tool;
use crate::tool::{copy_tools, ToolSchema};
use vstd::prelude::*;
use vstd::string::*;

verus! {

/// A named collection of tools, built from an entry of the manifest.
#[derive(Debug)]
pub struct Toolset {
    /// Names the toolset in messages.
    pub id: String,
    pub tools: Vec<ToolSchema>,
}

#[verifier::ext_equal]
pub ghost struct ToolsetView {
    pub id: Seq<char>,
    pub tools: Seq<tool::ToolSchemaView>,
}

impl DeepView for Toolset {
    type V = ToolsetView;

    open spec fn deep_view(&self) -> ToolsetView {
        ToolsetView { id: self.id@, tools: self.tools.deep_view() }
    }
}

/// The kinds of toolsets that the kernel can build.
pub fn default_registry() -> (r: Vec<String>)
    ensures
        r.deep_view() == seq!["mcp.stdio"@],
{
    let mut r: Vec<String> = Vec::new();
    r.push("mcp.stdio".to_owned());
    assert(r.deep_view() =~= seq!["mcp.stdio"@]);
    r
}

/// How `Debug` writes some texts.
pub open spec fn debug_texts(texts: Seq<Seq<char>>) -> Seq<char> {
    "["@ + text::join(Seq::new(texts.len(), |i: int| text::debug_text(texts[i])), ", "@) + "]"@
}

fn debug_of_texts(texts: &Vec<String>) -> (r: String)
    ensures
        r@ == debug_texts(texts.deep_view()),
{
    let ghost all = Seq::new(
        texts.deep_view().len(),
        |i: int| text::debug_text(texts.deep_view()[i]),
    );
    let mut shown: Vec<String> = Vec::new();
    let mut i: usize = 0;
    assert(shown.deep_view() =~= all.take(0));
    while i < texts.len()
        invariant
            all == Seq::new(
                texts.deep_view().len(),
                |i: int| text::debug_text(texts.deep_view()[i]),
            ),
            i <= texts@.len() == all.len(),
            shown.deep_view() == all.take(i as int),
        decreases texts@.len() - i,
    {
        let ghost before = shown.deep_view();
        shown.push(debug_of(texts[i].as_str()));
        assert(shown.deep_view() =~= before.push(all[i as int]));
        assert(all.take(i + 1) =~= before.push(all[i as int]));
        i += 1;
    }
    assert(all.take(i as int) =~= all);
    let mut r = "[".to_owned();
    r.push_str(joined(&shown, ", ").as_str());
    r.push_str("]");
    r
}

/// Checks that the kind of an entry is among those that can be built.
pub fn check_kind(entry: &ToolsetEntry, known: &Vec<String>) -> (r: Result<(), String>)
    ensures
        match r {
            Ok(_) => known.deep_view().contains(entry.kind@),
            Err(e) => !known.deep_view().contains(entry.kind@) && e@
                == "manifest entry [[toolset]] has unknown kind "@ + text::debug_text(entry.kind@)
                + "; known kinds: "@ + debug_texts(known.deep_view()),
        },
{
    let mut i: usize = 0;
    while i < known.len()
        invariant
            i <= known@.len() == known.deep_view().len(),
            forall|k: int| 0 <= k < i ==> #[trigger] known.deep_view()[k] != entry.kind@,
        decreases known@.len() - i,
    {
        if same(known[i].as_str(), entry.kind.as_str()) {
            assert(known.deep_view()[i as int] == entry.kind@);
            return Ok(());
        }
        i += 1;
    }
    let mut e = "manifest entry [[toolset]] has unknown kind ".to_owned();
    e.push_str(debug_of(entry.kind.as_str()).as_str());
    e.push_str("; known kinds: ");
    e.push_str(debug_of_texts(known).as_str());
    Err(e)
}

/// How `Debug` writes an id that may be missing.
pub open spec fn debug_id(id: Option<Seq<char>>) -> Seq<char> {
    match id {
        Some(id) => "Some("@ + text::debug_text(id) + ")"@,
        None => "None"@,
    }
}

/// What is said where the toolset of an entry could not be built, because of
/// `why`.
pub fn construct_error(entry: &ToolsetEntry, why: &str) -> (r: String)
    ensures
        r@ == "failed to construct toolset kind="@ + entry.kind@ + " id="@ + debug_id(
            entry.id.deep_view(),
        ) + ": "@ + why@,
{
    let id: String = match &entry.id {
        Some(id) => {
            let mut r = "Some(".to_owned();
            r.push_str(debug_of(id.as_str()).as_str());
            r.push_str(")");
            r
        },
        None => "None".to_owned(),
    };
    let mut r = "failed to construct toolset kind=".to_owned();
    r.push_str(entry.kind.as_str());
    r.push_str(" id=");
    r.push_str(id.as_str());
    r.push_str(": ");
    r.push_str(why);
    r
}

// ---------------------------------------------------------------------------
// Collisions
// ---------------------------------------------------------------------------

/// Where a tool of the given name stands among the first `n`.
pub open spec fn named_before(
    tools: Seq<tool::ToolSchemaView>,
    n: int,
    name: Seq<char>,
) -> bool {
    exists|k: int| 0 <= k < n && (#[trigger] tools[k]).name == name
}

/// The first of the first `t` toolsets that has a tool of the given name.
pub open spec fn owner_before(toolsets: Seq<ToolsetView>, t: int, name: Seq<char>) -> Option<
    Seq<char>,
>
    decreases t,
{
    if t <= 0 {
        None
    } else {
        match owner_before(toolsets, t - 1, name) {
            Some(owner) => Some(owner),
            None => if named_before(toolsets[t - 1].tools, toolsets[t - 1].tools.len() as int, name) {
                Some(toolsets[t - 1].id)
            } else {
                None
            },
        }
    }
}

/// What is wrong with the name of tool `k` of toolset `t`, given those before
/// it.
pub open spec fn conflict_at(toolsets: Seq<ToolsetView>, t: int, k: int) -> Option<Seq<char>> {
    let owner = toolsets[t].id;
    let name = toolsets[t].tools[k].name;
    if named_before(toolsets[t].tools, k, name) {
        Some(
            "toolset "@ + text::debug_text(owner) + " advertises tool "@ + text::debug_text(name)
                + " more than once"@,
        )
    } else {
        match owner_before(toolsets, t, name) {
            Some(prev) => Some(
                "tool name collision: "@ + text::debug_text(name) + " provided by both "@
                    + text::debug_text(prev) + " and "@ + text::debug_text(owner),
            ),
            None => None,
        }
    }
}

/// The first conflict among the names of the tools, from tool `k` of toolset
/// `t` on.
pub open spec fn conflict_from(toolsets: Seq<ToolsetView>, t: int, k: int) -> Option<Seq<char>>
    decreases toolsets.len() - t, toolsets[t].tools.len() - k,
{
    if t < 0 || t >= toolsets.len() {
        None
    } else if k < 0 || k >= toolsets[t].tools.len() {
        conflict_from(toolsets, t + 1, 0)
    } else {
        match conflict_at(toolsets, t, k) {
            Some(e) => Some(e),
            None => conflict_from(toolsets, t, k + 1),
        }
    }
}

/// The tools of some toolsets, one after the other.
pub open spec fn all_tools(toolsets: Seq<ToolsetView>) -> Seq<tool::ToolSchemaView>
    decreases toolsets.len(),
{
    if toolsets.len() == 0 {
        Seq::empty()
    } else {
        all_tools(toolsets.drop_last()) + toolsets.last().tools
    }
}

fn is_named_before(tools: &Vec<ToolSchema>, n: usize, name: &str) -> (r: bool)
    requires
        n <= tools@.len(),
    ensures
        r == named_before(tools.deep_view(), n as int, name@),
{
    let mut i: usize = 0;
    while i < n
        invariant
            i <= n <= tools@.len() == tools.deep_view().len(),
            forall|k: int| 0 <= k < i ==> (#[trigger] tools.deep_view()[k]).name != name@,
        decreases n - i,
    {
        if same(tools[i].name.as_str(), name) {
            assert(tools.deep_view()[i as int].name == name@);
            return true;
        }
        i += 1;
    }
    false
}

fn owner_among(toolsets: &Vec<Toolset>, t: usize, name: &str) -> (r: Option<usize>)
    requires
        t <= toolsets@.len(),
    ensures
        match r {
            Some(j) => j < t && owner_before(toolsets.deep_view(), t as int, name@) == Some(
                toolsets@[j as int].id@,
            ),
            None => owner_before(toolsets.deep_view(), t as int, name@) is None,
        },
{
    let ghost all = toolsets.deep_view();
    let mut found: Option<usize> = None;
    let mut i: usize = 0;
    while i < t
        invariant
            all == toolsets.deep_view(),
            i <= t <= toolsets@.len() == all.len(),
            match found {
                Some(j) => j < i && owner_before(all, i as int, name@) == Some(
                    toolsets@[j as int].id@,
                ),
                None => owner_before(all, i as int, name@) is None,
            },
        decreases t - i,
    {
        assert(all[i as int] == toolsets@[i as int].deep_view());
        let n: usize = toolsets[i].tools.len();
        if found.is_none() && is_named_before(&toolsets[i].tools, n, name) {
            found = Some(i);
        }
        i += 1;
    }
    found
}

/// The live toolsets. No two of their tools have the same name.
#[derive(Debug)]
pub struct ToolsetPool {
    toolsets: Vec<Toolset>,
}

impl ToolsetPool {
    /// The toolsets, in the order of the manifest.
    pub closed spec fn list(&self) -> Seq<ToolsetView> {
        self.toolsets.deep_view()
    }

    #[verifier::type_invariant]
    spec fn inv(self) -> bool {
        conflict_from(self.toolsets.deep_view(), 0, 0) is None
    }

    /// A pool of some toolsets, unless two of their tools have the same name:
    /// then the first such conflict is reported.
    pub fn of(toolsets: Vec<Toolset>) -> (r: Result<Self, String>)
        ensures
            match r {
                Ok(pool) => pool.list() == toolsets.deep_view() && conflict_from(
                    toolsets.deep_view(),
                    0,
                    0,
                ) is None,
                Err(e) => conflict_from(toolsets.deep_view(), 0, 0) == Some(e@),
            },
    {
        let ghost all = toolsets.deep_view();
        let mut t: usize = 0;
        while t < toolsets.len()
            invariant
                all == toolsets.deep_view(),
                t <= toolsets@.len() == all.len(),
                conflict_from(all, 0, 0) == conflict_from(all, t as int, 0),
            decreases toolsets@.len() - t,
        {
            let mut k: usize = 0;
            assert(all[t as int] == toolsets@[t as int].deep_view());
            while k < toolsets[t as usize].tools.len()
                invariant
                    all == toolsets.deep_view(),
                    t < toolsets@.len() == all.len(),
                    all[t as int] == toolsets@[t as int].deep_view(),
                    k <= toolsets@[t as int].tools@.len() == all[t as int].tools.len(),
                    conflict_from(all, 0, 0) == conflict_from(all, t as int, k as int),
                decreases toolsets@[t as int].tools@.len() - k,
            {
                let owner: &str = toolsets[t].id.as_str();
                let name: &str = toolsets[t].tools[k].name.as_str();
                assert(all[t as int].tools[k as int].name == name@);
                if is_named_before(&toolsets[t].tools, k, name) {
                    let mut e = "toolset ".to_owned();
                    e.push_str(debug_of(owner).as_str());
                    e.push_str(" advertises tool ");
                    e.push_str(debug_of(name).as_str());
                    e.push_str(" more than once");
                    return Err(e);
                }
                match owner_among(&toolsets, t, name) {
                    Some(j) => {
                        let mut e = "tool name collision: ".to_owned();
                        e.push_str(debug_of(name).as_str());
                        e.push_str(" provided by both ");
                        e.push_str(debug_of(toolsets[j].id.as_str()).as_str());
                        e.push_str(" and ");
                        e.push_str(debug_of(owner).as_str());
                        return Err(e);
                    },
                    None => {},
                }
                k += 1;
            }
            t += 1;
        }
        Ok(ToolsetPool { toolsets })
    }

    /// The tools for a new session: copies of those of every toolset.
    pub fn tools_for_session(&self) -> (r: Vec<ToolSchema>)
        ensures
            r.deep_view() == all_tools(self.list()),
            conflict_from(self.list(), 0, 0) is None,
    {
        proof {
            use_type_invariant(self);
        }
        let ghost all = self.toolsets.deep_view();
        let mut r: Vec<ToolSchema> = Vec::new();
        let mut i: usize = 0;
        assert(r.deep_view() =~= Seq::empty());
        assert(all.take(0) =~= Seq::empty());
        while i < self.toolsets.len()
            invariant
                all == self.toolsets.deep_view(),
                i <= self.toolsets@.len() == all.len(),
                r.deep_view() == all_tools(all.take(i as int)),
            decreases all.len() - i,
        {
            let ghost before = r.deep_view();
            let mut more = copy_tools(&self.toolsets[i].tools);
            let ghost added = more.deep_view();
            r.append(&mut more);
            assert(r.deep_view() =~= before + added);
            assert(all.take(i + 1).drop_last() =~= all.take(i as int));
            i += 1;
        }
        assert(all.take(i as int) =~= all);
        r
    }
}

// ---------------------------------------------------------------------------
// Laws
// ---------------------------------------------------------------------------

proof fn lemma_no_conflict(toolsets: Seq<ToolsetView>, t: int, k: int, u: int, m: int)
    requires
        0 <= t < toolsets.len(),
        0 <= k <= toolsets[t].tools.len(),
        t <= u < toolsets.len(),
        0 <= m < toolsets[u].tools.len(),
        t == u ==> k <= m,
        conflict_from(toolsets, t, k) is None,
    ensures
        conflict_at(toolsets, u, m) is None,
    decreases toolsets.len() - t, toolsets[t].tools.len() - k,
{
    if k >= toolsets[t].tools.len() {
        lemma_no_conflict(toolsets, t + 1, 0, u, m);
    } else if t < u || k < m {
        lemma_no_conflict(toolsets, t, k + 1, u, m);
    }
}

proof fn lemma_owned(toolsets: Seq<ToolsetView>, t: int, u: int, m: int)
    requires
        0 <= u < t <= toolsets.len(),
        0 <= m < toolsets[u].tools.len(),
    ensures
        owner_before(toolsets, t, toolsets[u].tools[m].name) is Some,
    decreases t,
{
    if u < t - 1 {
        lemma_owned(toolsets, t - 1, u, m);
    }
}

/// In a pool that could be built, no two tools have the same name, be they of
/// one toolset or of two.
pub proof fn law_tool_names_are_unique(
    toolsets: Seq<ToolsetView>,
    t: int,
    k: int,
    u: int,
    m: int,
)
    requires
        conflict_from(toolsets, 0, 0) is None,
        0 <= t < toolsets.len(),
        0 <= k < toolsets[t].tools.len(),
        0 <= u < toolsets.len(),
        0 <= m < toolsets[u].tools.len(),
    ensures
        toolsets[t].tools[k].name == toolsets[u].tools[m].name <==> t == u && k == m,
{
    if t < u || (t == u && k < m) {
        lemma_later_name(toolsets, t, k, u, m);
    } else if u < t || m < k {
        lemma_later_name(toolsets, u, m, t, k);
    }
}

proof fn lemma_later_name(toolsets: Seq<ToolsetView>, t: int, k: int, u: int, m: int)
    requires
        conflict_from(toolsets, 0, 0) is None,
        0 <= t <= u < toolsets.len(),
        0 <= k < toolsets[t].tools.len(),
        0 <= m < toolsets[u].tools.len(),
        t == u ==> k < m,
    ensures
        toolsets[t].tools[k].name != toolsets[u].tools[m].name,
{
    lemma_no_conflict(toolsets, 0, 0, u, m);
    if t < u && toolsets[t].tools[k].name == toolsets[u].tools[m].name {
        lemma_owned(toolsets, u, t, k);
    }
}

/// The tools of a session are those of every toolset, one toolset after the other.
pub proof fn law_sessions_get_every_tool(a: Seq<ToolsetView>, b: Seq<ToolsetView>, one: ToolsetView)
    ensures
        all_tools(a + b) == all_tools(a) + all_tools(b),
        all_tools(seq![one]) == one.tools,
    decreases b.len(),
{
    reveal_with_fuel(all_tools, 2);
    assert(seq![one].drop_last() =~= Seq::empty());
    assert(all_tools(seq![one]) =~= one.tools);
    if b.len() == 0 {
        assert(a + b =~= a);
        assert(all_tools(a) + all_tools(b) =~= all_tools(a));
    } else {
        assert((a + b).drop_last() =~= a + b.drop_last());
        law_sessions_get_every_tool(a, b.drop_last(), one);
        assert(all_tools(a + b) =~= all_tools(a) + all_tools(b));
    }
}

/// A conflict is told only where two tools have the same name: it is that of a tool
/// whose name one before it in its own toolset has, or one of an earlier toolset.
pub proof fn law_conflicts_are_real(toolsets: Seq<ToolsetView>)
    requires
        forall|t: int, k: int, u: int, m: int|
            #![trigger toolsets[t].tools[k], toolsets[u].tools[m]]
            0 <= t < toolsets.len() && 0 <= k < toolsets[t].tools.len() && 0 <= u < toolsets.len()
                && 0 <= m < toolsets[u].tools.len() && (t != u || k != m)
                ==> toolsets[t].tools[k].name != toolsets[u].tools[m].name,
    ensures
        conflict_from(toolsets, 0, 0) is None,
{
    lemma_no_conflict_from(toolsets, 0, 0);
}

proof fn lemma_no_conflict_from(toolsets: Seq<ToolsetView>, t: int, k: int)
    requires
        0 <= t <= toolsets.len(),
        0 <= k,
        forall|t: int, k: int, u: int, m: int|
            #![trigger toolsets[t].tools[k], toolsets[u].tools[m]]
            0 <= t < toolsets.len() && 0 <= k < toolsets[t].tools.len() && 0 <= u < toolsets.len()
                && 0 <= m < toolsets[u].tools.len() && (t != u || k != m)
                ==> toolsets[t].tools[k].name != toolsets[u].tools[m].name,
    ensures
        conflict_from(toolsets, t, k) is None,
    decreases toolsets.len() - t, toolsets[t].tools.len() - k,
{
    if t < toolsets.len() {
        if k >= toolsets[t].tools.len() {
            lemma_no_conflict_from(toolsets, t + 1, 0);
        } else {
            let name = toolsets[t].tools[k].name;
            if named_before(toolsets[t].tools, k, name) {
                let j = choose|j: int|
                    0 <= j < k && (#[trigger] toolsets[t].tools[j]).name == name;
                assert(toolsets[t].tools[j].name != toolsets[t].tools[k].name);
            }
            lemma_unowned(toolsets, t, t, k);
            lemma_no_conflict_from(toolsets, t, k + 1);
        }
    }
}

proof fn lemma_unowned(toolsets: Seq<ToolsetView>, n: int, t: int, k: int)
    requires
        0 <= n <= t < toolsets.len(),
        0 <= k < toolsets[t].tools.len(),
        forall|t: int, k: int, u: int, m: int|
            #![trigger toolsets[t].tools[k], toolsets[u].tools[m]]
            0 <= t < toolsets.len() && 0 <= k < toolsets[t].tools.len() && 0 <= u < toolsets.len()
                && 0 <= m < toolsets[u].tools.len() && (t != u || k != m)
                ==> toolsets[t].tools[k].name != toolsets[u].tools[m].name,
    ensures
        owner_before(toolsets, n, toolsets[t].tools[k].name) is None,
    decreases n,
{
    if n > 0 {
        lemma_unowned(toolsets, n - 1, t, k);
        let name = toolsets[t].tools[k].name;
        let tools = toolsets[n - 1].tools;
        if named_before(tools, tools.len() as int, name) {
            let j = choose|j: int| 0 <= j < tools.len() && (#[trigger] tools[j]).name == name;
            assert(toolsets[n - 1].tools[j].name != toolsets[t].tools[k].name);
        }
    }
}

/// A conflict is told with the name of the tool and of those that have it.
pub proof fn law_conflicts_name_the_tool(toolsets: Seq<ToolsetView>, t: int, k: int)
    requires
        0 <= t < toolsets.len(),
        0 <= k < toolsets[t].tools.len(),
    ensures
        conflict_at(toolsets, t, k) matches Some(e) ==> text::contains_text(
            e,
            text::debug_text(toolsets[t].tools[k].name),
        ) && text::contains_text(e, text::debug_text(toolsets[t].id)),
{
    let owner = text::debug_text(toolsets[t].id);
    let name = text::debug_text(toolsets[t].tools[k].name);
    if named_before(toolsets[t].tools, k, toolsets[t].tools[k].name) {
        let e = "toolset "@ + owner + " advertises tool "@ + name + " more than once"@;
        text::lemma_contained_between(
            "toolset "@ + owner + " advertises tool "@,
            name,
            " more than once"@,
        );
        text::lemma_contained_between(
            "toolset "@,
            owner,
            " advertises tool "@ + name + " more than once"@,
        );
        assert(e =~= "toolset "@ + owner + (" advertises tool "@ + name + " more than once"@));
    } else if let Some(prev) = owner_before(toolsets, t, toolsets[t].tools[k].name) {
        let before = text::debug_text(prev);
        let start = "tool name collision: "@ + name + " provided by both "@ + before + " and "@;
        text::lemma_contained_between(start, owner, Seq::empty());
        assert(start + owner + Seq::empty() =~= start + owner);
        let rest = " provided by both "@ + before + " and "@ + owner;
        text::lemma_contained_between("tool name collision: "@, name, rest);
        assert("tool name collision: "@ + name + rest =~= start + owner);
    }
}

} // verus!
