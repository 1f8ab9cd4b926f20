//! The system prompt, put together from named sections.

pub mod sections;

use crate::prompt::sections::{
    actions_section, doing_tasks_section, git_section, system_section, tool_usage_section,
};
use crate::text;
use crate::text::trimmed;
use vstd::prelude::*;
use vstd::string::*;

verus! {

/// What the sections of a prompt speak of.
#[derive(Debug)]
pub struct PromptContext {
    pub workspace: String,
    pub tool_names: Vec<String>,
}

/// A prompt that is put together section by section.
#[derive(Debug)]
pub struct PromptBuilder {
    sections: Vec<(String, String)>,
}

/// A section: a heading of the first level, an empty line, and the body without
/// white space around it.
pub open spec fn section_text(heading: Seq<char>, body: Seq<char>) -> Seq<char> {
    "# "@ + heading + "\n\n"@ + text::trim(body) + "\n"@
}

/// The text of some sections, with an empty line between any two.
pub open spec fn prompt_text(sections: Seq<(Seq<char>, Seq<char>)>) -> Seq<char>
    decreases sections.len(),
{
    if sections.len() == 0 {
        Seq::empty()
    } else {
        let last = section_text(sections.last().0, sections.last().1);
        if sections.len() == 1 {
            last
        } else {
            prompt_text(sections.drop_last()) + "\n"@ + last
        }
    }
}

impl View for PromptBuilder {
    type V = Seq<(Seq<char>, Seq<char>)>;

    closed spec fn view(&self) -> Seq<(Seq<char>, Seq<char>)> {
        Seq::new(self.sections@.len(), |i: int| (self.sections@[i].0@, self.sections@[i].1@))
    }
}

impl PromptBuilder {
    /// A prompt without sections.
    pub fn new() -> (r: Self)
        ensures
            r@ == Seq::<(Seq<char>, Seq<char>)>::empty(),
    {
        let r = PromptBuilder { sections: Vec::new() };
        assert(r@ =~= Seq::<(Seq<char>, Seq<char>)>::empty());
        r
    }

    /// The prompt with one more section.
    pub fn section(self, heading: &str, body: &str) -> (r: Self)
        ensures
            r@ == self@.push((heading@, body@)),
    {
        let ghost before = self@;
        let mut sections = self.sections;
        sections.push((heading.to_owned(), body.to_owned()));
        let r = PromptBuilder { sections };
        assert(r@ =~= before.push((heading@, body@)));
        r
    }

    /// The text of the prompt.
    pub fn build(self) -> (r: String)
        ensures
            r@ == prompt_text(self@),
    {
        let ghost all = self@;
        let mut out = String::new();
        let mut i: usize = 0;
        assert(all.take(0) =~= Seq::empty());
        assert(out@ =~= Seq::empty());
        while i < self.sections.len()
            invariant
                all == self@,
                i <= all.len() == self.sections@.len(),
                out@ == prompt_text(all.take(i as int)),
            decreases all.len() - i,
        {
            let ghost before = out@;
            assert(all.take(i + 1).drop_last() =~= all.take(i as int));
            assert(all[i as int] == (self.sections@[i as int].0@, self.sections@[i as int].1@));
            if i > 0 {
                out.push_str("\n");
            }
            let ghost start = out@;
            out.push_str("# ");
            out.push_str(self.sections[i].0.as_str());
            out.push_str("\n\n");
            out.push_str(trimmed(self.sections[i].1.as_str()).as_str());
            out.push_str("\n");
            assert(out@ =~= start + section_text(all[i as int].0, all[i as int].1));
            i += 1;
        }
        assert(all.take(i as int) =~= all);
        out
    }
}

/// The sections of the system prompt.
pub open spec fn system_sections(workspace: Seq<char>, tool_names: Seq<Seq<char>>) -> Seq<
    (Seq<char>, Seq<char>),
> {
    seq![
        ("System"@, sections::system_body(workspace, tool_names)),
        ("Doing tasks"@, sections::doing_tasks_body()),
        ("Executing actions with care"@, sections::actions_body()),
        ("Tool usage"@, sections::tool_usage_body(tool_names)),
        ("Git workflows"@, sections::git_body()),
    ]
}

/// The system prompt of the coding agent.
pub fn build_system_prompt(ctx: &PromptContext) -> (r: String)
    ensures
        r@ == prompt_text(system_sections(ctx.workspace@, ctx.tool_names.deep_view())),
{
    let builder = PromptBuilder::new().section("System", system_section(ctx).as_str()).section(
        "Doing tasks",
        doing_tasks_section().as_str(),
    ).section("Executing actions with care", actions_section().as_str()).section(
        "Tool usage",
        tool_usage_section(ctx).as_str(),
    ).section("Git workflows", git_section().as_str());
    assert(builder@ =~= system_sections(ctx.workspace@, ctx.tool_names.deep_view()));
    builder.build()
}

// ---------------------------------------------------------------------------
// Laws
// ---------------------------------------------------------------------------

proof fn lemma_inside(a: Seq<char>, b: Seq<char>, c: Seq<char>)
    ensures
        text::occurs_at(a + b + c, b, a.len() as int),
        text::contains_text(a + b + c, b),
{
    assert((a + b + c).subrange(a.len() as int, (a.len() + b.len()) as int) =~= b);
    assert(text::occurs_at(a + b + c, b, a.len() as int));
}

proof fn lemma_contains_within(s: Seq<char>, t: Seq<char>, u: Seq<char>)
    requires
        text::contains_text(s, t),
        text::contains_text(t, u),
    ensures
        text::contains_text(s, u),
{
    let i = choose|i: int| text::occurs_at(s, t, i);
    let j = choose|j: int| text::occurs_at(t, u, j);
    assert(s.subrange(i + j, i + j + u.len()) =~= s.subrange(i, i + t.len()).subrange(
        j,
        j + u.len(),
    ));
    assert(text::occurs_at(s, u, i + j));
}

/// Every section stands in the prompt, under its heading and in full.
pub proof fn law_every_section_is_in_the_prompt(
    sections: Seq<(Seq<char>, Seq<char>)>,
    i: int,
)
    requires
        0 <= i < sections.len(),
    ensures
        text::contains_text(
            prompt_text(sections),
            section_text(sections[i].0, sections[i].1),
        ),
    decreases sections.len(),
{
    let own = section_text(sections[i].0, sections[i].1);
    let last = section_text(sections.last().0, sections.last().1);
    if sections.len() == 1 {
        lemma_inside(Seq::empty(), own, Seq::empty());
        assert(Seq::empty() + own + Seq::empty() =~= own);
    } else if i == sections.len() - 1 {
        let before = prompt_text(sections.drop_last()) + "\n"@;
        lemma_inside(before, own, Seq::empty());
        assert(before + own + Seq::empty() =~= before + own);
    } else {
        let before = prompt_text(sections.drop_last());
        law_every_section_is_in_the_prompt(sections.drop_last(), i);
        lemma_inside(Seq::empty(), before, "\n"@ + last);
        assert(Seq::empty() + before + ("\n"@ + last) =~= before + "\n"@ + last);
        lemma_contains_within(prompt_text(sections), before, own);
    }
}

proof fn lemma_trim_start_keeps(a: Seq<char>, b: Seq<char>)
    requires
        a.len() > 0,
        !text::white(a.last()),
    ensures
        exists|k: int|
            0 <= k < a.len() && #[trigger] text::trim_start(a + b) == (a + b).skip(k),
    decreases a.len(),
{
    if text::white(a[0]) {
        let rest = a.drop_first();
        assert((a + b).drop_first() =~= rest + b);
        lemma_trim_start_keeps(rest, b);
        let k = choose|k: int|
            0 <= k < rest.len() && #[trigger] text::trim_start(rest + b) == (rest + b).skip(k);
        assert((rest + b).skip(k) =~= (a + b).skip(k + 1));
        assert(text::trim_start(a + b) == (a + b).skip(k + 1));
    } else {
        assert((a + b).skip(0) =~= a + b);
        assert(text::trim_start(a + b) == (a + b).skip(0));
    }
}

proof fn lemma_trim_end_keeps(a: Seq<char>, b: Seq<char>)
    requires
        b.len() > 0,
        !text::white(b[0]),
    ensures
        exists|k: int| 0 < k <= b.len() && #[trigger] text::trim_end(a + b) == a + b.take(k),
    decreases b.len(),
{
    if text::white(b.last()) {
        let rest = b.drop_last();
        assert((a + b).drop_last() =~= a + rest);
        lemma_trim_end_keeps(a, rest);
        let k = choose|k: int|
            0 < k <= rest.len() && #[trigger] text::trim_end(a + rest) == a + rest.take(k);
        assert(rest.take(k) =~= b.take(k));
        assert(text::trim_end(a + b) == a + b.take(k));
    } else {
        assert(b.take(b.len() as int) =~= b);
        assert(text::trim_end(a + b) == a + b.take(b.len() as int));
    }
}

/// White space is trimmed around what stands between two other characters, not
/// within.
proof fn lemma_trim_keeps_middle(a: Seq<char>, b: Seq<char>, c: Seq<char>)
    requires
        a.len() > 0,
        !text::white(a.last()),
        c.len() > 0,
        !text::white(c[0]),
    ensures
        text::contains_text(text::trim(a + b + c), b),
{
    lemma_trim_start_keeps(a, b + c);
    let k = choose|k: int|
        0 <= k < a.len() && #[trigger] text::trim_start(a + (b + c)) == (a + (b + c)).skip(k);
    assert(a + (b + c) =~= a + b + c);
    let head = a.skip(k) + b;
    assert((a + (b + c)).skip(k) =~= head + c);
    lemma_trim_end_keeps(head, c);
    let m = choose|m: int| 0 < m <= c.len() && #[trigger] text::trim_end(head + c) == head + c.take(m);
    lemma_inside(a.skip(k), b, c.take(m));
}

/// The system prompt names the workspace and all the tools.
pub proof fn law_the_prompt_names_workspace_and_tools(
    workspace: Seq<char>,
    tool_names: Seq<Seq<char>>,
)
    ensures
        text::contains_text(prompt_text(system_sections(workspace, tool_names)), workspace),
        text::contains_text(
            prompt_text(system_sections(workspace, tool_names)),
            text::join(tool_names, ", "@),
        ),
{
    let all = system_sections(workspace, tool_names);
    let names = text::join(tool_names, ", "@);
    let body = all[0].1;
    let intro = sections::SYSTEM_INTRO@;
    let between = sections::SYSTEM_TOOLS@;
    let rest = "."@ + sections::SYSTEM_REST@;
    reveal_strlit("You are a coding assistant working in the directory `");
    reveal_strlit("`.\n\nYou have access to these tools: ");
    assert("You are a coding assistant working in the directory `"@.last() == '`');
    assert("`.\n\nYou have access to these tools: "@[0] == '`');
    law_every_section_is_in_the_prompt(all, 0);
    let own = section_text(all[0].0, body);
    let before = "# "@ + all[0].0 + "\n\n"@;
    lemma_inside(before, text::trim(body), "\n"@);
    lemma_contains_within(prompt_text(all), own, text::trim(body));
    assert(body =~= intro + workspace + (between + names + rest));
    lemma_trim_keeps_middle(intro, workspace, between + names + rest);
    lemma_contains_within(prompt_text(all), text::trim(body), workspace);
    reveal_strlit(".");
    assert("."@.len() == 1);
    assert("."@[0] == '.');
    let head = intro + workspace + between.take(1);
    assert(body =~= head + (between.skip(1) + names) + rest);
    lemma_trim_keeps_middle(head, between.skip(1) + names, rest);
    lemma_inside(between.skip(1), names, Seq::empty());
    assert(between.skip(1) + names + Seq::empty() =~= between.skip(1) + names);
    lemma_contains_within(text::trim(body), between.skip(1) + names, names);
    lemma_contains_within(prompt_text(all), text::trim(body), names);
}

/// A prompt grows at its end: one more section stands behind all others and an
/// empty line, under its heading, with its body as it is but for white space around
/// it.
pub proof fn law_sections_keep_their_order(
    sections: Seq<(Seq<char>, Seq<char>)>,
    heading: Seq<char>,
    body: Seq<char>,
)
    ensures
        ({
            let more = "# "@ + heading + "\n\n"@ + text::trim(body) + "\n"@;
            &&& sections.len() > 0 ==> prompt_text(sections.push((heading, body))) == prompt_text(
                sections,
            ) + "\n"@ + more
            &&& sections.len() == 0 ==> prompt_text(sections.push((heading, body))) == more
        }),
        prompt_text(Seq::empty()).len() == 0,
{
    assert(sections.push((heading, body)).drop_last() =~= sections);
}

/// The system prompt has its sections under these headings, in this order. It says
/// how many tools there are, and names them in their order.
pub proof fn law_the_sections_of_the_prompt(workspace: Seq<char>, tool_names: Seq<Seq<char>>)
    ensures
        ({
            let all = system_sections(workspace, tool_names);
            &&& all.len() == 5
            &&& all[0].0 == "System"@
            &&& all[1].0 == "Doing tasks"@
            &&& all[2].0 == "Executing actions with care"@
            &&& all[3].0 == "Tool usage"@
            &&& all[4].0 == "Git workflows"@
            &&& all[1].1 == sections::TASKS@
            &&& all[2].1 == sections::ACTIONS@
            &&& all[4].1 == sections::GIT@
            &&& text::begins_with(
                all[3].1,
                sections::TOOLS_INTRO@ + text::decimal(tool_names.len()) + sections::TOOLS_NAMES@
                    + text::join(tool_names, ", "@),
            )
            &&& text::begins_with(
                all[0].1,
                sections::SYSTEM_INTRO@ + workspace + sections::SYSTEM_TOOLS@ + text::join(
                    tool_names,
                    ", "@,
                ),
            )
        }),
{
    let all = system_sections(workspace, tool_names);
    let names = text::join(tool_names, ", "@);
    let a = sections::TOOLS_INTRO@ + text::decimal(tool_names.len()) + sections::TOOLS_NAMES@
        + names;
    assert(all[3].1.subrange(0, a.len() as int) =~= a);
    let b = sections::SYSTEM_INTRO@ + workspace + sections::SYSTEM_TOOLS@ + names;
    assert(all[0].1.subrange(0, b.len() as int) =~= b);
}

} // verus!
