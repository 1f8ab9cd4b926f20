//! The context manager: it owns the conversation, its token budget and the
//! event stream that records every change of it.

use crate::context_store;
use crate::context_store::{ContextStore, InMemoryContextStore, ToolExchange, Turn};
use crate::event_log;
use crate::json;
use crate::json::Json;
use crate::session_events;
use crate::session_events::{
    now_millis, NullSink, SessionEvent, SessionEventSink, WorkspaceFingerprint,
};
use crate::text;
use crate::text::{byte_len_of, decimal_of, is_blank, joined, same};
use crate::tool::ToolSchema;
use crate::types;
use crate::types::{Content, Invalidation, Message, Prompt, Role};
use vstd::prelude::*;
use vstd::string::*;

verus! {

// ---------------------------------------------------------------------------
// Configuration
// ---------------------------------------------------------------------------

/// A fraction.
#[derive(Debug, Clone, Copy)]
pub struct Ratio {
    numer: u32,
    denom: u32,
}

impl Ratio {
    pub closed spec fn over(&self) -> nat {
        self.numer as nat
    }

    pub closed spec fn under(&self) -> nat {
        self.denom as nat
    }

    #[verifier::type_invariant]
    spec fn inv(self) -> bool {
        self.denom > 0
    }

    /// The fraction `numer / denom`.
    pub fn new(numer: u32, denom: u32) -> (r: Self)
        requires
            denom > 0,
        ensures
            r.over() == numer,
            r.under() == denom,
    {
        Ratio { numer, denom }
    }

    /// Whether `a / b` is at least this fraction. Nothing but nothing is less
    /// than a fraction of nothing.
    pub fn at_most(&self, a: usize, b: usize) -> (r: bool)
        ensures
            r == reaches(a as nat, b as nat, *self),
    {
        if b == 0 {
            return a > 0;
        }
        let left: u128 = mul128(a, self.denom);
        let right: u128 = mul128(b, self.numer);
        proof {
            assert(self.numer as nat * b as nat == b as nat * self.numer as nat) by (nonlinear_arith);
        }
        left >= right
    }

    /// This fraction of `n`, rounded down.
    pub fn floor_of(&self, n: usize) -> (r: u128)
        ensures
            self.under() > 0,
            r == n as nat * self.over() / self.under(),
    {
        proof {
            use_type_invariant(self);
        }
        mul128(n, self.numer) / (self.denom as u128)
    }

    /// This fraction of `n`, rounded up.
    pub fn ceil_of(&self, n: usize) -> (r: u128)
        ensures
            self.under() > 0,
            r == (n as nat * self.over() + self.under() - 1) as nat / self.under(),
    {
        proof {
            use_type_invariant(self);
        }
        let product: u128 = mul128(n, self.numer);
        (product + (self.denom as u128 - 1)) / (self.denom as u128)
    }
}

fn mul128(a: usize, b: u32) -> (r: u128)
    ensures
        r == a as nat * b as nat,
        r <= 0xffff_ffff_ffff_ffffu128 * 0xffff_ffffu128,
{
    assert(a as int * b as int <= 0xffff_ffff_ffff_ffff * 0xffff_ffff) by (nonlinear_arith)
        requires
            0 <= a <= 0xffff_ffff_ffff_ffff,
            0 <= b <= 0xffff_ffff,
    ;
    assert(0 <= a as int * b as int) by (nonlinear_arith)
        requires
            0 <= a,
            0 <= b,
    ;
    (a as u128) * (b as u128)
}

/// Whether `a / b` is at least `r`.
pub open spec fn reaches(a: nat, b: nat, r: Ratio) -> bool {
    if b == 0 {
        a > 0
    } else {
        a * r.under() >= r.over() * b
    }
}

/// Configuration for the context manager.
#[derive(Debug, Clone, Copy)]
pub struct ContextConfig {
    /// Total context window size in tokens.
    pub context_window: usize,
    /// Compaction is due at this fraction of the window.
    pub compaction_threshold: Ratio,
    /// The largest fraction of the window that the system prompt should take.
    pub system_prompt_budget: Ratio,
    /// The fraction of the turns that compaction leaves as they are.
    pub verbatim_tail_ratio: Ratio,
    /// Fewest seconds between two compactions.
    pub compaction_cooldown_secs: u64,
    /// After so many failures in a row compaction is halted.
    pub max_compaction_failures: u32,
}

/// Whether a configuration is the default one.
pub open spec fn is_default_config(config: ContextConfig) -> bool {
    &&& config.context_window == 200_000
    &&& config.compaction_threshold.over() == 65 && config.compaction_threshold.under() == 100
    &&& config.system_prompt_budget.over() == 15 && config.system_prompt_budget.under() == 100
    &&& config.verbatim_tail_ratio.over() == 30 && config.verbatim_tail_ratio.under() == 100
    &&& config.compaction_cooldown_secs == 30
    &&& config.max_compaction_failures == 3
}

impl Default for ContextConfig {
    fn default() -> (r: Self)
        ensures
            is_default_config(r),
    {
        ContextConfig {
            context_window: 200_000,
            compaction_threshold: Ratio::new(65, 100),
            system_prompt_budget: Ratio::new(15, 100),
            verbatim_tail_ratio: Ratio::new(30, 100),
            compaction_cooldown_secs: 30,
            max_compaction_failures: 3,
        }
    }
}

// ---------------------------------------------------------------------------
// Scratchpad
// ---------------------------------------------------------------------------

/// A step of the plan.
#[derive(Debug)]
pub struct PlanStep {
    pub description: String,
    pub completed: bool,
}

pub ghost struct PlanStepView {
    pub description: Seq<char>,
    pub completed: bool,
}

impl DeepView for PlanStep {
    type V = PlanStepView;

    open spec fn deep_view(&self) -> PlanStepView {
        PlanStepView { description: self.description@, completed: self.completed }
    }
}

/// Working memory that survives compaction.
#[derive(Debug)]
pub struct Scratchpad {
    /// Task plan steps.
    pub plan: Vec<PlanStep>,
    /// Constraints the model must not forget.
    pub constraints: Vec<String>,
    /// Free-form notes.
    pub notes: Vec<String>,
}

#[verifier::ext_equal]
pub ghost struct ScratchpadView {
    pub plan: Seq<PlanStepView>,
    pub constraints: Seq<Seq<char>>,
    pub notes: Seq<Seq<char>>,
}

impl DeepView for Scratchpad {
    type V = ScratchpadView;

    open spec fn deep_view(&self) -> ScratchpadView {
        ScratchpadView {
            plan: self.plan.deep_view(),
            constraints: self.constraints.deep_view(),
            notes: self.notes.deep_view(),
        }
    }
}

/// The scratchpad with nothing on it.
pub open spec fn empty_scratchpad() -> ScratchpadView {
    ScratchpadView { plan: Seq::empty(), constraints: Seq::empty(), notes: Seq::empty() }
}

impl Default for Scratchpad {
    fn default() -> (r: Self)
        ensures
            r.deep_view() == empty_scratchpad(),
    {
        let r = Scratchpad { plan: Vec::new(), constraints: Vec::new(), notes: Vec::new() };
        assert(r.deep_view() =~= empty_scratchpad());
        r
    }
}

/// `base` and a line for each constraint.
pub open spec fn with_constraints(base: Seq<char>, constraints: Seq<Seq<char>>) -> Seq<char>
    decreases constraints.len(),
{
    if constraints.len() == 0 {
        base
    } else {
        with_constraints(base, constraints.drop_last()) + "CONSTRAINT: "@ + constraints.last()
            + "\n"@
    }
}

/// `base` and a numbered line for each step of the plan.
pub open spec fn with_plan(base: Seq<char>, plan: Seq<PlanStepView>) -> Seq<char>
    decreases plan.len(),
{
    if plan.len() == 0 {
        base
    } else {
        with_plan(base, plan.drop_last()) + "["@ + (if plan.last().completed {
            "x"@
        } else {
            " "@
        }) + "] "@ + text::decimal(plan.len()) + ". "@ + plan.last().description + "\n"@
    }
}

/// `base` and a line for each note.
pub open spec fn with_notes(base: Seq<char>, notes: Seq<Seq<char>>) -> Seq<char>
    decreases notes.len(),
{
    if notes.len() == 0 {
        base
    } else {
        with_notes(base, notes.drop_last()) + "NOTE: "@ + notes.last() + "\n"@
    }
}

/// The system prompt with the scratchpad behind it, where anything is on it.
pub open spec fn system_text(prompt: Seq<char>, pad: ScratchpadView) -> Seq<char> {
    if pad.plan.len() == 0 && pad.constraints.len() == 0 && pad.notes.len() == 0 {
        prompt
    } else {
        with_notes(
            with_plan(
                with_constraints(prompt + "\n\n<scratchpad>\n"@, pad.constraints),
                pad.plan,
            ),
            pad.notes,
        ) + "</scratchpad>"@
    }
}

fn system_text_of(prompt: &str, pad: &Scratchpad) -> (r: String)
    ensures
        r@ == system_text(prompt@, pad.deep_view()),
{
    let mut r = prompt.to_owned();
    if pad.plan.len() == 0 && pad.constraints.len() == 0 && pad.notes.len() == 0 {
        return r;
    }
    r.push_str("\n\n<scratchpad>\n");
    let ghost start = r@;
    let ghost view = pad.deep_view();
    let mut i: usize = 0;
    assert(view.constraints.take(0) =~= Seq::empty());
    while i < pad.constraints.len()
        invariant
            view == pad.deep_view(),
            i <= view.constraints.len(),
            r@ == with_constraints(start, view.constraints.take(i as int)),
        decreases view.constraints.len() - i,
    {
        r.push_str("CONSTRAINT: ");
        r.push_str(pad.constraints[i].as_str());
        r.push_str("\n");
        assert(view.constraints.take(i + 1).drop_last() =~= view.constraints.take(i as int));
        i += 1;
    }
    assert(view.constraints.take(i as int) =~= view.constraints);
    let ghost constrained = r@;
    let mut k: usize = 0;
    assert(view.plan.take(0) =~= Seq::empty());
    while k < pad.plan.len()
        invariant
            view == pad.deep_view(),
            k <= view.plan.len(),
            r@ == with_plan(constrained, view.plan.take(k as int)),
        decreases view.plan.len() - k,
    {
        r.push_str("[");
        r.push_str(
            if pad.plan[k].completed {
                "x"
            } else {
                " "
            },
        );
        r.push_str("] ");
        r.push_str(decimal_of(k as u64 + 1).as_str());
        r.push_str(". ");
        r.push_str(pad.plan[k].description.as_str());
        r.push_str("\n");
        assert(view.plan.take(k + 1).drop_last() =~= view.plan.take(k as int));
        k += 1;
    }
    assert(view.plan.take(k as int) =~= view.plan);
    let ghost planned = r@;
    let mut m: usize = 0;
    assert(view.notes.take(0) =~= Seq::empty());
    while m < pad.notes.len()
        invariant
            view == pad.deep_view(),
            m <= view.notes.len(),
            r@ == with_notes(planned, view.notes.take(m as int)),
        decreases view.notes.len() - m,
    {
        r.push_str("NOTE: ");
        r.push_str(pad.notes[m].as_str());
        r.push_str("\n");
        assert(view.notes.take(m + 1).drop_last() =~= view.notes.take(m as int));
        m += 1;
    }
    assert(view.notes.take(m as int) =~= view.notes);
    r.push_str("</scratchpad>");
    r
}

// ---------------------------------------------------------------------------
// Estimates
// ---------------------------------------------------------------------------

/// The tokens that a text is taken to be: one for every four bytes begun.
pub open spec fn token_estimate(t: Seq<char>) -> nat {
    (text::byte_len(t) + 3) as nat / 4
}

/// The tokens that a text is taken to be: one for every four bytes begun.
pub fn estimate_tokens(t: &str) -> (n: usize)
    ensures
        n == token_estimate(t@),
        n <= usize::MAX / 4 + 1,
{
    let len: usize = byte_len_of(t);
    if len % 4 == 0 {
        len / 4
    } else {
        len / 4 + 1
    }
}

/// `a + b`, or the largest count where that is larger.
pub open spec fn plus(a: nat, b: nat) -> nat {
    if a + b > usize::MAX {
        usize::MAX as nat
    } else {
        a + b
    }
}

/// `a - b`, or nothing where `b` is larger.
pub open spec fn minus(a: nat, b: nat) -> nat {
    if a < b {
        0
    } else {
        (a - b) as nat
    }
}

// ---------------------------------------------------------------------------
// Messages
// ---------------------------------------------------------------------------

/// The texts in `content` that are not blank.
pub open spec fn spoken(content: Seq<types::ContentView>) -> Seq<types::ContentView>
    decreases content.len(),
{
    if content.len() == 0 {
        Seq::empty()
    } else {
        let rest = spoken(content.drop_last());
        match content.last() {
            types::ContentView::Text(t) => if text::trim(t).len() > 0 {
                rest.push(types::ContentView::Text(t))
            } else {
                rest
            },
            _ => rest,
        }
    }
}

/// The id by which call and result number `i` of a turn go together.
pub open spec fn call_id(i: int) -> Seq<char> {
    "call_"@ + text::decimal(i as nat)
}

/// The tool calls of a turn.
pub open spec fn calls(exchanges: Seq<context_store::ToolExchangeView>) -> Seq<types::ContentView> {
    Seq::new(
        exchanges.len(),
        |i: int|
            types::ContentView::ToolCall {
                id: call_id(i),
                name: exchanges[i].tool_name,
                input: exchanges[i].input,
            },
    )
}

/// The tool results of a turn.
pub open spec fn results(exchanges: Seq<context_store::ToolExchangeView>) -> Seq<
    types::ContentView,
> {
    Seq::new(
        exchanges.len(),
        |i: int|
            types::ContentView::ToolResult { id: call_id(i), result: exchanges[i].result },
    )
}

/// The messages that a turn stands for: its input, then either its response,
/// or, where tools were called, what was said along with the calls, and the
/// results.
pub open spec fn turn_messages(turn: context_store::TurnView) -> Seq<types::MessageView> {
    if turn.tool_exchanges.len() > 0 {
        seq![
            turn.input,
            types::MessageView {
                role: Role::Assistant,
                content: (match turn.response {
                    Some(r) => spoken(r.content),
                    None => Seq::empty(),
                }) + calls(turn.tool_exchanges),
            },
            types::MessageView { role: Role::User, content: results(turn.tool_exchanges) },
        ]
    } else {
        match turn.response {
            Some(r) => seq![turn.input, r],
            None => seq![turn.input],
        }
    }
}

/// The messages that the turns stand for, in order.
pub open spec fn messages(turns: Seq<context_store::TurnView>) -> Seq<types::MessageView>
    decreases turns.len(),
{
    if turns.len() == 0 {
        Seq::empty()
    } else {
        messages(turns.drop_last()) + turn_messages(turns.last())
    }
}

fn call_id_of(i: usize) -> (r: String)
    ensures
        r@ == call_id(i as int),
{
    let mut r = "call_".to_owned();
    r.push_str(decimal_of(i as u64).as_str());
    r
}

fn spoken_of(content: &Vec<Content>) -> (r: Vec<Content>)
    ensures
        r.deep_view() == spoken(content.deep_view()),
{
    let ghost all = content.deep_view();
    let mut r: Vec<Content> = Vec::new();
    let mut i: usize = 0;
    assert(r.deep_view() =~= Seq::empty());
    while i < content.len()
        invariant
            all == content.deep_view(),
            i <= all.len(),
            r.deep_view() == spoken(all.take(i as int)),
        decreases all.len() - i,
    {
        let ghost before = r.deep_view();
        assert(all.take(i + 1).drop_last() =~= all.take(i as int));
        match &content[i] {
            Content::Text(t) => {
                if !is_blank(t.as_str()) {
                    r.push(Content::Text(t.clone()));
                    assert(r.deep_view() =~= before.push(all[i as int]));
                }
            },
            _ => {},
        }
        i += 1;
    }
    assert(all.take(i as int) =~= all);
    r
}

fn turn_messages_of(turn: &Turn) -> (r: Vec<Message>)
    ensures
        r.deep_view() == turn_messages(turn.deep_view()),
{
    let mut r: Vec<Message> = Vec::new();
    r.push(turn.input.clone());
    if turn.tool_exchanges.len() > 0 {
        let mut said: Vec<Content> = match &turn.response {
            Some(response) => spoken_of(&response.content),
            None => Vec::new(),
        };
        let ghost texts = said.deep_view();
        let ghost exchanges = turn.deep_view().tool_exchanges;
        assert(turn.response is None ==> texts =~= Seq::empty());
        let mut outcomes: Vec<Content> = Vec::new();
        let mut i: usize = 0;
        assert(said.deep_view() =~= texts + calls(exchanges).take(0));
        assert(outcomes.deep_view() =~= results(exchanges).take(0));
        while i < turn.tool_exchanges.len()
            invariant
                exchanges == turn.deep_view().tool_exchanges,
                i <= exchanges.len(),
                said.deep_view() == texts + calls(exchanges).take(i as int),
                outcomes.deep_view() == results(exchanges).take(i as int),
            decreases exchanges.len() - i,
        {
            let exchange = &turn.tool_exchanges[i];
            let ghost said_before = said.deep_view();
            let ghost outcomes_before = outcomes.deep_view();
            said.push(
                Content::ToolCall {
                    id: call_id_of(i),
                    name: exchange.tool_name.clone(),
                    input: exchange.input.clone(),
                },
            );
            outcomes.push(
                Content::ToolResult { id: call_id_of(i), result: exchange.result.clone() },
            );
            assert(said.deep_view() =~= said_before.push(calls(exchanges)[i as int]));
            assert(outcomes.deep_view() =~= outcomes_before.push(results(exchanges)[i as int]));
            assert(said.deep_view() =~= texts + calls(exchanges).take(i + 1));
            assert(outcomes.deep_view() =~= results(exchanges).take(i + 1));
            i += 1;
        }
        assert(calls(exchanges).take(i as int) =~= calls(exchanges));
        assert(results(exchanges).take(i as int) =~= results(exchanges));
        r.push(Message { role: Role::Assistant, content: said });
        r.push(Message { role: Role::User, content: outcomes });
    } else {
        match &turn.response {
            Some(response) => {
                r.push(response.clone());
            },
            None => {},
        }
    }
    assert(r.deep_view() =~= turn_messages(turn.deep_view()));
    r
}

// ---------------------------------------------------------------------------
// Summaries
// ---------------------------------------------------------------------------

/// The first hundred characters of each text in `content`.
pub open spec fn previews(content: Seq<types::ContentView>) -> Seq<Seq<char>>
    decreases content.len(),
{
    if content.len() == 0 {
        Seq::empty()
    } else {
        let rest = previews(content.drop_last());
        match content.last() {
            types::ContentView::Text(t) => rest.push(
                if t.len() > 100 {
                    t.take(100)
                } else {
                    t
                },
            ),
            _ => rest,
        }
    }
}

/// The names of the tools called in a turn.
pub open spec fn tool_names(exchanges: Seq<context_store::ToolExchangeView>) -> Seq<Seq<char>> {
    Seq::new(exchanges.len(), |i: int| exchanges[i].tool_name)
}

/// The summary of a turn: the start of its input and the tools it called.
pub open spec fn summary(turn: context_store::TurnView) -> Seq<char> {
    let head = "[summary] "@ + text::join(previews(turn.input.content), " "@);
    if turn.tool_exchanges.len() == 0 {
        head
    } else {
        head + " [tools: "@ + text::join(tool_names(turn.tool_exchanges), ", "@) + "]"@
    }
}

/// The summary of a turn: the start of its input and the tools it called.
pub fn summarize_turn(turn: &Turn) -> (r: String)
    ensures
        r@ == summary(turn.deep_view()),
{
    let ghost content = turn.deep_view().input.content;
    let mut starts: Vec<String> = Vec::new();
    let mut i: usize = 0;
    assert(starts.deep_view() =~= Seq::empty());
    while i < turn.input.content.len()
        invariant
            content == turn.deep_view().input.content,
            i <= content.len(),
            starts.deep_view() == previews(content.take(i as int)),
        decreases content.len() - i,
    {
        let ghost before = starts.deep_view();
        assert(content.take(i + 1).drop_last() =~= content.take(i as int));
        match &turn.input.content[i] {
            Content::Text(t) => {
                let n: usize = t.as_str().unicode_len();
                let start: String = if n > 100 {
                    let head = t.as_str().substring_char(0, 100);
                    assert(head@ =~= t@.take(100));
                    head.to_owned()
                } else {
                    t.clone()
                };
                let ghost added = start@;
                starts.push(start);
                assert(starts.deep_view() =~= before.push(added));
            },
            _ => {},
        }
        i += 1;
    }
    assert(content.take(i as int) =~= content);
    let mut r = "[summary] ".to_owned();
    r.push_str(joined(&starts, " ").as_str());
    if turn.tool_exchanges.len() > 0 {
        let ghost exchanges = turn.deep_view().tool_exchanges;
        let mut names: Vec<String> = Vec::new();
        let mut k: usize = 0;
        assert(names.deep_view() =~= tool_names(exchanges).take(0));
        while k < turn.tool_exchanges.len()
            invariant
                exchanges == turn.deep_view().tool_exchanges,
                k <= exchanges.len(),
                names.deep_view() == tool_names(exchanges).take(k as int),
            decreases exchanges.len() - k,
        {
            let ghost before = names.deep_view();
            names.push(turn.tool_exchanges[k].tool_name.clone());
            assert(names.deep_view() =~= before.push(exchanges[k as int].tool_name));
            assert(names.deep_view() =~= tool_names(exchanges).take(k + 1));
            k += 1;
        }
        assert(tool_names(exchanges).take(k as int) =~= tool_names(exchanges));
        r.push_str(" [tools: ");
        r.push_str(joined(&names, ", ").as_str());
        r.push_str("]");
    }
    r
}

/// A turn as compaction leaves it: its summary in place of what was said. A
/// turn that was summarized before is left alone.
pub open spec fn summarized(turn: context_store::TurnView) -> context_store::TurnView {
    if turn.summarized {
        turn
    } else {
        context_store::TurnView {
            input: types::MessageView {
                role: turn.input.role,
                content: seq![types::ContentView::Text(summary(turn))],
            },
            response: None,
            tool_exchanges: Seq::empty(),
            token_estimate: token_estimate(summary(turn)),
            summarized: true,
        }
    }
}

/// The tokens that summarizing a turn saves.
pub open spec fn saved(turn: context_store::TurnView) -> nat {
    minus(turn.token_estimate, summarized(turn).token_estimate)
}

/// The tokens that summarizing the first `n` turns saves.
pub open spec fn total_saved(turns: Seq<context_store::TurnView>, n: int) -> nat
    decreases n,
{
    if n <= 0 {
        0
    } else {
        plus(total_saved(turns, n - 1), saved(turns[n - 1]))
    }
}

/// The turns with the first `n` of them summarized.
pub open spec fn compacted_turns(turns: Seq<context_store::TurnView>, n: int) -> Seq<
    context_store::TurnView,
> {
    Seq::new(
        turns.len(),
        |i: int|
            if i < n {
                summarized(turns[i])
            } else {
                turns[i]
            },
    )
}

fn summarized_of(turn: &Turn) -> (r: Turn)
    ensures
        !turn.summarized ==> r.deep_view() == summarized(turn.deep_view()),
{
    let text = summarize_turn(turn);
    let token_estimate = estimate_tokens(text.as_str());
    let mut content: Vec<Content> = Vec::new();
    let ghost said = text@;
    content.push(Content::Text(text));
    let r = Turn {
        input: Message { role: turn.input.role, content },
        response: None,
        tool_exchanges: Vec::new(),
        token_estimate,
        summarized: true,
    };
    assert(r.input.content.deep_view() =~= seq![types::ContentView::Text(said)]);
    assert(r.tool_exchanges.deep_view() =~= Seq::empty());
    r
}

// ---------------------------------------------------------------------------
// The manager
// ---------------------------------------------------------------------------

/// `std::time::Instant`, a point of time on the monotonic clock.
#[verifier::external_type_specification]
#[verifier::external_body]
pub struct ExInstant(std::time::Instant);

/// `Instant::now`. Nothing is claimed of the time.
#[verifier::external_body]
fn instant_now() -> (r: std::time::Instant) {
    std::time::Instant::now()
}

/// `Instant::elapsed`. Nothing is claimed of the time.
#[verifier::external_body]
fn elapsed_since(since: &std::time::Instant) -> (r: std::time::Duration) {
    since.elapsed()
}

/// `Duration::as_secs`. Nothing is claimed of the time.
#[verifier::external_body]
fn secs_of(d: &std::time::Duration) -> (r: u64) {
    d.as_secs()
}

/// A tool whose definition is in context.
#[derive(Debug)]
pub struct PagedTool {
    pub name: String,
    pub definition: Json,
}

#[verifier::ext_equal]
pub ghost struct PagedToolView {
    pub name: Seq<char>,
    pub definition: json::JsonView,
}

impl DeepView for PagedTool {
    type V = PagedToolView;

    open spec fn deep_view(&self) -> PagedToolView {
        PagedToolView { name: self.name@, definition: self.definition.deep_view() }
    }
}

/// How much of the context window is used.
#[derive(Debug, Clone, Copy, PartialEq, Eq, Structural)]
pub struct Utilization {
    pub used: usize,
    pub window: usize,
}

/// The state of a context manager, but for its event stream.
#[verifier::ext_equal]
pub ghost struct ContextState {
    pub config: ContextConfig,
    pub system_prompt: Seq<char>,
    pub scratchpad: ScratchpadView,
    pub turns: Seq<context_store::TurnView>,
    pub file_cache: Map<Seq<char>, Seq<char>>,
    pub tools: Seq<PagedToolView>,
    pub tokens_used: nat,
    /// Compactions that failed since one last succeeded.
    pub failures: nat,
    /// Whether a compaction ever succeeded.
    pub compacted: bool,
}

/// The views of some turns.
pub open spec fn turn_views(turns: Seq<Turn>) -> Seq<context_store::TurnView> {
    Seq::new(turns.len(), |i: int| turns[i].deep_view())
}

/// What a list of cached files holds; of two with one path the later counts.
pub open spec fn cached_files(files: Seq<(String, String)>) -> Map<Seq<char>, Seq<char>>
    decreases files.len(),
{
    if files.len() == 0 {
        Map::empty()
    } else {
        cached_files(files.drop_last()).insert(files.last().0@, files.last().1@)
    }
}

/// A new turn that starts with a text spoken by `role`.
pub open spec fn new_turn(role: Role, t: Seq<char>) -> context_store::TurnView {
    context_store::TurnView {
        input: types::MessageView { role, content: seq![types::ContentView::Text(t)] },
        response: None,
        tool_exchanges: Seq::empty(),
        token_estimate: token_estimate(t),
        summarized: false,
    }
}

/// The tokens of a tool call and its result.
pub open spec fn exchange_tokens(input: json::JsonView, result: json::JsonView) -> nat {
    token_estimate(json::json_text(input)) + token_estimate(json::json_text(result))
}

impl ContextState {
    /// The state after a text spoken by `role` started a turn.
    pub open spec fn after_turn_start(self, role: Role, t: Seq<char>) -> ContextState {
        ContextState {
            turns: self.turns.push(new_turn(role, t)),
            tokens_used: plus(self.tokens_used, token_estimate(t)),
            ..self
        }
    }

    /// The state after the assistant responded in the last turn.
    pub open spec fn after_response(self, t: Seq<char>) -> ContextState {
        ContextState {
            turns: if self.turns.len() == 0 {
                self.turns
            } else {
                self.turns.drop_last().push(
                    context_store::TurnView {
                        response: Some(
                            types::MessageView {
                                role: Role::Assistant,
                                content: seq![types::ContentView::Text(t)],
                            },
                        ),
                        token_estimate: plus(
                            self.turns.last().token_estimate,
                            token_estimate(t),
                        ),
                        ..self.turns.last()
                    },
                )
            },
            tokens_used: plus(self.tokens_used, token_estimate(t)),
            ..self
        }
    }

    /// The state after a tool was called in the last turn.
    pub open spec fn after_exchange(
        self,
        tool_name: Seq<char>,
        input: json::JsonView,
        result: json::JsonView,
    ) -> ContextState {
        let tokens = exchange_tokens(input, result);
        ContextState {
            turns: if self.turns.len() == 0 {
                self.turns
            } else {
                self.turns.drop_last().push(
                    context_store::TurnView {
                        tool_exchanges: self.turns.last().tool_exchanges.push(
                            context_store::ToolExchangeView {
                                tool_name,
                                input,
                                result,
                                token_estimate: tokens,
                            },
                        ),
                        token_estimate: plus(self.turns.last().token_estimate, tokens),
                        ..self.turns.last()
                    },
                )
            },
            tokens_used: plus(self.tokens_used, tokens),
            ..self
        }
    }

    /// The turn that a response or a tool call belongs to.
    pub open spec fn current_turn(self) -> nat {
        minus(self.turns.len(), 1)
    }

    /// The state after an invalidation was taken in.
    pub open spec fn after_invalidation(self, what: types::InvalidationView) -> ContextState {
        match what {
            types::InvalidationView::Files(paths) => ContextState {
                file_cache: self.file_cache.remove_keys(paths.to_set()),
                ..self
            },
            types::InvalidationView::WorkingDirectory(_) => ContextState {
                file_cache: Map::empty(),
                ..self
            },
            types::InvalidationView::ToolRegistry => ContextState { tools: Seq::empty(), ..self },
            types::InvalidationView::Environment(vars) => ContextState {
                scratchpad: ScratchpadView {
                    notes: self.scratchpad.notes.push(
                        "Environment changed: "@ + text::join(vars, ", "@),
                    ),
                    ..self.scratchpad
                },
                ..self
            },
        }
    }

    /// The state after some invalidations were taken in, one after the other.
    pub open spec fn after_invalidations(
        self,
        what: Seq<types::InvalidationView>,
    ) -> ContextState
        decreases what.len(),
    {
        if what.len() == 0 {
            self
        } else {
            self.after_invalidations(what.drop_last()).after_invalidation(what.last())
        }
    }

    /// Whether compaction is due.
    pub open spec fn compaction_due(self) -> bool {
        reaches(
            self.tokens_used,
            self.config.context_window as nat,
            self.config.compaction_threshold,
        )
    }

    /// How many turns at the end compaction leaves as they are: the configured
    /// fraction of them, rounded up, and at least one.
    pub open spec fn tail(self) -> nat {
        let ratio = self.config.verbatim_tail_ratio;
        let part = (self.turns.len() * ratio.over() + ratio.under() - 1) as nat / ratio.under();
        if part < 1 {
            1
        } else {
            part
        }
    }

    /// How many turns at the start compaction summarizes.
    pub open spec fn head(self) -> nat {
        minus(self.turns.len(), self.tail())
    }

    /// Why a compaction is refused, `elapsed` seconds after the last one that
    /// succeeded, if any did.
    pub open spec fn compaction_refusal(self, elapsed: Option<u64>) -> Option<Seq<char>> {
        if elapsed matches Some(secs) && secs < self.config.compaction_cooldown_secs {
            Some("compaction cooldown active"@)
        } else if self.failures >= self.config.max_compaction_failures {
            Some(
                "compaction halted after "@ + text::decimal(self.failures)
                    + " consecutive failures"@,
            )
        } else if self.turns.len() < 2 {
            Some("not enough turns to compact"@)
        } else if self.head() == 0 {
            Some("nothing to compact — all turns in verbatim tail"@)
        } else {
            None
        }
    }

    /// Whether a refusal counts as a failed attempt.
    pub open spec fn refusal_counts(self, elapsed: Option<u64>) -> bool {
        &&& !(elapsed matches Some(secs) && secs < self.config.compaction_cooldown_secs)
        &&& self.failures < self.config.max_compaction_failures
    }

    /// The tokens that a compaction frees.
    pub open spec fn compaction_frees(self) -> nat {
        total_saved(self.turns, self.head() as int)
    }

    /// The state after an attempt to compact.
    pub open spec fn after_compaction(self, elapsed: Option<u64>) -> ContextState {
        if self.compaction_refusal(elapsed) is Some {
            ContextState {
                failures: if self.refusal_counts(elapsed) {
                    self.failures + 1
                } else {
                    self.failures
                },
                ..self
            }
        } else {
            ContextState {
                turns: compacted_turns(self.turns, self.head() as int),
                tokens_used: minus(self.tokens_used, self.compaction_frees()),
                failures: 0,
                compacted: true,
                ..self
            }
        }
    }

    /// The prompt that the state stands for.
    pub open spec fn prompt(self) -> types::PromptView {
        types::PromptView {
            system: system_text(self.system_prompt, self.scratchpad),
            messages: messages(self.turns),
            tool_definitions: Seq::new(self.tools.len(), |i: int| self.tools[i].definition),
        }
    }

    /// The state after a tool was brought into context.
    pub open spec fn after_page_in(
        self,
        name: Seq<char>,
        definition: json::JsonView,
        cost: nat,
    ) -> ContextState {
        ContextState {
            tools: self.tools.push(PagedToolView { name, definition }),
            tokens_used: self.tokens_used + cost,
            ..self
        }
    }

    /// The state after the tool at a position was taken out of context.
    pub open spec fn after_page_out(self, at: int) -> ContextState {
        ContextState { tools: self.tools.remove(at), ..self }
    }

    /// The state after the contents of a file were kept.
    pub open spec fn after_caching(self, path: Seq<char>, contents: Seq<char>) -> ContextState {
        ContextState { file_cache: self.file_cache.insert(path, contents), ..self }
    }

    /// Where the first tool of the given name stands among those in context.
    pub open spec fn tool_position(self, name: Seq<char>, from: int) -> int
        decreases self.tools.len() - from,
    {
        if from < 0 || from >= self.tools.len() {
            -1
        } else if self.tools[from].name == name {
            from
        } else {
            self.tool_position(name, from + 1)
        }
    }
}

/// The context manager owns the token budget. It is the only part of the
/// kernel that sees all of the context.
pub struct ContextManager<S: ContextStore, E: SessionEventSink> {
    config: ContextConfig,
    system_prompt: String,
    scratchpad: Scratchpad,
    store: S,
    events: E,
    file_cache: Vec<(String, String)>,
    tools_in_context: Vec<PagedTool>,
    tokens_used: usize,
    consecutive_compaction_failures: u32,
    last_compaction_time: Option<std::time::Instant>,
}

/// The state of a new context manager.
pub open spec fn initial_state(
    config: ContextConfig,
    system_prompt: Seq<char>,
    turns: Seq<context_store::TurnView>,
) -> ContextState {
    ContextState {
        config,
        system_prompt,
        scratchpad: empty_scratchpad(),
        turns,
        file_cache: Map::empty(),
        tools: Seq::empty(),
        tokens_used: token_estimate(system_prompt),
        failures: 0,
        compacted: false,
    }
}

impl ContextManager<InMemoryContextStore, NullSink> {
    /// A context manager that keeps its turns in memory and no events.
    pub fn new(config: ContextConfig, system_prompt: String) -> (r: Self)
        ensures
            r.state() == initial_state(config, system_prompt@, Seq::empty()),
    {
        ContextManager::with_store_and_events(
            config,
            system_prompt,
            InMemoryContextStore::new(),
            NullSink::default(),
        )
    }
}

impl<S: ContextStore> ContextManager<S, NullSink> {
    /// A context manager with the given storage for its turns.
    pub fn with_store(config: ContextConfig, system_prompt: String, store: S) -> (r: Self)
        ensures
            r.state() == initial_state(config, system_prompt@, turn_views(store.list())),
    {
        ContextManager::with_store_and_events(config, system_prompt, store, NullSink::default())
    }
}

impl<E: SessionEventSink> ContextManager<InMemoryContextStore, E> {
    /// A context manager with the given event sink.
    pub fn with_event_sink(config: ContextConfig, system_prompt: String, events: E) -> (r: Self)
        ensures
            r.state() == initial_state(config, system_prompt@, Seq::empty()),
            r.log() == events.log(),
    {
        ContextManager::with_store_and_events(
            config,
            system_prompt,
            InMemoryContextStore::new(),
            events,
        )
    }
}

impl<S: ContextStore, E: SessionEventSink> ContextManager<S, E> {
    pub closed spec fn state(&self) -> ContextState {
        ContextState {
            config: self.config,
            system_prompt: self.system_prompt@,
            scratchpad: self.scratchpad.deep_view(),
            turns: turn_views(self.store.list()),
            file_cache: cached_files(self.file_cache@),
            tools: self.tools_in_context.deep_view(),
            tokens_used: self.tokens_used as nat,
            failures: self.consecutive_compaction_failures as nat,
            compacted: self.last_compaction_time is Some,
        }
    }

    /// The events recorded so far.
    pub closed spec fn log(&self) -> Seq<session_events::EventView> {
        self.events.log()
    }

    /// A context manager with the given storage and event sink.
    pub fn with_store_and_events(
        config: ContextConfig,
        system_prompt: String,
        store: S,
        events: E,
    ) -> (r: Self)
        ensures
            r.state() == initial_state(config, system_prompt@, turn_views(store.list())),
            r.log() == events.log(),
    {
        let tokens_used = estimate_tokens(system_prompt.as_str());
        let r = ContextManager {
            config,
            system_prompt,
            scratchpad: Scratchpad::default(),
            store,
            events,
            file_cache: Vec::new(),
            tools_in_context: Vec::new(),
            tokens_used,
            consecutive_compaction_failures: 0,
            last_compaction_time: None,
        };
        assert(r.tools_in_context.deep_view() =~= Seq::empty());
        r
    }

    /// The tokens of the system prompt and the most that it should have, where
    /// it has more.
    pub fn system_prompt_excess(&self) -> (r: Option<(usize, u128)>)
        ensures
            ({
                let budget = self.state().config.system_prompt_budget;
                let tokens = token_estimate(self.state().system_prompt);
                let most = self.state().config.context_window as nat * budget.over()
                    / budget.under();
                match r {
                    Some(found) => found.0 == tokens && found.1 == most && tokens > most,
                    None => tokens <= most,
                }
            }),
    {
        let tokens: usize = estimate_tokens(self.system_prompt.as_str());
        let most: u128 = self.config.system_prompt_budget.floor_of(self.config.context_window);
        if tokens as u128 > most {
            Some((tokens, most))
        } else {
            None
        }
    }

    /// The tokens in use.
    pub fn tokens_used(&self) -> (n: usize)
        ensures
            n == self.state().tokens_used,
    {
        self.tokens_used
    }

    /// The size of the context window in tokens.
    pub fn context_window(&self) -> (n: usize)
        ensures
            n == self.state().config.context_window,
    {
        self.config.context_window
    }

    /// How much of the context window is in use.
    pub fn utilization(&self) -> (r: Utilization)
        ensures
            r.used == self.state().tokens_used,
            r.window == self.state().config.context_window,
    {
        Utilization { used: self.tokens_used, window: self.config.context_window }
    }

    /// Whether compaction is due.
    pub fn should_compact(&self) -> (r: bool)
        ensures
            r == self.state().compaction_due(),
    {
        self.config.compaction_threshold.at_most(self.tokens_used, self.config.context_window)
    }

    /// The scratchpad, which survives compaction.
    pub fn scratchpad(&self) -> (r: &Scratchpad)
        ensures
            r.deep_view() == self.state().scratchpad,
    {
        &self.scratchpad
    }

    /// The scratchpad, to change.
    pub fn scratchpad_mut(&mut self) -> (r: &mut Scratchpad)
        ensures
            r.deep_view() == old(self).state().scratchpad,
            final(self).state() == (ContextState {
                scratchpad: final(r).deep_view(),
                ..old(self).state()
            }),
            final(self).log() == old(self).log(),
    {
        &mut self.scratchpad
    }

    /// The number of turns in the history.
    pub fn turn_count(&self) -> (n: usize)
        ensures
            n == self.state().turns.len(),
    {
        self.store.turn_count()
    }

    /// The turns in the history.
    pub fn turns(&self) -> (r: &[Turn])
        ensures
            turn_views(r@) == self.state().turns,
    {
        self.store.turns()
    }

    /// The event sink.
    pub fn events(&self) -> (r: &E)
        ensures
            r.log() == self.log(),
    {
        &self.events
    }
}

/// Whether the log `after` is `before` with one more event, which says that
/// `what` happened in turn `turn`, at some time.
pub open spec fn recorded(
    before: Seq<session_events::EventView>,
    after: Seq<session_events::EventView>,
    turn: nat,
    what: session_events::Happening,
) -> bool {
    &&& after.len() == before.len() + 1
    &&& after.drop_last() == before
    &&& after.last().turn_index == turn
    &&& after.last().what == what
}

fn single(t: String) -> (r: Vec<Content>)
    ensures
        r.deep_view() == seq![types::ContentView::Text(t@)],
{
    let ghost said = t@;
    let mut r: Vec<Content> = Vec::new();
    r.push(Content::Text(t));
    assert(r.deep_view() =~= seq![types::ContentView::Text(said)]);
    r
}

fn new_turn_of(role: Role, t: String) -> (r: Turn)
    ensures
        r.deep_view() == new_turn(role, t@),
{
    let token_estimate: usize = estimate_tokens(t.as_str());
    let r = Turn {
        input: Message { role, content: single(t) },
        response: None,
        tool_exchanges: Vec::new(),
        token_estimate,
        summarized: false,
    };
    assert(r.tool_exchanges.deep_view() =~= Seq::empty());
    r
}

proof fn lemma_turn_views_push(turns: Seq<Turn>, t: Turn)
    ensures
        turn_views(turns.push(t)) == turn_views(turns).push(t.deep_view()),
{
    assert(turn_views(turns.push(t)) =~= turn_views(turns).push(t.deep_view()));
}

proof fn lemma_turn_views_last(turns: Seq<Turn>, t: Turn)
    requires
        turns.len() > 0,
    ensures
        turn_views(turns.drop_last().push(t)) == turn_views(turns).drop_last().push(t.deep_view()),
        turn_views(turns).last() == turns.last().deep_view(),
{
    assert(turn_views(turns.drop_last().push(t)) =~= turn_views(turns).drop_last().push(
        t.deep_view(),
    ));
}

impl<S: ContextStore, E: SessionEventSink> ContextManager<S, E> {
    /// Records that the session started, with the fingerprint of its workspace
    /// where one was taken.
    pub fn record_session_start(
        &mut self,
        workspace: String,
        policy_name: String,
        fingerprint: Option<WorkspaceFingerprint>,
    )
        ensures
            final(self).state() == old(self).state(),
            recorded(
                old(self).log(),
                final(self).log(),
                old(self).state().turns.len(),
                session_events::Happening::SessionStarted {
                    workspace: workspace@,
                    system_prompt: old(self).state().system_prompt,
                    policy_name: policy_name@,
                    fingerprint: fingerprint.deep_view(),
                },
            ),
    {
        let turn_index: usize = self.store.turn_count();
        let event = SessionEvent::SessionStarted {
            timestamp_ms: now_millis(),
            turn_index,
            workspace,
            system_prompt: self.system_prompt.clone(),
            policy_name,
            fingerprint,
        };
        let ghost before = self.events.log();
        self.events.record(event);
        assert(self.events.log().drop_last() =~= before);
    }

    /// Records that the session started.
    pub fn record_session_started(&mut self, workspace: String, policy_name: String)
        ensures
            final(self).state() == old(self).state(),
            recorded(
                old(self).log(),
                final(self).log(),
                old(self).state().turns.len(),
                session_events::Happening::SessionStarted {
                    workspace: workspace@,
                    system_prompt: old(self).state().system_prompt,
                    policy_name: policy_name@,
                    fingerprint: None,
                },
            ),
    {
        self.record_session_start(workspace, policy_name, None)
    }

    /// Appends a user input as a new turn.
    pub fn append_user_input(&mut self, text: String)
        ensures
            final(self).state() == old(self).state().after_turn_start(Role::User, text@),
            recorded(
                old(self).log(),
                final(self).log(),
                old(self).state().turns.len(),
                session_events::Happening::UserInput { text: text@ },
            ),
            final(self).state() == old(self).state().after_happening(final(self).log().last().what),
    {
        let turn_index: usize = self.store.turn_count();
        let event = SessionEvent::UserInput {
            timestamp_ms: now_millis(),
            turn_index,
            text: text.clone(),
        };
        let ghost before = self.events.log();
        self.events.record(event);
        assert(self.events.log().drop_last() =~= before);
        let tokens: usize = estimate_tokens(text.as_str());
        let turn = new_turn_of(Role::User, text);
        proof {
            lemma_turn_views_push(self.store.list(), turn);
        }
        self.store.append_turn(turn);
        self.tokens_used = self.tokens_used.saturating_add(tokens);
    }

    /// Appends a system message as a new turn.
    pub fn append_system_message(&mut self, text: String)
        ensures
            final(self).state() == old(self).state().after_turn_start(Role::System, text@),
            recorded(
                old(self).log(),
                final(self).log(),
                old(self).state().turns.len(),
                session_events::Happening::SystemMessage { text: text@ },
            ),
            final(self).state() == old(self).state().after_happening(final(self).log().last().what),
    {
        let turn_index: usize = self.store.turn_count();
        let event = SessionEvent::SystemMessage {
            timestamp_ms: now_millis(),
            turn_index,
            text: text.clone(),
        };
        let ghost before = self.events.log();
        self.events.record(event);
        assert(self.events.log().drop_last() =~= before);
        let tokens: usize = estimate_tokens(text.as_str());
        let turn = new_turn_of(Role::System, text);
        proof {
            lemma_turn_views_push(self.store.list(), turn);
        }
        self.store.append_turn(turn);
        self.tokens_used = self.tokens_used.saturating_add(tokens);
    }

    /// Records the assistant's response in the current turn.
    pub fn append_assistant_response(&mut self, text: String)
        ensures
            final(self).state() == old(self).state().after_response(text@),
            recorded(
                old(self).log(),
                final(self).log(),
                old(self).state().current_turn(),
                session_events::Happening::AssistantResponse { text: text@ },
            ),
            final(self).state() == old(self).state().after_happening(final(self).log().last().what),
    {
        let turn_index: usize = self.store.turn_count().saturating_sub(1);
        let event = SessionEvent::AssistantResponse {
            timestamp_ms: now_millis(),
            turn_index,
            text: text.clone(),
        };
        let ghost before = self.events.log();
        let ghost turns = self.store.list();
        self.events.record(event);
        assert(self.events.log().drop_last() =~= before);
        let tokens: usize = estimate_tokens(text.as_str());
        match self.store.last_turn_mut() {
            Some(turn) => {
                turn.response = Some(Message { role: Role::Assistant, content: single(text) });
                turn.token_estimate = turn.token_estimate.saturating_add(tokens);
            },
            None => {},
        }
        proof {
            if turns.len() > 0 {
                lemma_turn_views_last(turns, self.store.list().last());
                assert(self.store.list() =~= turns.drop_last().push(self.store.list().last()));
            }
        }
        self.tokens_used = self.tokens_used.saturating_add(tokens);
    }

    /// Records a tool call and its result in the current turn.
    pub fn append_tool_exchange(&mut self, tool_name: String, input: Json, result: Json)
        ensures
            final(self).state() == old(self).state().after_exchange(
                tool_name@,
                input.deep_view(),
                result.deep_view(),
            ),
            recorded(
                old(self).log(),
                final(self).log(),
                old(self).state().current_turn(),
                session_events::Happening::ToolExchange {
                    tool_name: tool_name@,
                    input: input.deep_view(),
                    result: result.deep_view(),
                },
            ),
            final(self).state() == old(self).state().after_happening(final(self).log().last().what),
    {
        let turn_index: usize = self.store.turn_count().saturating_sub(1);
        let event = SessionEvent::ToolExchange {
            timestamp_ms: now_millis(),
            turn_index,
            tool_name: tool_name.clone(),
            input: input.clone(),
            result: result.clone(),
        };
        let ghost before = self.events.log();
        let ghost turns = self.store.list();
        self.events.record(event);
        assert(self.events.log().drop_last() =~= before);
        let input_tokens: usize = estimate_tokens(input.to_text().as_str());
        let tokens: usize = input_tokens + estimate_tokens(result.to_text().as_str());
        match self.store.last_turn_mut() {
            Some(turn) => {
                let ghost exchanges = turn.tool_exchanges.deep_view();
                let exchange = ToolExchange { tool_name, input, result, token_estimate: tokens };
                let ghost added = exchange.deep_view();
                turn.tool_exchanges.push(exchange);
                assert(turn.tool_exchanges.deep_view() =~= exchanges.push(added));
                turn.token_estimate = turn.token_estimate.saturating_add(tokens);
            },
            None => {},
        }
        proof {
            if turns.len() > 0 {
                lemma_turn_views_last(turns, self.store.list().last());
                assert(self.store.list() =~= turns.drop_last().push(self.store.list().last()));
            }
        }
        self.tokens_used = self.tokens_used.saturating_add(tokens);
    }
}

// ---------------------------------------------------------------------------
// Invalidation and paging
// ---------------------------------------------------------------------------

fn without_path(files: &Vec<(String, String)>, path: &str) -> (r: Vec<(String, String)>)
    ensures
        cached_files(r@) == cached_files(files@).remove(path@),
{
    let mut r: Vec<(String, String)> = Vec::new();
    let mut i: usize = 0;
    assert(cached_files(files@.take(0)) =~= Map::empty());
    assert(cached_files(r@) =~= cached_files(files@.take(0)).remove(path@));
    while i < files.len()
        invariant
            i <= files@.len(),
            cached_files(r@) == cached_files(files@.take(i as int)).remove(path@),
        decreases files@.len() - i,
    {
        assert(files@.take(i + 1).drop_last() =~= files@.take(i as int));
        if !same(files[i].0.as_str(), path) {
            let ghost before = r@;
            r.push((files[i].0.clone(), files[i].1.clone()));
            assert(r@.drop_last() =~= before);
        }
        assert(cached_files(r@) =~= cached_files(files@.take(i + 1)).remove(path@));
        i += 1;
    }
    assert(files@.take(i as int) =~= files@);
    r
}

impl<S: ContextStore, E: SessionEventSink> ContextManager<S, E> {
    /// Keeps the contents of a file.
    pub fn cache_file(&mut self, path: String, contents: String)
        ensures
            final(self).state() == old(self).state().after_caching(path@, contents@),
            final(self).log() == old(self).log(),
    {
        let ghost before = self.file_cache@;
        self.file_cache.push((path, contents));
        assert(self.file_cache@.drop_last() =~= before);
    }

    /// Whether the contents of a file are kept.
    pub fn is_cached(&self, path: &str) -> (r: bool)
        ensures
            r == self.state().file_cache.contains_key(path@),
    {
        let mut i: usize = self.file_cache.len();
        assert(self.file_cache@.take(i as int) =~= self.file_cache@);
        while i > 0
            invariant
                i <= self.file_cache@.len(),
                self.state().file_cache.contains_key(path@) == cached_files(
                    self.file_cache@.take(i as int),
                ).contains_key(path@),
            decreases i,
        {
            i -= 1;
            assert(self.file_cache@.take(i + 1).drop_last() =~= self.file_cache@.take(i as int));
            if same(self.file_cache[i].0.as_str(), path) {
                return true;
            }
        }
        false
    }

    /// Forgets the contents of the given files.
    pub fn invalidate_files(&mut self, paths: &Vec<String>)
        ensures
            final(self).state() == old(self).state().after_invalidation(
                types::InvalidationView::Files(paths.deep_view()),
            ),
            final(self).log() == old(self).log(),
    {
        let ghost all = paths.deep_view();
        let ghost start = self.state();
        let ghost log = self.log();
        let mut i: usize = 0;
        proof {
            assert(all.take(0).to_set() =~= Set::empty());
            assert(start.file_cache.remove_keys(all.take(0).to_set()) =~= start.file_cache);
        }
        while i < paths.len()
            invariant
                all == paths.deep_view(),
                i <= all.len(),
                self.log() == log,
                self.state() == (ContextState {
                    file_cache: start.file_cache.remove_keys(all.take(i as int).to_set()),
                    ..start
                }),
            decreases all.len() - i,
        {
            self.file_cache = without_path(&self.file_cache, paths[i].as_str());
            proof {
                let next = all.take(i + 1);
                assert(next =~= all.take(i as int).push(all[i as int]));
                assert forall|p: Seq<char>| next.to_set().contains(p) <==> (all.take(
                    i as int,
                ).to_set().contains(p) || p == all[i as int]) by {
                    if next.contains(p) {
                        let k = choose|k: int| 0 <= k < next.len() && next[k] == p;
                        if k < i {
                            assert(all.take(i as int)[k] == p);
                        }
                    }
                    if all.take(i as int).contains(p) {
                        let k = choose|k: int| 0 <= k < i && all.take(i as int)[k] == p;
                        assert(next[k] == p);
                    }
                    assert(next[i as int] == all[i as int]);
                }
                assert(start.file_cache.remove_keys(all.take(i as int).to_set()).remove(
                    all[i as int],
                ) =~= start.file_cache.remove_keys(next.to_set()));
            }
            i += 1;
        }
        assert(all.take(i as int) =~= all);
    }

    /// Forgets the contents of all files.
    pub fn invalidate_all_files(&mut self)
        ensures
            final(self).state() == (ContextState {
                file_cache: Map::empty(),
                ..old(self).state()
            }),
            final(self).log() == old(self).log(),
    {
        self.file_cache = Vec::new();
    }

    /// Notes on the scratchpad that environment variables changed.
    pub fn note_env_change(&mut self, vars: &Vec<String>)
        ensures
            final(self).state() == old(self).state().after_invalidation(
                types::InvalidationView::Environment(vars.deep_view()),
            ),
            final(self).log() == old(self).log(),
    {
        let mut note = "Environment changed: ".to_owned();
        note.push_str(joined(vars, ", ").as_str());
        let ghost before = self.scratchpad.notes.deep_view();
        let ghost added = note@;
        self.scratchpad.notes.push(note);
        assert(self.scratchpad.notes.deep_view() =~= before.push(added));
    }

    /// Takes in an invalidation.
    pub fn process_invalidation(&mut self, invalidation: &Invalidation)
        ensures
            final(self).state() == old(self).state().after_invalidation(invalidation.deep_view()),
            final(self).log() == old(self).log(),
    {
        match invalidation {
            Invalidation::Files(paths) => self.invalidate_files(paths),
            Invalidation::WorkingDirectory(_) => self.invalidate_all_files(),
            Invalidation::ToolRegistry => {
                self.tools_in_context = Vec::new();
                assert(self.tools_in_context.deep_view() =~= Seq::empty());
            },
            Invalidation::Environment(vars) => self.note_env_change(vars),
        }
    }

    /// Takes in some invalidations, one after the other.
    pub fn process_invalidations(&mut self, invalidations: &Vec<Invalidation>)
        ensures
            final(self).state() == old(self).state().after_invalidations(
                invalidations.deep_view(),
            ),
            final(self).log() == old(self).log(),
    {
        let ghost start = self.state();
        let ghost log = self.log();
        let ghost all = invalidations.deep_view();
        let mut i: usize = 0;
        assert(all.take(0) =~= Seq::empty());
        while i < invalidations.len()
            invariant
                all == invalidations.deep_view(),
                i <= all.len(),
                self.state() == start.after_invalidations(all.take(i as int)),
                self.log() == log,
            decreases all.len() - i,
        {
            assert(all.take(i + 1).drop_last() =~= all.take(i as int));
            self.process_invalidation(&invalidations[i]);
            i += 1;
        }
        assert(all.take(i as int) =~= all);
    }

    /// Brings a tool's schema into context, where it fits into what is left of
    /// the window, and says whether it did.
    pub fn page_in_tool(&mut self, tool: &ToolSchema) -> (fits: bool)
        ensures
            fits == (old(self).state().tokens_used + tool.cost.0
                <= old(self).state().config.context_window),
            !fits ==> final(self).state() == old(self).state(),
            fits ==> final(self).state() == old(self).state().after_page_in(
                tool.name@,
                tool.schema.deep_view(),
                tool.cost.0 as nat,
            ),
            final(self).log() == old(self).log(),
    {
        let cost: usize = tool.cost.0;
        if cost > self.config.context_window || self.tokens_used > self.config.context_window
            - cost {
            return false;
        }
        let ghost before = self.tools_in_context.deep_view();
        let paged = PagedTool { name: tool.name.clone(), definition: tool.schema.clone() };
        let ghost added = paged.deep_view();
        self.tools_in_context.push(paged);
        assert(self.tools_in_context.deep_view() =~= before.push(added));
        self.tokens_used = self.tokens_used + cost;
        true
    }

    /// Takes the first tool of the given name out of context, and says whether
    /// there was one. The tokens that it took stay counted.
    pub fn page_out_tool(&mut self, tool_name: &str) -> (found: bool)
        ensures
            ({
                let at = old(self).state().tool_position(tool_name@, 0);
                &&& found == (at >= 0)
                &&& !found ==> final(self).state() == old(self).state()
                &&& found ==> at < old(self).state().tools.len()
                &&& found ==> final(self).state() == old(self).state().after_page_out(at)
            }),
            final(self).log() == old(self).log(),
    {
        let ghost start = self.state();
        let mut i: usize = 0;
        while i < self.tools_in_context.len()
            invariant
                self.state() == start,
                self.log() == old(self).log(),
                start == old(self).state(),
                i <= self.tools_in_context@.len(),
                start.tool_position(tool_name@, 0) == start.tool_position(tool_name@, i as int),
            decreases self.tools_in_context@.len() - i,
        {
            if same(self.tools_in_context[i].name.as_str(), tool_name) {
                let ghost before = self.tools_in_context.deep_view();
                assert(start.tools[i as int].name == tool_name@);
                self.tools_in_context.remove(i);
                assert(self.tools_in_context.deep_view() =~= before.remove(i as int));
                return true;
            }
            i += 1;
        }
        false
    }

    /// Assembles the prompt for the model.
    pub fn assemble(&self) -> (r: Prompt)
        ensures
            r.deep_view() == self.state().prompt(),
    {
        let ghost state = self.state();
        let system = system_text_of(self.system_prompt.as_str(), &self.scratchpad);
        let turns = self.store.turns();
        let mut all: Vec<Message> = Vec::new();
        let mut i: usize = 0;
        assert(all.deep_view() =~= messages(state.turns.take(0)));
        while i < turns.len()
            invariant
                state == self.state(),
                turn_views(turns@) == state.turns,
                i <= turns@.len(),
                all.deep_view() == messages(state.turns.take(i as int)),
            decreases turns@.len() - i,
        {
            let mut more = turn_messages_of(&turns[i]);
            let ghost before = all.deep_view();
            let ghost added = more.deep_view();
            all.append(&mut more);
            proof {
                assert(all.deep_view() =~= before + added);
                assert(state.turns.take(i + 1).drop_last() =~= state.turns.take(i as int));
            }
            i += 1;
        }
        assert(state.turns.take(i as int) =~= state.turns);
        let mut tool_definitions: Vec<Json> = Vec::new();
        let mut k: usize = 0;
        while k < self.tools_in_context.len()
            invariant
                state == self.state(),
                k <= state.tools.len(),
                tool_definitions@.len() == k,
                forall|m: int|
                    0 <= m < k ==> (#[trigger] tool_definitions@[m]).deep_view()
                        == state.tools[m].definition,
            decreases state.tools.len() - k,
        {
            tool_definitions.push(self.tools_in_context[k].definition.clone());
            k += 1;
        }
        let r = Prompt { system, messages: all, tool_definitions };
        assert(r.tool_definitions.deep_view() =~= state.prompt().tool_definitions);
        r
    }
}

// ---------------------------------------------------------------------------
// Compaction
// ---------------------------------------------------------------------------

impl<S: ContextStore, E: SessionEventSink> ContextManager<S, E> {
    /// Summarizes the older turns, `elapsed` seconds after this last succeeded,
    /// if it ever did. Returns the tokens freed, or why nothing was done.
    pub fn compact_after(&mut self, elapsed: Option<u64>) -> (r: Result<usize, String>)
        ensures
            match r {
                Ok(freed) => old(self).state().compaction_refusal(elapsed) is None && freed == old(
                    self,
                ).state().compaction_frees(),
                Err(e) => old(self).state().compaction_refusal(elapsed) == Some(e@),
            },
            final(self).state() == old(self).state().after_compaction(elapsed),
            final(self).log() == old(self).log(),
    {
        let ghost start = self.state();
        let ghost log = self.log();
        match elapsed {
            Some(secs) => {
                if secs < self.config.compaction_cooldown_secs {
                    return Err("compaction cooldown active".to_owned());
                }
            },
            None => {},
        }
        if self.consecutive_compaction_failures >= self.config.max_compaction_failures {
            let mut e = "compaction halted after ".to_owned();
            e.push_str(decimal_of(self.consecutive_compaction_failures as u64).as_str());
            e.push_str(" consecutive failures");
            return Err(e);
        }
        let total: usize = self.store.turn_count();
        if total < 2 {
            self.consecutive_compaction_failures = self.consecutive_compaction_failures + 1;
            return Err("not enough turns to compact".to_owned());
        }
        let part: u128 = self.config.verbatim_tail_ratio.ceil_of(total);
        let tail: u128 = if part < 1 {
            1
        } else {
            part
        };
        assert(tail == start.tail());
        let head: usize = if tail >= total as u128 {
            0
        } else {
            total - (tail as usize)
        };
        assert(head == start.head());
        if head == 0 {
            self.consecutive_compaction_failures = self.consecutive_compaction_failures + 1;
            return Err("nothing to compact — all turns in verbatim tail".to_owned());
        }
        let mut freed: usize = 0;
        let mut i: usize = 0;
        assert(compacted_turns(start.turns, 0) =~= start.turns);
        while i < head
            invariant
                i <= head <= start.turns.len(),
                self.log() == log,
                self.state() == (ContextState {
                    turns: compacted_turns(start.turns, i as int),
                    ..start
                }),
                freed == total_saved(start.turns, i as int),
            decreases head - i,
        {
            let ghost now = self.state().turns;
            assert(now[i as int] == start.turns[i as int]);
            let current = self.store.turns();
            assert(turn_views(current@) == now);
            assert(current@.len() == now.len());
            let done: bool = current[i].summarized;
            if !done {
                let replacement = summarized_of(&current[i]);
                let was: usize = current[i].token_estimate;
                freed = freed.saturating_add(was.saturating_sub(replacement.token_estimate));
                let ghost list = self.store.list();
                let ghost view = replacement.deep_view();
                let turns = self.store.turns_mut();
                turns[i] = replacement;
                proof {
                    assert(turn_views(self.store.list()) =~= now.update(i as int, view));
                }
            }
            assert(self.state().turns =~= compacted_turns(start.turns, i + 1));
            i += 1;
        }
        self.tokens_used = self.tokens_used.saturating_sub(freed);
        self.consecutive_compaction_failures = 0;
        self.last_compaction_time = Some(instant_now());
        Ok(freed)
    }

    /// Summarizes the older turns to free some of the token budget. Returns
    /// the tokens freed, or why nothing was done.
    pub fn compact(&mut self) -> (r: Result<usize, String>)
        ensures
            exists|elapsed: Option<u64>|
                {
                    &&& elapsed is Some == old(self).state().compacted
                    &&& final(self).state() == #[trigger] old(self).state().after_compaction(
                        elapsed,
                    )
                    &&& match r {
                        Ok(freed) => old(self).state().compaction_refusal(elapsed) is None && freed
                            == old(self).state().compaction_frees(),
                        Err(e) => old(self).state().compaction_refusal(elapsed) == Some(e@),
                    }
                },
            final(self).log() == old(self).log(),
    {
        let elapsed: Option<u64> = match &self.last_compaction_time {
            Some(last) => Some(secs_of(&elapsed_since(last))),
            None => None,
        };
        self.compact_after(elapsed)
    }
}

// ---------------------------------------------------------------------------
// Laws
// ---------------------------------------------------------------------------

impl ContextState {
    /// The state after something happened, as the event stream tells it.
    pub open spec fn after_happening(self, what: session_events::Happening) -> ContextState {
        match what {
            session_events::Happening::SessionStarted { .. } => self,
            session_events::Happening::UserInput { text } => self.after_turn_start(
                Role::User,
                text,
            ),
            session_events::Happening::SystemMessage { text } => self.after_turn_start(
                Role::System,
                text,
            ),
            session_events::Happening::AssistantResponse { text } => self.after_response(text),
            session_events::Happening::ToolExchange { tool_name, input, result } =>
            self.after_exchange(tool_name, input, result),
        }
    }
}

/// The state that a log of events leads to from `start`.
pub open spec fn replay(start: ContextState, log: Seq<session_events::EventView>) -> ContextState
    decreases log.len(),
{
    if log.len() == 0 {
        start
    } else {
        replay(start, log.drop_last()).after_happening(log.last().what)
    }
}

/// The conversation follows from the event stream: a state that the log leads
/// to is, after one more recorded happening, still the one that the log leads
/// to.
pub proof fn law_the_log_tells_the_state(
    start: ContextState,
    state: ContextState,
    before: Seq<session_events::EventView>,
    after: Seq<session_events::EventView>,
    turn: nat,
    what: session_events::Happening,
)
    requires
        state == replay(start, before),
        recorded(before, after, turn, what),
    ensures
        state.after_happening(what) == replay(start, after),
{
}

/// The state after some happenings, one after the other.
pub open spec fn after_happenings(
    start: ContextState,
    what: Seq<session_events::Happening>,
) -> ContextState
    decreases what.len(),
{
    if what.len() == 0 {
        start
    } else {
        after_happenings(start, what.drop_last()).after_happening(what.last())
    }
}

/// Whether a log tells of some happenings and of nothing else.
pub open spec fn tells(
    log: Seq<session_events::EventView>,
    what: Seq<session_events::Happening>,
) -> bool {
    &&& log.len() == what.len()
    &&& forall|i: int| 0 <= i < log.len() ==> (#[trigger] log[i]).what == what[i]
}

/// A log that tells of what happened goes on doing so with every happening that
/// is recorded.
pub proof fn law_every_change_is_in_the_log(
    before: Seq<session_events::EventView>,
    after: Seq<session_events::EventView>,
    turn: nat,
    what: Seq<session_events::Happening>,
    more: session_events::Happening,
)
    requires
        tells(before, what),
        recorded(before, after, turn, more),
    ensures
        tells(after, what.push(more)),
{
    assert forall|i: int| 0 <= i < after.len() implies (#[trigger] after[i]).what == what.push(
        more,
    )[i] by {
        if i < before.len() {
            assert(after.drop_last()[i] == before[i]);
        }
    }
}

/// A session can be replayed from its log: read back from the lines of a file,
/// the log gives the events, and they lead from the fresh state to the one that
/// the session was in after all that happened.
pub proof fn law_a_session_replays_from_its_log(
    start: ContextState,
    what: Seq<session_events::Happening>,
    log: Seq<session_events::EventView>,
    lines: Seq<Seq<char>>,
)
    requires
        tells(log, what),
        lines.len() == log.len(),
        forall|i: int| 0 <= i < lines.len() ==> event_log::is_line_of(#[trigger] lines[i], log[i]),
    ensures
        event_log::read_log(event_log::log_text(lines)) == Ok::<
            Seq<session_events::EventView>,
            Seq<char>,
        >(log),
        replay(start, log) == after_happenings(start, what),
{
    event_log::law_logs_read_back(log, lines);
    lemma_replay(start, what, log);
}

proof fn lemma_replay(
    start: ContextState,
    what: Seq<session_events::Happening>,
    log: Seq<session_events::EventView>,
)
    requires
        tells(log, what),
    ensures
        replay(start, log) == after_happenings(start, what),
    decreases log.len(),
{
    if log.len() > 0 {
        assert(log.last() == log[log.len() - 1]);
        assert forall|i: int| 0 <= i < log.drop_last().len() implies (
        #[trigger] log.drop_last()[i]).what == what.drop_last()[i] by {
            assert(log.drop_last()[i] == log[i]);
        }
        lemma_replay(start, what.drop_last(), log.drop_last());
    }
}

/// Compaction leaves the turns of the tail, the number of turns, the
/// scratchpad, the system prompt, the tools in context and the cached files as
/// they were.
pub proof fn law_compaction_keeps(state: ContextState, elapsed: Option<u64>)
    ensures
        ({
            let after = state.after_compaction(elapsed);
            &&& after.turns.len() == state.turns.len()
            &&& forall|i: int|
                state.turns.len() - state.tail() <= i < state.turns.len() && 0 <= i
                    ==> #[trigger] after.turns[i] == state.turns[i]
            &&& after.scratchpad == state.scratchpad
            &&& after.system_prompt == state.system_prompt
            &&& after.tools == state.tools
            &&& after.file_cache == state.file_cache
            &&& after.config == state.config
        }),
{
}

/// Compaction never adds to the tokens in use, and frees what it says, unless
/// fewer were counted.
pub proof fn law_compaction_frees(state: ContextState, elapsed: Option<u64>)
    ensures
        state.after_compaction(elapsed).tokens_used <= state.tokens_used,
        state.compaction_refusal(elapsed) is None ==> state.after_compaction(elapsed).tokens_used
            == minus(state.tokens_used, state.compaction_frees()),
{
}

/// A turn is summarized once: compacting the same turns again changes none of
/// them and frees nothing.
pub proof fn law_compaction_is_idempotent(turns: Seq<context_store::TurnView>, n: int)
    requires
        0 <= n <= turns.len(),
    ensures
        compacted_turns(compacted_turns(turns, n), n) == compacted_turns(turns, n),
        total_saved(compacted_turns(turns, n), n) == 0,
{
    let once = compacted_turns(turns, n);
    assert(compacted_turns(once, n) =~= once);
    lemma_nothing_saved(once, n);
}

proof fn lemma_nothing_saved(turns: Seq<context_store::TurnView>, n: int)
    requires
        0 <= n <= turns.len(),
        forall|i: int| 0 <= i < n ==> (#[trigger] turns[i]).summarized,
    ensures
        total_saved(turns, n) == 0,
    decreases n,
{
    if n > 0 {
        lemma_nothing_saved(turns, n - 1);
        assert(turns[n - 1].summarized);
    }
}

/// Once as many compactions in a row failed as the configuration allows,
/// every further one is refused and changes nothing.
pub proof fn law_compaction_halts(state: ContextState, elapsed: Option<u64>)
    requires
        state.failures >= state.config.max_compaction_failures,
    ensures
        state.compaction_refusal(elapsed) is Some,
        state.after_compaction(elapsed) == state,
{
}

/// The count of failures never passes the configured limit.
pub proof fn law_failures_are_bounded(state: ContextState, elapsed: Option<u64>)
    requires
        state.failures <= state.config.max_compaction_failures,
    ensures
        state.after_compaction(elapsed).failures
            <= state.config.max_compaction_failures,
{
}

/// Every tool call in the prompt is answered by the result with its id, in the
/// next message.
pub proof fn law_calls_and_results_pair(turn: context_store::TurnView)
    requires
        turn.tool_exchanges.len() > 0,
    ensures
        ({
            let said = turn_messages(turn)[1].content;
            let heard = turn_messages(turn)[2].content;
            let spoken_count = said.len() - turn.tool_exchanges.len();
            &&& heard.len() == turn.tool_exchanges.len()
            &&& 0 <= spoken_count
            &&& forall|i: int|
                0 <= i < heard.len() ==> said[spoken_count + i] is ToolCall && (
                #[trigger] heard[i]) is ToolResult && said[spoken_count + i]->ToolCall_id
                    == heard[i]->ToolResult_id
        }),
{
}

/// The history sends every tool call and result as it was: call number `i` of the
/// assistant's message has the name and the input of exchange `i`, and result
/// number `i` of the next message, which is the user's, has its result. What was
/// said stands before the calls.
pub proof fn law_the_history_tells_every_exchange(turn: context_store::TurnView, i: int)
    requires
        0 <= i < turn.tool_exchanges.len(),
    ensures
        ({
            let told = turn_messages(turn);
            let n = turn.tool_exchanges.len();
            let said = told[1].content;
            let heard = told[2].content;
            let at = said.len() - n + i;
            &&& told.len() == 3
            &&& told[0] == turn.input
            &&& told[1].role == Role::Assistant
            &&& told[2].role == Role::User
            &&& heard.len() == n
            &&& 0 <= said.len() - n
            &&& said[at] is ToolCall
            &&& said[at]->ToolCall_name == turn.tool_exchanges[i].tool_name
            &&& said[at]->ToolCall_input == turn.tool_exchanges[i].input
            &&& heard[i] is ToolResult
            &&& heard[i]->ToolResult_result == turn.tool_exchanges[i].result
            &&& said[at]->ToolCall_id == heard[i]->ToolResult_id
            &&& forall|j: int|
                0 <= j < n && j != i ==> (#[trigger] heard[j])->ToolResult_id
                    != heard[i]->ToolResult_id
            &&& forall|k: int|
                0 <= k < said.len() - n ==> (#[trigger] said[k]) is Text && turn.response is Some
                    && turn.response->0.content.contains(said[k])
        }),
{
    let n = turn.tool_exchanges.len();
    let told = turn_messages(turn);
    let said = told[1].content;
    let heard = told[2].content;
    assert forall|j: int| 0 <= j < n && j != i implies (#[trigger] heard[j])->ToolResult_id
        != heard[i]->ToolResult_id by {
        text::lemma_decimal(i as nat);
        text::lemma_decimal(j as nat);
        let a = call_id(i);
        let b = call_id(j);
        if a == b {
            assert(a.skip("call_"@.len() as int) =~= text::decimal(i as nat));
            assert(b.skip("call_"@.len() as int) =~= text::decimal(j as nat));
        }
    }
    if let Some(r) = turn.response {
        lemma_spoken(r.content);
    }
}

proof fn lemma_spoken(content: Seq<types::ContentView>)
    ensures
        forall|k: int|
            0 <= k < spoken(content).len() ==> (#[trigger] spoken(content)[k]) is Text
                && content.contains(spoken(content)[k]),
        forall|k: int|
            0 <= k < content.len() && (#[trigger] content[k] matches types::ContentView::Text(t)
                && text::trim(t).len() > 0) ==> spoken(content).contains(content[k]),
    decreases content.len(),
{
    if content.len() > 0 {
        let rest = content.drop_last();
        lemma_spoken(rest);
        let all = spoken(content);
        assert forall|k: int| 0 <= k < all.len() implies (#[trigger] all[k]) is Text
            && content.contains(all[k]) by {
            if k < spoken(rest).len() {
                assert(all[k] == spoken(rest)[k]);
                let j = choose|j: int| 0 <= j < rest.len() && rest[j] == all[k];
                assert(content[j] == all[k]);
            } else {
                assert(content[content.len() - 1] == all[k]);
            }
        }
        assert forall|k: int|
            0 <= k < content.len() && (#[trigger] content[k] matches types::ContentView::Text(t)
                && text::trim(t).len() > 0) implies all.contains(content[k]) by {
            if k < rest.len() {
                assert(rest[k] == content[k]);
                let j = choose|j: int| 0 <= j < spoken(rest).len() && spoken(rest)[j] == rest[k];
                assert(all[j] == content[k]);
            } else {
                assert(all[all.len() - 1] == content[k]);
            }
        }
    }
}

/// Whatever the assistant said along with its calls is in the history, unless it
/// is blank; a response without calls is there as it is, and a turn without a
/// response is its input alone.
pub proof fn law_the_history_tells_what_was_said(turn: context_store::TurnView)
    ensures
        turn_messages(turn)[0] == turn.input,
        turn.tool_exchanges.len() == 0 ==> turn_messages(turn) == (match turn.response {
            Some(r) => seq![turn.input, r],
            None => seq![turn.input],
        }),
        turn.tool_exchanges.len() > 0 && turn.response is Some ==> forall|k: int|
            0 <= k < turn.response->0.content.len() && (
            #[trigger] turn.response->0.content[k] matches types::ContentView::Text(t)
                && text::trim(t).len() > 0) ==> turn_messages(turn)[1].content.contains(
                turn.response->0.content[k],
            ),
{
    if let Some(r) = turn.response {
        lemma_spoken(r.content);
        if turn.tool_exchanges.len() > 0 {
            let said = turn_messages(turn)[1].content;
            assert forall|k: int|
                0 <= k < r.content.len() && (
                #[trigger] r.content[k] matches types::ContentView::Text(t) && text::trim(t).len()
                    > 0) implies said.contains(r.content[k]) by {
                let s = spoken(r.content);
                let j = choose|j: int| 0 <= j < s.len() && s[j] == r.content[k];
                assert(said[j] == r.content[k]);
            }
        }
    }
}

/// The turns are told in order, one after the other.
pub proof fn law_turns_are_told_in_order(
    a: Seq<context_store::TurnView>,
    b: Seq<context_store::TurnView>,
    turn: context_store::TurnView,
)
    ensures
        messages(a + b) == messages(a) + messages(b),
        messages(seq![turn]) == turn_messages(turn),
    decreases b.len(),
{
    reveal_with_fuel(messages, 2);
    assert(seq![turn].drop_last() =~= Seq::empty());
    assert(messages(seq![turn]) =~= turn_messages(turn));
    if b.len() == 0 {
        assert(a + b =~= a);
        assert(messages(a) + messages(b) =~= messages(a));
    } else {
        assert((a + b).drop_last() =~= a + b.drop_last());
        law_turns_are_told_in_order(a, b.drop_last(), turn);
        assert(messages(a + b) =~= messages(a) + messages(b));
    }
}

/// What the user says is the last message of the prompt, as a message of the user
/// that holds just this text, behind all that was there before; a system message
/// likewise. A response then follows it, and leaves all before it.
pub proof fn law_what_is_said_ends_the_prompt(
    state: ContextState,
    role: Role,
    t: Seq<char>,
    said: Seq<char>,
)
    ensures
        ({
            let before = state.prompt().messages;
            let asked = state.after_turn_start(role, t);
            let answered = asked.after_response(said);
            let input = types::MessageView {
                role,
                content: seq![types::ContentView::Text(t)],
            };
            let response = types::MessageView {
                role: Role::Assistant,
                content: seq![types::ContentView::Text(said)],
            };
            &&& asked.prompt().messages == before.push(input)
            &&& answered.prompt().messages == before.push(input).push(response)
            &&& asked.prompt().system == state.prompt().system
            &&& answered.prompt().system == state.prompt().system
            &&& asked.turns.len() == state.turns.len() + 1
            &&& answered.turns.len() == asked.turns.len()
        }),
{
    let turn = new_turn(role, t);
    let asked = state.after_turn_start(role, t);
    assert(asked.turns.drop_last() =~= state.turns);
    assert(asked.prompt().messages =~= state.prompt().messages.push(turn.input));
    let answered = asked.after_response(said);
    assert(answered.turns.drop_last() =~= state.turns);
    assert(answered.prompt().messages =~= state.prompt().messages.push(turn.input).push(
        answered.turns.last().response->0,
    ));
}

/// Every change is counted: by as many tokens as the estimate of its text gives,
/// for the turn and for the whole, unless the count is at its limit.
pub proof fn law_tokens_are_counted(
    state: ContextState,
    role: Role,
    t: Seq<char>,
    name: Seq<char>,
    input: json::JsonView,
    result: json::JsonView,
)
    requires
        state.tokens_used + token_estimate(t) <= usize::MAX,
        state.tokens_used + token_estimate(json::json_text(input)) + token_estimate(
            json::json_text(result),
        ) <= usize::MAX,
    ensures
        state.after_turn_start(role, t).tokens_used == state.tokens_used + token_estimate(t),
        state.after_response(t).tokens_used == state.tokens_used + token_estimate(t),
        state.after_exchange(name, input, result).tokens_used == state.tokens_used + token_estimate(
            json::json_text(input),
        ) + token_estimate(json::json_text(result)),
        state.after_turn_start(role, t).turns.last().token_estimate == token_estimate(t),
        !state.after_turn_start(role, t).turns.last().summarized,
        4 * token_estimate(t) >= text::byte_len(t),
        4 * token_estimate(t) < text::byte_len(t) + 4,
{
}

/// The summary of a turn holds the first hundred characters of every text of its
/// input, or the whole of a shorter text, and the name of every tool called in it.
pub proof fn law_a_summary_tells_the_turn(turn: context_store::TurnView)
    ensures
        text::begins_with(summary(turn), "[summary] "@),
        forall|k: int|
            0 <= k < turn.input.content.len() ==> (
            #[trigger] turn.input.content[k] matches types::ContentView::Text(t)
                ==> text::contains_text(
                summary(turn),
                if t.len() <= 100 {
                    t
                } else {
                    t.subrange(0, 100)
                },
            )),
        forall|k: int|
            0 <= k < turn.tool_exchanges.len() ==> text::contains_text(
                summary(turn),
                (#[trigger] turn.tool_exchanges[k]).tool_name,
            ),
        turn.tool_exchanges.len() == 0 && (turn.input.content.len() == 1 && (
        turn.input.content[0] matches types::ContentView::Text(t) && t.len() <= 100))
            ==> summary(turn) == "[summary] "@ + turn.input.content[0]->Text_0,
{
    let content = turn.input.content;
    let starts = previews(content);
    let inputs = text::join(starts, " "@);
    let head = "[summary] "@ + inputs;
    let names = tool_names(turn.tool_exchanges);
    let tools = text::join(names, ", "@);
    let whole = summary(turn);
    let tail: Seq<char> = if turn.tool_exchanges.len() == 0 {
        Seq::empty()
    } else {
        " [tools: "@ + tools + "]"@
    };
    assert(whole =~= "[summary] "@ + inputs + tail);
    assert(whole.subrange(0, "[summary] "@.len() as int) =~= "[summary] "@);
    text::lemma_contained_between("[summary] "@, inputs, tail);
    assert forall|k: int| 0 <= k < content.len() implies (
    #[trigger] content[k] matches types::ContentView::Text(t) ==> text::contains_text(
        whole,
        if t.len() <= 100 {
            t
        } else {
            t.subrange(0, 100)
        },
    )) by {
        if let types::ContentView::Text(t) = content[k] {
            let p = if t.len() <= 100 {
                t
            } else {
                t.subrange(0, 100)
            };
            let j = lemma_previewed(content, k);
            assert(starts[j] =~= p);
            text::law_joined_texts_hold_their_parts(starts, " "@, j);
            text::lemma_contained_in_part(whole, inputs, p);
        }
    }
    assert forall|k: int| 0 <= k < turn.tool_exchanges.len() implies text::contains_text(
        whole,
        (#[trigger] turn.tool_exchanges[k]).tool_name,
    ) by {
        text::law_joined_texts_hold_their_parts(names, ", "@, k);
        assert(whole =~= (head + " [tools: "@) + tools + "]"@);
        text::lemma_contained_between(head + " [tools: "@, tools, "]"@);
        text::lemma_contained_in_part(whole, tools, names[k]);
    }
    if turn.tool_exchanges.len() == 0 && content.len() == 1 && (
    content[0] matches types::ContentView::Text(t) && t.len() <= 100) {
        reveal_with_fuel(previews, 2);
        assert(content.drop_last() =~= Seq::empty());
        assert(starts =~= seq![content[0]->Text_0]);
        text::law_joins_concatenate(starts, starts, " "@);
    }
}

proof fn lemma_previewed(content: Seq<types::ContentView>, k: int) -> (j: int)
    requires
        0 <= k < content.len(),
        content[k] is Text,
    ensures
        0 <= j < previews(content).len(),
        previews(content)[j] == (if content[k]->Text_0.len() > 100 {
            content[k]->Text_0.take(100)
        } else {
            content[k]->Text_0
        }),
    decreases content.len(),
{
    if k < content.len() - 1 {
        assert(content.drop_last()[k] == content[k]);
        lemma_previewed(content.drop_last(), k)
    } else {
        previews(content).len() - 1
    }
}

/// Compaction puts the summary of each turn before the tail in its place, as a
/// message of the same role, with nothing else in the turn, counts its tokens, and
/// leaves turns alone that were summarized before.
pub proof fn law_compaction_summarizes_the_head(state: ContextState, elapsed: Option<u64>, i: int)
    requires
        state.compaction_refusal(elapsed) is None,
        0 <= i < state.turns.len() - state.tail(),
    ensures
        ({
            let was = state.turns[i];
            let now = state.after_compaction(elapsed).turns[i];
            &&& was.summarized ==> now == was
            &&& !was.summarized ==> {
                &&& now.input.role == was.input.role
                &&& now.input.content == seq![types::ContentView::Text(summary(was))]
                &&& now.response is None
                &&& now.tool_exchanges.len() == 0
                &&& now.token_estimate == token_estimate(summary(was))
                &&& now.summarized
            }
        }),
{
}

/// The tail that compaction leaves is the configured part of the turns, rounded up
/// to whole turns, and never less than the last turn. Where compaction is not
/// refused, there is something before it.
pub proof fn law_the_tail_is_its_part(state: ContextState, elapsed: Option<u64>)
    requires
        state.config.verbatim_tail_ratio.under() > 0,
    ensures
        ({
            let n = state.turns.len();
            let over = state.config.verbatim_tail_ratio.over();
            let under = state.config.verbatim_tail_ratio.under();
            &&& state.tail() >= 1
            &&& state.tail() * under >= n * over
            &&& state.tail() > 1 ==> (state.tail() - 1) * under < n * over
            &&& state.compaction_refusal(elapsed) is None ==> n >= 2 && state.tail() < n
            &&& state.tail() < n ==> state.head() + state.tail() == n
        }),
{
    let n = state.turns.len();
    let over = state.config.verbatim_tail_ratio.over();
    let under = state.config.verbatim_tail_ratio.under();
    let x = n * over;
    let part = (x + under - 1) as nat / under;
    assert(part * under >= x && (part - 1) * under < x) by (nonlinear_arith)
        requires
            under > 0,
            part == (x + under - 1) as nat / under,
    ;
    if part < 1 {
        assert(1 * under >= x) by (nonlinear_arith)
            requires
                part * under >= x,
                part == 0,
                under > 0,
        ;
    }
}

/// Under the default configuration compaction is due from 130000 tokens on, two
/// compactions are at least half a minute apart, it is given up after three
/// failures in a row, and the last three of ten turns stay as they are.
pub proof fn law_default_limits(state: ContextState, secs: u64)
    requires
        is_default_config(state.config),
    ensures
        state.compaction_due() <==> state.tokens_used >= 130_000,
        secs < 30 ==> state.compaction_refusal(Some(secs)) == Some("compaction cooldown active"@),
        secs >= 30 ==> state.compaction_refusal(Some(secs)) == state.compaction_refusal(None),
        state.failures < 3 && state.turns.len() >= 2 ==> state.compaction_refusal(None) is None,
        state.failures >= 3 ==> state.compaction_refusal(None) is Some,
        state.turns.len() < 2 ==> state.compaction_refusal(None) is Some,
        state.turns.len() == 10 ==> state.tail() == 3,
{
    let n = state.turns.len();
    if n >= 2 {
        assert((n * 30 + 99) / 100 < n && (n * 30 + 99) / 100 >= 0);
    }
}

/// A refused compaction changes nothing but the count of failures, and a
/// compaction that succeeds resets it. Waiting and having given up are no
/// failures; too few turns, and none before the tail, are.
pub proof fn law_failures_are_counted(state: ContextState, elapsed: Option<u64>)
    ensures
        ({
            let now = state.after_compaction(elapsed);
            let waits = elapsed matches Some(secs) && secs < state.config.compaction_cooldown_secs;
            let halted = state.failures >= state.config.max_compaction_failures;
            let small = state.turns.len() < 2 || state.turns.len() <= state.tail();
            &&& state.compaction_refusal(elapsed) is Some <==> waits || halted || small
            &&& waits || halted ==> now == state
            &&& !waits && !halted && small ==> now == (ContextState {
                failures: state.failures + 1,
                ..state
            })
            &&& !waits && !halted && !small ==> now.failures == 0 && now.compacted
        }),
{
}

/// What compaction frees is what each of the turns before the tail takes less as
/// a summary.
pub proof fn law_freed_tokens_add_up(turns: Seq<context_store::TurnView>, n: int)
    requires
        0 <= n < turns.len(),
        total_saved(turns, n) + turns[n].token_estimate <= usize::MAX,
    ensures
        total_saved(turns, 0) == 0,
        ({
            let less = if turns[n].summarized {
                0
            } else {
                turns[n].token_estimate - token_estimate(summary(turns[n]))
            };
            total_saved(turns, n + 1) == total_saved(turns, n) + (if less > 0 {
                less
            } else {
                0
            })
        }),
{
}

/// An invalidation of files forgets those and keeps the others; one of the working
/// directory forgets all; one of the registry takes the tools out of context; one
/// of the environment is noted. None touches the conversation.
pub proof fn law_invalidations_reach_what_they_name(
    state: ContextState,
    paths: Seq<Seq<char>>,
    path: Seq<char>,
    what: types::InvalidationView,
)
    ensures
        ({
            let kept = state.after_invalidation(types::InvalidationView::Files(paths)).file_cache;
            &&& kept.contains_key(path) <==> state.file_cache.contains_key(path) && !paths.contains(
                path,
            )
            &&& kept.contains_key(path) ==> kept[path] == state.file_cache[path]
        }),
        what is WorkingDirectory ==> !state.after_invalidation(what).file_cache.contains_key(path),
        what is ToolRegistry ==> state.after_invalidation(what).tools.len() == 0
            && state.after_invalidation(what).file_cache == state.file_cache,
        what matches types::InvalidationView::Environment(vars) ==> {
            let notes = state.after_invalidation(what).scratchpad.notes;
            &&& notes.len() == state.scratchpad.notes.len() + 1
            &&& notes.drop_last() == state.scratchpad.notes
            &&& forall|k: int|
                0 <= k < vars.len() ==> text::contains_text(notes.last(), #[trigger] vars[k])
        },
        !(what is ToolRegistry) ==> state.after_invalidation(what).tools == state.tools,
        state.after_invalidation(what).turns == state.turns,
        state.after_invalidation(what).tokens_used == state.tokens_used,
        state.after_invalidation(what).system_prompt == state.system_prompt,
        state.after_invalidation(what).scratchpad.plan == state.scratchpad.plan,
        state.after_invalidation(what).scratchpad.constraints == state.scratchpad.constraints,
{
    assert(paths.to_set().contains(path) <==> paths.contains(path));
    if let types::InvalidationView::Environment(vars) = what {
        let notes = state.after_invalidation(what).scratchpad.notes;
        assert(notes.drop_last() =~= state.scratchpad.notes);
        let said = text::join(vars, ", "@);
        assert forall|k: int| 0 <= k < vars.len() implies text::contains_text(
            notes.last(),
            #[trigger] vars[k],
        ) by {
            text::law_joined_texts_hold_their_parts(vars, ", "@, k);
            text::lemma_contained_between("Environment changed: "@, said, Seq::empty());
            assert("Environment changed: "@ + said + Seq::empty() =~= notes.last());
            text::lemma_contained_in_part(notes.last(), said, vars[k]);
        }
    }
}

/// Invalidations are taken in one after the other.
pub proof fn law_invalidations_are_taken_in_turn(
    state: ContextState,
    a: Seq<types::InvalidationView>,
    b: Seq<types::InvalidationView>,
    one: types::InvalidationView,
)
    ensures
        state.after_invalidations(a + b) == state.after_invalidations(a).after_invalidations(b),
        state.after_invalidations(seq![one]) == state.after_invalidation(one),
    decreases b.len(),
{
    reveal_with_fuel(ContextState::after_invalidations, 2);
    assert(seq![one].drop_last() =~= Seq::empty());
    if b.len() == 0 {
        assert(a + b =~= a);
    } else {
        assert((a + b).drop_last() =~= a + b.drop_last());
        law_invalidations_are_taken_in_turn(state, a, b.drop_last(), one);
    }
}

/// The system prompt is sent first and as it is. Everything on the scratchpad
/// follows: each constraint, each step of the plan with its number and whether it
/// is done, and each note, on a line of its own. Where nothing is on it, nothing
/// follows.
pub proof fn law_the_scratchpad_is_in_the_prompt(prompt: Seq<char>, pad: ScratchpadView)
    ensures
        text::begins_with(system_text(prompt, pad), prompt),
        pad == empty_scratchpad() ==> system_text(prompt, pad) == prompt,
        forall|k: int|
            0 <= k < pad.constraints.len() ==> text::contains_text(
                system_text(prompt, pad),
                "CONSTRAINT: "@ + (#[trigger] pad.constraints[k]) + "\n"@,
            ),
        forall|k: int|
            0 <= k < pad.plan.len() ==> text::contains_text(
                system_text(prompt, pad),
                (if (#[trigger] pad.plan[k]).completed {
                    "[x] "@
                } else {
                    "[ ] "@
                }) + text::decimal((k + 1) as nat) + ". "@ + pad.plan[k].description + "\n"@,
            ),
        forall|k: int|
            0 <= k < pad.notes.len() ==> text::contains_text(
                system_text(prompt, pad),
                "NOTE: "@ + (#[trigger] pad.notes[k]) + "\n"@,
            ),
{
    let whole = system_text(prompt, pad);
    if pad.plan.len() == 0 && pad.constraints.len() == 0 && pad.notes.len() == 0 {
        assert(whole.subrange(0, prompt.len() as int) =~= prompt);
    } else {
        let base = prompt + "\n\n<scratchpad>\n"@;
        let a = with_constraints(base, pad.constraints);
        let b = with_plan(a, pad.plan);
        let c = with_notes(b, pad.notes);
        lemma_with_constraints(base, pad.constraints);
        lemma_with_plan(a, pad.plan);
        lemma_with_notes(b, pad.notes);
        assert(base.take(prompt.len() as int) =~= prompt);
        assert(whole.subrange(0, prompt.len() as int) =~= c.take(prompt.len() as int));
        assert(c.take(prompt.len() as int) =~= b.take(prompt.len() as int)) by {
            assert(c.take(b.len() as int) =~= b);
            assert forall|i: int| 0 <= i < prompt.len() implies c[i] == b[i] by {
                assert(c.take(b.len() as int)[i] == c[i]);
            }
        }
        assert(b.take(prompt.len() as int) =~= a.take(prompt.len() as int)) by {
            assert forall|i: int| 0 <= i < prompt.len() implies b[i] == a[i] by {
                assert(b.take(a.len() as int)[i] == b[i]);
            }
        }
        assert(a.take(prompt.len() as int) =~= base.take(prompt.len() as int)) by {
            assert forall|i: int| 0 <= i < prompt.len() implies a[i] == base[i] by {
                assert(a.take(base.len() as int)[i] == a[i]);
            }
        }
        assert(whole.take(c.len() as int) =~= c);
        lemma_holds_start(whole, c);
        lemma_holds_start(c, b);
        lemma_holds_start(b, a);
        text::lemma_contained_in_part(whole, c, b);
        text::lemma_contained_in_part(whole, b, a);
        assert forall|k: int| 0 <= k < pad.constraints.len() implies text::contains_text(
            whole,
            "CONSTRAINT: "@ + (#[trigger] pad.constraints[k]) + "\n"@,
        ) by {
            text::lemma_contained_in_part(
                whole,
                a,
                "CONSTRAINT: "@ + pad.constraints[k] + "\n"@,
            );
        }
        assert forall|k: int| 0 <= k < pad.plan.len() implies text::contains_text(
            whole,
            (if (#[trigger] pad.plan[k]).completed {
                "[x] "@
            } else {
                "[ ] "@
            }) + text::decimal((k + 1) as nat) + ". "@ + pad.plan[k].description + "\n"@,
        ) by {
            text::lemma_contained_in_part(
                whole,
                b,
                (if pad.plan[k].completed {
                    "[x] "@
                } else {
                    "[ ] "@
                }) + text::decimal((k + 1) as nat) + ". "@ + pad.plan[k].description + "\n"@,
            );
        }
        assert forall|k: int| 0 <= k < pad.notes.len() implies text::contains_text(
            whole,
            "NOTE: "@ + (#[trigger] pad.notes[k]) + "\n"@,
        ) by {
            text::lemma_contained_in_part(whole, c, "NOTE: "@ + pad.notes[k] + "\n"@);
        }
    }
}

/// A text that another begins with stands in it.
proof fn lemma_holds_start(whole: Seq<char>, start: Seq<char>)
    requires
        start.len() <= whole.len(),
        whole.take(start.len() as int) == start,
    ensures
        text::contains_text(whole, start),
{
    assert(whole.subrange(0, start.len() as int) =~= whole.take(start.len() as int));
    assert(text::occurs_at(whole, start, 0));
}

proof fn lemma_with_constraints(base: Seq<char>, constraints: Seq<Seq<char>>)
    ensures
        base.len() <= with_constraints(base, constraints).len(),
        with_constraints(base, constraints).take(base.len() as int) == base,
        forall|k: int|
            0 <= k < constraints.len() ==> text::contains_text(
                with_constraints(base, constraints),
                "CONSTRAINT: "@ + (#[trigger] constraints[k]) + "\n"@,
            ),
    decreases constraints.len(),
{
    let whole = with_constraints(base, constraints);
    if constraints.len() == 0 {
        assert(whole.take(base.len() as int) =~= base);
    } else {
        let before = constraints.drop_last();
        let rest = with_constraints(base, before);
        lemma_with_constraints(base, before);
        let line = "CONSTRAINT: "@ + constraints.last() + "\n"@;
        assert(whole =~= rest + line + Seq::empty());
        text::lemma_contained_between(rest, line, Seq::empty());
        assert(whole.take(rest.len() as int) =~= rest);
        assert(whole.take(base.len() as int) =~= rest.take(base.len() as int));
        lemma_holds_start(whole, rest);
        assert forall|k: int| 0 <= k < constraints.len() implies text::contains_text(
            whole,
            "CONSTRAINT: "@ + (#[trigger] constraints[k]) + "\n"@,
        ) by {
            if k < before.len() {
                assert(before[k] == constraints[k]);
                text::lemma_contained_in_part(
                    whole,
                    rest,
                    "CONSTRAINT: "@ + before[k] + "\n"@,
                );
            }
        }
    }
}

proof fn lemma_with_plan(base: Seq<char>, plan: Seq<PlanStepView>)
    ensures
        base.len() <= with_plan(base, plan).len(),
        with_plan(base, plan).take(base.len() as int) == base,
        forall|k: int|
            0 <= k < plan.len() ==> text::contains_text(
                with_plan(base, plan),
                (if (#[trigger] plan[k]).completed {
                    "[x] "@
                } else {
                    "[ ] "@
                }) + text::decimal((k + 1) as nat) + ". "@ + plan[k].description + "\n"@,
            ),
    decreases plan.len(),
{
    let whole = with_plan(base, plan);
    if plan.len() == 0 {
        assert(whole.take(base.len() as int) =~= base);
    } else {
        let before = plan.drop_last();
        let rest = with_plan(base, before);
        lemma_with_plan(base, before);
        reveal_strlit("[");
        reveal_strlit("] ");
        reveal_strlit("x");
        reveal_strlit(" ");
        reveal_strlit("[x] ");
        reveal_strlit("[ ] ");
        let mark = if plan.last().completed {
            "[x] "@
        } else {
            "[ ] "@
        };
        let line = mark + text::decimal(plan.len()) + ". "@ + plan.last().description + "\n"@;
        assert("["@ + (if plan.last().completed {
            "x"@
        } else {
            " "@
        }) + "] "@ =~= mark);
        assert(whole =~= rest + line + Seq::empty());
        text::lemma_contained_between(rest, line, Seq::empty());
        assert(whole.take(rest.len() as int) =~= rest);
        assert(whole.take(base.len() as int) =~= rest.take(base.len() as int));
        lemma_holds_start(whole, rest);
        assert forall|k: int| 0 <= k < plan.len() implies text::contains_text(
            whole,
            (if (#[trigger] plan[k]).completed {
                "[x] "@
            } else {
                "[ ] "@
            }) + text::decimal((k + 1) as nat) + ". "@ + plan[k].description + "\n"@,
        ) by {
            if k < before.len() {
                assert(before[k] == plan[k]);
                text::lemma_contained_in_part(
                    whole,
                    rest,
                    (if before[k].completed {
                        "[x] "@
                    } else {
                        "[ ] "@
                    }) + text::decimal((k + 1) as nat) + ". "@ + before[k].description + "\n"@,
                );
            }
        }
    }
}

proof fn lemma_with_notes(base: Seq<char>, notes: Seq<Seq<char>>)
    ensures
        base.len() <= with_notes(base, notes).len(),
        with_notes(base, notes).take(base.len() as int) == base,
        forall|k: int|
            0 <= k < notes.len() ==> text::contains_text(
                with_notes(base, notes),
                "NOTE: "@ + (#[trigger] notes[k]) + "\n"@,
            ),
    decreases notes.len(),
{
    let whole = with_notes(base, notes);
    if notes.len() == 0 {
        assert(whole.take(base.len() as int) =~= base);
    } else {
        let before = notes.drop_last();
        let rest = with_notes(base, before);
        lemma_with_notes(base, before);
        let line = "NOTE: "@ + notes.last() + "\n"@;
        assert(whole =~= rest + line + Seq::empty());
        text::lemma_contained_between(rest, line, Seq::empty());
        assert(whole.take(rest.len() as int) =~= rest);
        assert(whole.take(base.len() as int) =~= rest.take(base.len() as int));
        lemma_holds_start(whole, rest);
        assert forall|k: int| 0 <= k < notes.len() implies text::contains_text(
            whole,
            "NOTE: "@ + (#[trigger] notes[k]) + "\n"@,
        ) by {
            if k < before.len() {
                assert(before[k] == notes[k]);
                text::lemma_contained_in_part(whole, rest, "NOTE: "@ + before[k] + "\n"@);
            }
        }
    }
}

/// The tools in context are what the prompt defines, each by its own definition.
pub proof fn law_paged_tools_are_in_the_prompt(state: ContextState, i: int)
    requires
        0 <= i < state.tools.len(),
    ensures
        state.prompt().tool_definitions.len() == state.tools.len(),
        state.prompt().tool_definitions[i] == state.tools[i].definition,
        ({
            let at = state.tool_position(state.tools[i].name, 0);
            0 <= at <= i && state.tools[at].name == state.tools[i].name
        }),
{
    lemma_tool_position(state, state.tools[i].name, 0, i);
}

proof fn lemma_tool_position(state: ContextState, name: Seq<char>, from: int, i: int)
    requires
        0 <= from <= i < state.tools.len(),
        state.tools[i].name == name,
    ensures
        ({
            let at = state.tool_position(name, from);
            from <= at <= i && state.tools[at].name == name
        }),
    decreases i - from,
{
    if state.tools[from].name != name {
        lemma_tool_position(state, name, from + 1, i);
    }
}

/// The scratchpad's part of the prompt grows at its end: constraints come first,
/// then the plan, then the notes, each in the order in which they were added.
/// `t` is what stands before the end mark.
pub proof fn law_the_scratchpad_keeps_its_order(
    prompt: Seq<char>,
    pad: ScratchpadView,
    t: Seq<char>,
    more: Seq<char>,
    step: PlanStepView,
)
    requires
        if pad == empty_scratchpad() {
            t == prompt + "\n\n<scratchpad>\n"@
        } else {
            system_text(prompt, pad) == t + "</scratchpad>"@
        },
    ensures
        system_text(prompt, ScratchpadView { notes: pad.notes.push(more), ..pad }) == t + (
        "NOTE: "@ + more + "\n"@) + "</scratchpad>"@,
        pad.notes.len() == 0 ==> system_text(
            prompt,
            ScratchpadView { plan: pad.plan.push(step), ..pad },
        ) == t + ("["@ + (if step.completed {
            "x"@
        } else {
            " "@
        }) + "] "@ + text::decimal(pad.plan.len() + 1) + ". "@ + step.description + "\n"@)
            + "</scratchpad>"@,
        pad.notes.len() == 0 && pad.plan.len() == 0 ==> system_text(
            prompt,
            ScratchpadView { constraints: pad.constraints.push(more), ..pad },
        ) == t + ("CONSTRAINT: "@ + more + "\n"@) + "</scratchpad>"@,
{
    let base = prompt + "\n\n<scratchpad>\n"@;
    let end = "</scratchpad>"@;
    let a = with_constraints(base, pad.constraints);
    let b = with_plan(a, pad.plan);
    let c = with_notes(b, pad.notes);
    if pad.plan.len() == 0 && pad.constraints.len() == 0 && pad.notes.len() == 0 {
        assert(pad =~= empty_scratchpad());
        assert(c == t);
    } else {
        assert(c =~= (c + end).take(c.len() as int));
        assert(t =~= (t + end).take(t.len() as int));
        assert((c + end).len() == c.len() + end.len());
        assert((t + end).len() == t.len() + end.len());
    }
    assert(pad.notes.push(more).drop_last() =~= pad.notes);
    assert(pad.plan.push(step).drop_last() =~= pad.plan);
    assert(pad.constraints.push(more).drop_last() =~= pad.constraints);
    let x = ScratchpadView { notes: pad.notes.push(more), ..pad };
    assert(system_text(prompt, x) =~= t + ("NOTE: "@ + more + "\n"@) + end);
    if pad.notes.len() == 0 {
        let y = ScratchpadView { plan: pad.plan.push(step), ..pad };
        let mark = if step.completed {
            "x"@
        } else {
            " "@
        };
        assert(system_text(prompt, y) =~= t + ("["@ + mark + "] "@ + text::decimal(
            pad.plan.len() + 1,
        ) + ". "@ + step.description + "\n"@) + end);
        if pad.plan.len() == 0 {
            let z = ScratchpadView { constraints: pad.constraints.push(more), ..pad };
            assert(system_text(prompt, z) =~= t + ("CONSTRAINT: "@ + more + "\n"@) + end);
        }
    }
}

/// What is shown of an input, and what was said along with calls, keeps the order
/// of the content: of two parts, one behind the other, it is that of the first
/// followed by that of the second.
pub proof fn law_content_keeps_its_order(
    a: Seq<types::ContentView>,
    b: Seq<types::ContentView>,
    t: Seq<char>,
)
    ensures
        previews(a + b) == previews(a) + previews(b),
        spoken(a + b) == spoken(a) + spoken(b),
        t.len() <= 100 ==> previews(seq![types::ContentView::Text(t)]) == seq![t],
        t.len() > 100 ==> previews(seq![types::ContentView::Text(t)]) == seq![t.subrange(0, 100)],
        text::trim(t).len() > 0 ==> spoken(seq![types::ContentView::Text(t)]) == seq![
            types::ContentView::Text(t),
        ],
        text::trim(t).len() == 0 ==> spoken(seq![types::ContentView::Text(t)]).len() == 0,
    decreases b.len(),
{
    reveal_with_fuel(previews, 2);
    reveal_with_fuel(spoken, 2);
    let one = seq![types::ContentView::Text(t)];
    assert(one.drop_last() =~= Seq::empty());
    assert(t.take(100) =~= t.subrange(0, 100));
    if t.len() <= 100 {
        assert(previews(one) =~= seq![t]);
    } else {
        assert(previews(one) =~= seq![t.subrange(0, 100)]);
    }
    if text::trim(t).len() > 0 {
        assert(spoken(one) =~= one);
    }
    if b.len() == 0 {
        assert(a + b =~= a);
        assert(previews(a) + previews(b) =~= previews(a));
        assert(spoken(a) + spoken(b) =~= spoken(a));
    } else {
        assert((a + b).drop_last() =~= a + b.drop_last());
        law_content_keeps_its_order(a, b.drop_last(), t);
        assert(previews(a + b) =~= previews(a) + previews(b));
        assert(spoken(a + b) =~= spoken(a) + spoken(b));
    }
}

/// The names in a summary stand in the order of the calls, and texts in the order
/// of the input.
pub proof fn law_a_summary_keeps_the_order(turn: context_store::TurnView)
    requires
        turn.tool_exchanges.len() > 0,
    ensures
        ({
            let names = Seq::new(
                turn.tool_exchanges.len(),
                |i: int| turn.tool_exchanges[i].tool_name,
            );
            let alone = context_store::TurnView { tool_exchanges: Seq::empty(), ..turn };
            summary(turn) == summary(alone) + " [tools: "@ + text::join(names, ", "@) + "]"@
        }),
        summary(context_store::TurnView { tool_exchanges: Seq::empty(), ..turn }) == "[summary] "@
            + text::join(previews(turn.input.content), " "@),
{
    assert(tool_names(turn.tool_exchanges) =~= Seq::new(
        turn.tool_exchanges.len(),
        |i: int| turn.tool_exchanges[i].tool_name,
    ));
}

/// What is recorded is added to the log and changes nothing in it: the events from
/// before, and then one that says what happened in which turn.
pub proof fn law_the_log_only_grows(
    before: Seq<session_events::EventView>,
    after: Seq<session_events::EventView>,
    turn: nat,
    what: session_events::Happening,
)
    requires
        recorded(before, after, turn, what),
    ensures
        after.len() == before.len() + 1,
        forall|i: int| 0 <= i < before.len() ==> #[trigger] after[i] == before[i],
        after[before.len() as int].what == what,
        after[before.len() as int].turn_index == turn,
{
    assert forall|i: int| 0 <= i < before.len() implies #[trigger] after[i] == before[i] by {
        assert(after.drop_last()[i] == after[i]);
    }
}

/// Files are kept under their paths, and of two contents of one file the later
/// counts. What belongs to no turn yet belongs to the first, and otherwise to the
/// last.
pub proof fn law_later_contents_count(
    files: Seq<(String, String)>,
    more: (String, String),
    path: Seq<char>,
    state: ContextState,
)
    ensures
        cached_files(files.push(more)).contains_key(more.0@),
        cached_files(files.push(more))[more.0@] == more.1@,
        path != more.0@ ==> (cached_files(files.push(more)).contains_key(path) <==> cached_files(
            files,
        ).contains_key(path)),
        path != more.0@ && cached_files(files).contains_key(path) ==> cached_files(
            files.push(more),
        )[path] == cached_files(files)[path],
        state.turns.len() > 0 ==> state.current_turn() == state.turns.len() - 1,
        state.turns.len() == 0 ==> state.current_turn() == 0,
{
    assert(files.push(more).drop_last() =~= files);
}

/// A new context starts from nothing but its system prompt and the turns that were
/// there.
pub proof fn law_a_new_context(
    config: ContextConfig,
    system_prompt: Seq<char>,
    turns: Seq<context_store::TurnView>,
)
    ensures
        ({
            let state = initial_state(config, system_prompt, turns);
            &&& state.config == config
            &&& state.turns == turns
            &&& state.prompt().system == system_prompt
            &&& state.prompt().messages == messages(turns)
            &&& state.prompt().tool_definitions.len() == 0
            &&& state.tokens_used == token_estimate(system_prompt)
            &&& state.failures == 0 && !state.compacted
        }),
{
}

/// A fraction is reached where the part is at least as large a part of the whole.
pub proof fn law_fractions_compare(a: nat, b: nat, more: nat, r: Ratio)
    requires
        b > 0,
        r.under() > 0,
    ensures
        reaches(a, b, r) ==> reaches(a + more, b, r),
        r.over() <= r.under() ==> reaches(b, b, r),
        r.over() > 0 ==> !reaches(0, b, r),
        r.over() == r.under() ==> (reaches(a, b, r) <==> a >= b),
{
    let u = r.under();
    let o = r.over();
    assert((a + more) * u >= a * u) by (nonlinear_arith);
    assert(o <= u ==> b * u >= o * b) by (nonlinear_arith);
    assert(o > 0 ==> o * b > 0) by (nonlinear_arith)
        requires
            b > 0,
    ;
    assert(0 * u == 0);
    assert(o == u ==> (a * u >= o * b <==> a >= b)) by (nonlinear_arith)
        requires
            u > 0,
    ;
}

/// A tool that is brought into context is defined in the prompt, behind those that
/// were there, and is counted; taken out again, it leaves the others as they were,
/// and stays counted. A file that is kept is found under its path until it is
/// invalidated.
pub proof fn law_what_is_brought_in_is_there(
    state: ContextState,
    name: Seq<char>,
    definition: json::JsonView,
    cost: nat,
    path: Seq<char>,
    contents: Seq<char>,
)
    ensures
        ({
            let now = state.after_page_in(name, definition, cost);
            &&& now.prompt().tool_definitions == state.prompt().tool_definitions.push(definition)
            &&& now.prompt().messages == state.prompt().messages
            &&& now.tokens_used == state.tokens_used + cost
            &&& now.tools.last().name == name
            &&& now.after_page_out(state.tools.len() as int).tools == state.tools
            &&& now.after_page_out(state.tools.len() as int).tokens_used == now.tokens_used
        }),
        ({
            let now = state.after_caching(path, contents);
            &&& now.file_cache.contains_key(path) && now.file_cache[path] == contents
            &&& !now.after_invalidation(
                types::InvalidationView::Files(seq![path]),
            ).file_cache.contains_key(path)
            &&& now.turns == state.turns && now.tokens_used == state.tokens_used
        }),
{
    let now = state.after_page_in(name, definition, cost);
    assert(now.prompt().tool_definitions =~= state.prompt().tool_definitions.push(definition));
    assert(now.after_page_out(state.tools.len() as int).tools =~= state.tools);
    assert(seq![path][0] == path);
    assert(seq![path].contains(path));
}

/// Each happening changes the conversation in its own way: what the user and the
/// system say starts a turn under their role, what the assistant says is the
/// response of the last turn, and a tool call is an exchange in it. That a session
/// started changes nothing.
pub proof fn law_happenings_change_the_conversation(
    state: ContextState,
    t: Seq<char>,
    name: Seq<char>,
    input: json::JsonView,
    result: json::JsonView,
)
    requires
        state.turns.len() > 0,
    ensures
        ({
            let now = state.after_happening(session_events::Happening::UserInput { text: t });
            &&& now.turns.drop_last() == state.turns
            &&& now.turns.last().input == (types::MessageView {
                role: Role::User,
                content: seq![types::ContentView::Text(t)],
            })
            &&& now.turns.last().response is None && now.turns.last().tool_exchanges.len() == 0
        }),
        ({
            let now = state.after_happening(session_events::Happening::SystemMessage { text: t });
            &&& now.turns.drop_last() == state.turns
            &&& now.turns.last().input == (types::MessageView {
                role: Role::System,
                content: seq![types::ContentView::Text(t)],
            })
        }),
        ({
            let now = state.after_happening(
                session_events::Happening::AssistantResponse { text: t },
            );
            &&& now.turns.drop_last() == state.turns.drop_last()
            &&& now.turns.last().response == Some(
                types::MessageView {
                    role: Role::Assistant,
                    content: seq![types::ContentView::Text(t)],
                },
            )
            &&& now.turns.last().input == state.turns.last().input
            &&& now.turns.last().tool_exchanges == state.turns.last().tool_exchanges
        }),
        ({
            let now = state.after_happening(
                session_events::Happening::ToolExchange { tool_name: name, input, result },
            );
            let kept = now.turns.last().tool_exchanges;
            &&& now.turns.drop_last() == state.turns.drop_last()
            &&& kept.len() == state.turns.last().tool_exchanges.len() + 1
            &&& kept.drop_last() == state.turns.last().tool_exchanges
            &&& kept.last().tool_name == name && kept.last().input == input && kept.last().result
                == result
            &&& now.turns.last().input == state.turns.last().input
            &&& now.turns.last().response == state.turns.last().response
        }),
{
    let a = state.after_happening(session_events::Happening::UserInput { text: t });
    assert(a.turns.drop_last() =~= state.turns);
    let b = state.after_happening(session_events::Happening::SystemMessage { text: t });
    assert(b.turns.drop_last() =~= state.turns);
    let c = state.after_happening(session_events::Happening::AssistantResponse { text: t });
    assert(c.turns.drop_last() =~= state.turns.drop_last());
    let d = state.after_happening(
        session_events::Happening::ToolExchange { tool_name: name, input, result },
    );
    assert(d.turns.drop_last() =~= state.turns.drop_last());
    assert(d.turns.last().tool_exchanges.drop_last() =~= state.turns.last().tool_exchanges);
}

} // verus!
