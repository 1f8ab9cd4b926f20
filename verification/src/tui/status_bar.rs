//! The status bar.

use crate::text;
use crate::text::{byte_len_of, decimal_of, repeated};
use crate::tui::app;
use crate::tui::app::App;
use vstd::prelude::*;
use vstd::string::*;

verus! {

/// The numbers of the status bar in words, in thousands or millions where they
/// are large.
#[derive(Debug)]
pub struct TokenTexts {
    pub context_tokens: String,
    pub context_window: String,
    pub input_tokens: String,
    pub output_tokens: String,
}

/// What stands at the left of the bar.
pub open spec fn left_text() -> Seq<char> {
    " agent-kernel v0.1.0"@
}

/// What stands at the right of the bar.
pub open spec fn right_text(app: app::AppView, tokens: TokenTexts) -> Seq<char> {
    app.model_name + " | "@ + "ctx: "@ + tokens.context_tokens@ + "/"@ + tokens.context_window@
        + " | tokens: "@ + tokens.input_tokens@ + "in/"@ + tokens.output_tokens@
        + "out | turns: "@ + text::decimal(app.turn_count as nat) + " "@
}

/// The smaller of two numbers.
pub open spec fn at_most(a: nat, b: nat) -> nat {
    if a < b {
        a
    } else {
        b
    }
}

/// Two texts at the two ends of a bar. There is none where both fit but not
/// side by side.
pub open spec fn bar(left: Seq<char>, right: Seq<char>, width: nat) -> Option<Seq<char>> {
    let taken = at_most(text::byte_len(left), width) + at_most(text::byte_len(right), width);
    if taken > width {
        None
    } else {
        let room = if width > taken {
            (width - taken) as nat
        } else {
            1
        };
        Some(left + text::repeat(" "@, room) + right)
    }
}

/// Two texts at the two ends of a bar, where they fit side by side.
pub fn bar_of(left: &str, right: &str, width: usize) -> (r: Option<String>)
    ensures
        r.deep_view() == bar(left@, right@, width as nat),
{
    let l: usize = byte_len_of(left);
    let l: usize = if l < width {
        l
    } else {
        width
    };
    let r: usize = byte_len_of(right);
    let r: usize = if r < width {
        r
    } else {
        width
    };
    if r > width - l {
        return None;
    }
    let left_over: usize = width - l - r;
    let room: usize = if left_over > 0 {
        left_over
    } else {
        1
    };
    let mut s = left.to_owned();
    s.push_str(repeated(" ", room).as_str());
    s.push_str(right);
    Some(s)
}

/// The status bar, where its two ends fit side by side.
pub fn status_text(app: &App, tokens: &TokenTexts, width: usize) -> (r: Option<String>)
    ensures
        r.deep_view() == bar(left_text(), right_text(app@, *tokens), width as nat),
{
    let mut right = app.model_name.clone();
    right.push_str(" | ");
    right.push_str("ctx: ");
    right.push_str(tokens.context_tokens.as_str());
    right.push_str("/");
    right.push_str(tokens.context_window.as_str());
    right.push_str(" | tokens: ");
    right.push_str(tokens.input_tokens.as_str());
    right.push_str("in/");
    right.push_str(tokens.output_tokens.as_str());
    right.push_str("out | turns: ");
    right.push_str(decimal_of(app.turn_count as u64).as_str());
    right.push_str(" ");
    bar_of(" agent-kernel v0.1.0", right.as_str(), width)
}

// ---------------------------------------------------------------------------
// Laws
// ---------------------------------------------------------------------------

/// The two texts of a bar stand at its two ends, with spaces between them, and fill
/// its width where they fit.
pub proof fn law_texts_stand_at_the_ends(left: Seq<char>, right: Seq<char>, width: nat)
    ensures
        bar(left, right, width) matches Some(t) ==> t.len() > left.len() + right.len()
            && t.take(left.len() as int) == left && t.skip(t.len() - right.len()) == right
            && forall|i: int|
            left.len() <= i < t.len() - right.len() ==> #[trigger] t[i] == ' ',
        text::byte_len(left) + text::byte_len(right) < width ==> (bar(
            left,
            right,
            width,
        ) matches Some(t) && t.len() == left.len() + right.len() + (width - text::byte_len(left)
            - text::byte_len(right))),
        text::byte_len(left) <= width && text::byte_len(right) <= width && text::byte_len(left)
            + text::byte_len(right) > width ==> bar(left, right, width) is None,
{
    reveal_strlit(" ");
    if let Some(t) = bar(left, right, width) {
        let taken = at_most(text::byte_len(left), width) + at_most(text::byte_len(right), width);
        let room = if width > taken {
            (width - taken) as nat
        } else {
            1
        };
        text::law_repetition_repeats(" "@, room);
        assert(t.take(left.len() as int) =~= left);
        assert(t.skip(t.len() - right.len()) =~= right);
        assert forall|i: int| left.len() <= i < t.len() - right.len() implies #[trigger] t[i]
            == ' ' by {
            let k = i - left.len();
            assert(text::repeat(" "@, room)[k] == " "@[k % 1]);
            assert(k % 1 == 0);
        }
    }
}

/// The bar tells the model, how much of the context is used, the tokens in and out
/// and the turns, each as it is.
pub proof fn law_the_bar_tells_the_session(app: app::AppView, tokens: TokenTexts)
    ensures
        text::begins_with(right_text(app, tokens), app.model_name),
        text::contains_text(
            right_text(app, tokens),
            "ctx: "@ + tokens.context_tokens@ + "/"@ + tokens.context_window@,
        ),
        text::contains_text(
            right_text(app, tokens),
            "tokens: "@ + tokens.input_tokens@ + "in/"@ + tokens.output_tokens@ + "out"@,
        ),
        text::contains_text(
            right_text(app, tokens),
            "turns: "@ + text::decimal(app.turn_count as nat),
        ),
{
    let whole = right_text(app, tokens);
    assert(whole.subrange(0, app.model_name.len() as int) =~= app.model_name);
    let ctx = "ctx: "@ + tokens.context_tokens@ + "/"@ + tokens.context_window@;
    let used = "tokens: "@ + tokens.input_tokens@ + "in/"@ + tokens.output_tokens@ + "out"@;
    let turns = "turns: "@ + text::decimal(app.turn_count as nat);
    reveal_strlit(" | tokens: ");
    reveal_strlit(" | ");
    reveal_strlit("tokens: ");
    reveal_strlit("out | turns: ");
    reveal_strlit("out");
    reveal_strlit("turns: ");
    assert(" | tokens: "@ =~= " | "@ + "tokens: "@);
    assert("out | turns: "@ =~= "out"@ + " | "@ + "turns: "@);
    let a = app.model_name + " | "@;
    let b = a + ctx + " | "@;
    let c = b + used + " | "@;
    assert(whole =~= a + ctx + (" | "@ + used + " | "@ + turns + " "@));
    text::lemma_contained_between(a, ctx, " | "@ + used + " | "@ + turns + " "@);
    assert(whole =~= b + used + (" | "@ + turns + " "@));
    text::lemma_contained_between(b, used, " | "@ + turns + " "@);
    assert(whole =~= c + turns + " "@);
    text::lemma_contained_between(c, turns, " "@);
}

} // verus!
