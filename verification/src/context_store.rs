//! Storage of conversation turns.

use crate::json;
use crate::json::Json;
use crate::types;
use crate::types::Message;
use vstd::prelude::*;
use vstd::string::*;

verus! {

/// A tool call and its result.
#[derive(Debug)]
pub struct ToolExchange {
    pub tool_name: String,
    pub input: Json,
    pub result: Json,
    pub token_estimate: usize,
}

#[verifier::ext_equal]
pub ghost struct ToolExchangeView {
    pub tool_name: Seq<char>,
    pub input: json::JsonView,
    pub result: json::JsonView,
    pub token_estimate: nat,
}

impl DeepView for ToolExchange {
    type V = ToolExchangeView;

    open spec fn deep_view(&self) -> ToolExchangeView {
        ToolExchangeView {
            tool_name: self.tool_name@,
            input: self.input.deep_view(),
            result: self.result.deep_view(),
            token_estimate: self.token_estimate as nat,
        }
    }
}

/// A turn in the conversation history, with its token cost.
#[derive(Debug)]
pub struct Turn {
    /// The user or system input that started the turn.
    pub input: Message,
    /// The assistant's response.
    pub response: Option<Message>,
    /// Tool calls and results within the turn.
    pub tool_exchanges: Vec<ToolExchange>,
    /// Estimated total tokens for the turn.
    pub token_estimate: usize,
    /// Whether the turn has been replaced by a summary.
    pub summarized: bool,
}

#[verifier::ext_equal]
pub ghost struct TurnView {
    pub input: types::MessageView,
    pub response: Option<types::MessageView>,
    pub tool_exchanges: Seq<ToolExchangeView>,
    pub token_estimate: nat,
    pub summarized: bool,
}

impl DeepView for Turn {
    type V = TurnView;

    open spec fn deep_view(&self) -> TurnView {
        TurnView {
            input: self.input.deep_view(),
            response: self.response.deep_view(),
            tool_exchanges: self.tool_exchanges.deep_view(),
            token_estimate: self.token_estimate as nat,
            summarized: self.summarized,
        }
    }
}

/// Storage backend for conversation turns.
pub trait ContextStore {
    /// The stored turns.
    spec fn list(&self) -> Seq<Turn>;

    /// Appends a new turn.
    fn append_turn(&mut self, turn: Turn)
        ensures
            final(self).list() == old(self).list().push(turn),
    ;

    /// Number of stored turns.
    fn turn_count(&self) -> (n: usize)
        ensures
            n == self.list().len(),
    ;

    /// All turns.
    fn turns(&self) -> (r: &[Turn])
        ensures
            r@ == self.list(),
    ;

    /// All turns, to change.
    fn turns_mut(&mut self) -> (r: &mut [Turn])
        ensures
            r@ == old(self).list(),
            final(self).list() == final(r)@,
    ;

    /// The last turn, to change.
    fn last_turn_mut(&mut self) -> (r: Option<&mut Turn>)
        ensures
            match r {
                Some(turn) => old(self).list().len() > 0 && *turn == old(self).list().last()
                    && final(self).list() == old(self).list().drop_last().push(*final(turn)),
                None => old(self).list().len() == 0 && final(self).list() == old(self).list(),
            },
    ;
}

/// Turns kept in memory.
#[derive(Debug)]
pub struct InMemoryContextStore {
    turns: Vec<Turn>,
}

impl InMemoryContextStore {
    pub fn new() -> (r: Self)
        ensures
            r.list() == Seq::<Turn>::empty(),
    {
        InMemoryContextStore { turns: Vec::new() }
    }
}

impl Default for InMemoryContextStore {
    fn default() -> (r: Self)
        ensures
            r.list() == Seq::<Turn>::empty(),
    {
        InMemoryContextStore::new()
    }
}

impl ContextStore for InMemoryContextStore {
    closed spec fn list(&self) -> Seq<Turn> {
        self.turns@
    }

    fn append_turn(&mut self, turn: Turn) {
        self.turns.push(turn);
    }

    fn turn_count(&self) -> (n: usize) {
        self.turns.len()
    }

    fn turns(&self) -> (r: &[Turn]) {
        self.turns.as_slice()
    }

    fn turns_mut(&mut self) -> (r: &mut [Turn]) {
        self.turns.as_mut_slice()
    }

    fn last_turn_mut(&mut self) -> (r: Option<&mut Turn>) {
        let n: usize = self.turns.len();
        if n == 0 {
            None
        } else {
            Some(&mut self.turns[n - 1])
        }
    }
}

} // verus!
