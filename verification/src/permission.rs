//! The dispatch gate: every tool call is evaluated against the policy before
//! it runs.

use crate::policy;
use crate::policy::Policy;
use crate::tool::ToolSchema;
use crate::types;
use crate::types::Decision;
use vstd::prelude::*;
use vstd::string::*;

verus! {

/// What every tool call has to pass. It provides the mechanism only: what is
/// allowed is the policy's to say.
pub struct PermissionEvaluator {
    policy: Policy,
}

/// What a policy says of a tool that declares `caps`: nothing declared is
/// allowed; else the first capability that is denied denies the call, and a
/// call is asked about where one of its capabilities is.
pub open spec fn gate(policy: policy::PolicyView, caps: Seq<Seq<char>>) -> types::DecisionView {
    gate_from(policy, caps, 0, false)
}

/// What is left of the decision at capability `i`, where `asked` says
/// that an earlier one is asked about.
pub open spec fn gate_from(
    policy: policy::PolicyView,
    caps: Seq<Seq<char>>,
    i: int,
    asked: bool,
) -> types::DecisionView
    decreases caps.len() - i,
{
    if i < 0 || i >= caps.len() {
        if asked {
            types::DecisionView::Ask
        } else {
            types::DecisionView::Allow
        }
    } else {
        match policy.decide(caps[i]) {
            types::DecisionView::Allow => gate_from(policy, caps, i + 1, asked),
            types::DecisionView::Deny(reason) => types::DecisionView::Deny(reason),
            types::DecisionView::Ask => gate_from(policy, caps, i + 1, true),
        }
    }
}

impl PermissionEvaluator {
    pub closed spec fn view(&self) -> policy::PolicyView {
        self.policy.deep_view()
    }

    pub fn new(policy: Policy) -> (r: Self)
        ensures
            r@ == policy.deep_view(),
    {
        PermissionEvaluator { policy }
    }

    /// Replaces the policy.
    pub fn set_policy(&mut self, policy: Policy)
        ensures
            final(self)@ == policy.deep_view(),
    {
        self.policy = policy;
    }

    pub fn policy(&self) -> (r: &Policy)
        ensures
            r.deep_view() == self@,
    {
        &self.policy
    }

    /// Whether a call of `tool` goes ahead: every capability that the tool
    /// declares is put to the policy.
    pub fn evaluate(&self, tool: &ToolSchema) -> (d: Decision)
        ensures
            d.deep_view() == gate(self@, tool.capabilities.list()),
    {
        let ghost caps = tool.capabilities.list();
        let mut needs_ask = false;
        let mut i: usize = 0;
        while i < tool.capabilities.len()
            invariant
                caps == tool.capabilities.list(),
                i <= caps.len(),
                gate(self@, caps) == gate_from(self@, caps, i as int, needs_ask),
            decreases caps.len() - i,
        {
            match self.policy.evaluate(tool.capabilities.at(i)) {
                Decision::Allow => {},
                Decision::Deny(reason) => {
                    return Decision::Deny(reason);
                },
                Decision::Ask => {
                    needs_ask = true;
                },
            }
            i += 1;
        }
        if needs_ask {
            Decision::Ask
        } else {
            Decision::Allow
        }
    }
}

// ---------------------------------------------------------------------------
// Laws
// ---------------------------------------------------------------------------

/// A tool that declares no capability is always allowed.
pub proof fn law_internal_tools_are_allowed(policy: policy::PolicyView)
    ensures
        gate(policy, Seq::empty()) is Allow,
{
}

/// A call is denied exactly where one of its capabilities is; else it is asked
/// about exactly where one of them is; else it is allowed. In particular it
/// goes ahead unasked only where every capability is allowed.
pub proof fn law_deny_wins(policy: policy::PolicyView, caps: Seq<Seq<char>>)
    ensures
        gate(policy, caps) is Deny <==> exists|i: int|
            0 <= i < caps.len() && policy.decide(#[trigger] caps[i]) is Deny,
        gate(policy, caps) is Allow <==> forall|i: int|
            0 <= i < caps.len() ==> policy.decide(#[trigger] caps[i]) is Allow,
        gate(policy, caps) is Ask <==> (exists|i: int|
            0 <= i < caps.len() && policy.decide(#[trigger] caps[i]) is Ask) && !(exists|i: int|
            0 <= i < caps.len() && policy.decide(#[trigger] caps[i]) is Deny),
{
    lemma_gate_from(policy, caps, 0, false);
}

/// The order in which a tool declares its capabilities does not change whether
/// a call is allowed, denied or asked about.
pub proof fn law_order_does_not_matter(
    policy: policy::PolicyView,
    a: Seq<Seq<char>>,
    b: Seq<Seq<char>>,
)
    requires
        forall|c: Seq<char>| a.contains(c) <==> b.contains(c),
    ensures
        gate(policy, a) is Allow <==> gate(policy, b) is Allow,
        gate(policy, a) is Deny <==> gate(policy, b) is Deny,
        gate(policy, a) is Ask <==> gate(policy, b) is Ask,
{
    law_deny_wins(policy, a);
    law_deny_wins(policy, b);
    assert forall|i: int| 0 <= i < a.len() implies b.contains(#[trigger] a[i]) by {
        assert(a.contains(a[i]));
    }
    assert forall|i: int| 0 <= i < b.len() implies a.contains(#[trigger] b[i]) by {
        assert(b.contains(b[i]));
    }
}

proof fn lemma_gate_from(policy: policy::PolicyView, caps: Seq<Seq<char>>, from: int, asked: bool)
    requires
        0 <= from <= caps.len(),
    ensures
        gate_from(policy, caps, from, asked) is Deny <==> exists|i: int|
            from <= i < caps.len() && policy.decide(#[trigger] caps[i]) is Deny,
        gate_from(policy, caps, from, asked) is Allow <==> !asked && forall|i: int|
            from <= i < caps.len() ==> policy.decide(#[trigger] caps[i]) is Allow,
    decreases caps.len() - from,
{
    if from < caps.len() {
        let d = policy.decide(caps[from]);
        lemma_gate_from(policy, caps, from + 1, asked || d is Ask);
        if d is Deny {
            assert(policy.decide(caps[from]) is Deny);
        } else {
            assert(forall|i: int|
                from <= i < caps.len() && policy.decide(#[trigger] caps[i]) is Deny ==> from + 1
                    <= i);
        }
    }
}

/// A denied call is denied for the reason that the policy gives for the first of
/// its capabilities that is denied.
pub proof fn law_the_first_denial_is_the_reason(
    policy: policy::PolicyView,
    caps: Seq<Seq<char>>,
    i: int,
)
    requires
        0 <= i < caps.len(),
        policy.decide(caps[i]) is Deny,
        forall|k: int| 0 <= k < i ==> !(policy.decide(#[trigger] caps[k]) is Deny),
    ensures
        gate(policy, caps) == policy.decide(caps[i]),
{
    lemma_first_denial(policy, caps, i, 0, false);
}

proof fn lemma_first_denial(
    policy: policy::PolicyView,
    caps: Seq<Seq<char>>,
    i: int,
    from: int,
    asked: bool,
)
    requires
        0 <= from <= i < caps.len(),
        policy.decide(caps[i]) is Deny,
        forall|k: int| from <= k < i ==> !(policy.decide(#[trigger] caps[k]) is Deny),
    ensures
        gate_from(policy, caps, from, asked) == policy.decide(caps[i]),
    decreases i - from,
{
    if from < i {
        assert(!(policy.decide(caps[from]) is Deny));
        lemma_first_denial(policy, caps, i, from + 1, asked);
        lemma_first_denial(policy, caps, i, from + 1, true);
    }
}

} // verus!
