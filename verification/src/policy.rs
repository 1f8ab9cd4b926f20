//! Policies: ordered rules that say which capabilities a tool may use.

use crate::text::copy_texts;
use crate::types;
use crate::types::{Capability, Decision, ResourceBudget};
use vstd::prelude::*;
use vstd::string::*;

verus! {

/// What a rule does with the capabilities that it matches.
#[derive(Debug, Clone, Copy, PartialEq, Eq, Structural)]
pub enum PolicyAction {
    Allow,
    Deny,
    Ask,
}

/// A single policy rule: matches capabilities and determines the action.
#[derive(Debug)]
pub struct PolicyRule {
    /// Capability patterns, such as `fs:read` or `net:*`.
    pub match_capabilities: Vec<String>,
    /// What to do when a pattern matches.
    pub action: PolicyAction,
    /// Path scope for fs capabilities.
    pub scope_paths: Vec<String>,
    /// Command scope for shell capabilities.
    pub scope_commands: Vec<String>,
    /// Exceptions to deny rules: patterns of capabilities that the rule does not
    /// deny.
    pub except: Vec<String>,
}

#[verifier::ext_equal]
pub ghost struct PolicyRuleView {
    pub match_capabilities: Seq<Seq<char>>,
    pub action: PolicyAction,
    pub scope_paths: Seq<Seq<char>>,
    pub scope_commands: Seq<Seq<char>>,
    pub except: Seq<Seq<char>>,
}

impl DeepView for PolicyRule {
    type V = PolicyRuleView;

    open spec fn deep_view(&self) -> PolicyRuleView {
        PolicyRuleView {
            match_capabilities: self.match_capabilities.deep_view(),
            action: self.action,
            scope_paths: self.scope_paths.deep_view(),
            scope_commands: self.scope_commands.deep_view(),
            except: self.except.deep_view(),
        }
    }
}

impl Clone for PolicyRule {
    fn clone(&self) -> (r: Self)
        ensures
            r.deep_view() == self.deep_view(),
    {
        PolicyRule {
            match_capabilities: copy_texts(&self.match_capabilities),
            action: self.action,
            scope_paths: copy_texts(&self.scope_paths),
            scope_commands: copy_texts(&self.scope_commands),
            except: copy_texts(&self.except),
        }
    }
}

/// A complete policy configuration.
#[derive(Debug)]
pub struct Policy {
    pub version: u32,
    pub name: String,
    pub rules: Vec<PolicyRule>,
    pub resource_budgets: Option<ResourceBudget>,
}

#[verifier::ext_equal]
pub ghost struct PolicyView {
    pub version: u32,
    pub name: Seq<char>,
    pub rules: Seq<PolicyRuleView>,
    pub resource_budgets: Option<ResourceBudget>,
}

impl DeepView for Policy {
    type V = PolicyView;

    open spec fn deep_view(&self) -> PolicyView {
        PolicyView {
            version: self.version,
            name: self.name@,
            rules: self.rules.deep_view(),
            resource_budgets: self.resource_budgets,
        }
    }
}

impl Clone for Policy {
    fn clone(&self) -> (r: Self)
        ensures
            r.deep_view() == self.deep_view(),
    {
        let rules = self.rules.clone();
        assert(rules.deep_view() =~= self.rules.deep_view());
        Policy {
            version: self.version,
            name: self.name.clone(),
            rules,
            resource_budgets: self.resource_budgets,
        }
    }
}

// ---------------------------------------------------------------------------
// Evaluation
// ---------------------------------------------------------------------------

/// Whether one of `patterns` takes `cap`.
pub open spec fn some_takes(patterns: Seq<Seq<char>>, cap: Seq<char>) -> bool {
    exists|i: int|
        0 <= i < patterns.len() && types::capability_matches(cap, #[trigger] patterns[i])
}

impl PolicyRuleView {
    /// Whether the rule applies to `cap`: one of its patterns takes it, and,
    /// where the rule denies, none of its exceptions does.
    pub open spec fn matches(self, cap: Seq<char>) -> bool {
        &&& some_takes(self.match_capabilities, cap)
        &&& self.action == PolicyAction::Deny ==> !some_takes(self.except, cap)
    }
}

impl PolicyView {
    /// What the rules from position `i` on say of `cap`: the first rule that
    /// applies decides, and what no rule applies to is denied.
    pub open spec fn decide_from(self, cap: Seq<char>, i: int) -> types::DecisionView
        decreases self.rules.len() - i,
    {
        if i < 0 || i >= self.rules.len() {
            types::DecisionView::Deny("no policy rule matches capability '"@ + cap + "'"@)
        } else if self.rules[i].matches(cap) {
            self.act(self.rules[i].action, cap)
        } else {
            self.decide_from(cap, i + 1)
        }
    }

    /// The decision that an action makes on `cap`.
    pub open spec fn act(self, action: PolicyAction, cap: Seq<char>) -> types::DecisionView {
        match action {
            PolicyAction::Allow => types::DecisionView::Allow,
            PolicyAction::Deny => types::DecisionView::Deny(
                "policy '"@ + self.name + "' denies capability '"@ + cap + "'"@,
            ),
            PolicyAction::Ask => types::DecisionView::Ask,
        }
    }

    /// What the policy says of `cap`.
    pub open spec fn decide(self, cap: Seq<char>) -> types::DecisionView {
        self.decide_from(cap, 0)
    }
}

fn some_takes_of(patterns: &Vec<String>, capability: &Capability) -> (r: bool)
    ensures
        r == some_takes(patterns.deep_view(), capability.deep_view()),
{
    let ghost all = patterns.deep_view();
    let ghost cap = capability.deep_view();
    let mut i: usize = 0;
    while i < patterns.len()
        invariant
            all == patterns.deep_view(),
            cap == capability.deep_view(),
            i <= all.len(),
            forall|m: int| 0 <= m < i ==> !types::capability_matches(cap, #[trigger] all[m]),
        decreases all.len() - i,
    {
        let pattern = Capability::new(patterns[i].as_str());
        if capability.matches(&pattern) {
            assert(types::capability_matches(cap, all[i as int]));
            return true;
        }
        i += 1;
    }
    false
}

impl PolicyRule {
    /// Whether the rule applies to a capability.
    pub fn matches(&self, capability: &Capability) -> (r: bool)
        ensures
            r == self.deep_view().matches(capability.deep_view()),
    {
        some_takes_of(&self.match_capabilities, capability) && !(self.action == PolicyAction::Deny
            && some_takes_of(&self.except, capability))
    }
}

impl Policy {
    /// Evaluates a single capability: rules are tried in order, and the first
    /// that applies decides.
    pub fn evaluate(&self, capability: &Capability) -> (d: Decision)
        ensures
            d.deep_view() == self.deep_view().decide(capability.deep_view()),
    {
        let ghost cap = capability.deep_view();
        let mut i: usize = 0;
        while i < self.rules.len()
            invariant
                cap == capability.deep_view(),
                i <= self.rules@.len(),
                self.deep_view().decide(cap) == self.deep_view().decide_from(cap, i as int),
            decreases self.rules@.len() - i,
        {
            let rule = &self.rules[i];
            assert(rule.deep_view() == self.deep_view().rules[i as int]);
            if rule.matches(capability) {
                return match rule.action {
                    PolicyAction::Allow => Decision::Allow,
                    PolicyAction::Deny => {
                        let mut reason = "policy '".to_owned();
                        reason.push_str(self.name.as_str());
                        reason.push_str("' denies capability '");
                        reason.push_str(capability.0.as_str());
                        reason.push_str("'");
                        Decision::Deny(reason)
                    },
                    PolicyAction::Ask => Decision::Ask,
                };
            }
            i += 1;
        }
        let mut reason = "no policy rule matches capability '".to_owned();
        reason.push_str(capability.0.as_str());
        reason.push_str("'");
        Decision::Deny(reason)
    }
}

/// The rule that allows the capabilities under `patterns`.
pub open spec fn allow_rule(patterns: Seq<Seq<char>>) -> PolicyRuleView {
    PolicyRuleView {
        match_capabilities: patterns,
        action: PolicyAction::Allow,
        scope_paths: Seq::empty(),
        scope_commands: Seq::empty(),
        except: Seq::empty(),
    }
}

/// A rule without scopes and exceptions.
pub fn plain_rule(match_capabilities: Vec<String>, action: PolicyAction) -> (r: PolicyRule)
    ensures
        r.deep_view() == (PolicyRuleView {
            action,
            ..allow_rule(match_capabilities.deep_view())
        }),
{
    let r = PolicyRule {
        match_capabilities,
        action,
        scope_paths: Vec::new(),
        scope_commands: Vec::new(),
        except: Vec::new(),
    };
    assert(r.scope_paths.deep_view() =~= Seq::empty());
    assert(r.scope_commands.deep_view() =~= Seq::empty());
    assert(r.except.deep_view() =~= Seq::empty());
    r
}

/// Puts a rule that allows `capabilities` before the rules of `policy`, where
/// it decides before any later rule that matches the same capability.
pub fn prepend_allow_rule(policy: &mut Policy, capabilities: Vec<String>)
    ensures
        final(policy).deep_view() == (PolicyView {
            rules: seq![allow_rule(capabilities.deep_view())] + old(policy).deep_view().rules,
            ..old(policy).deep_view()
        }),
{
    let ghost before = policy.deep_view().rules;
    let rule = plain_rule(capabilities, PolicyAction::Allow);
    let ghost added = rule.deep_view();
    policy.rules.insert(0, rule);
    assert(policy.rules.deep_view() =~= seq![added] + before);
}

// ---------------------------------------------------------------------------
// Laws
// ---------------------------------------------------------------------------

/// The first rule that applies to a capability decides on it.
pub proof fn law_first_match_wins(policy: PolicyView, cap: Seq<char>, i: int)
    requires
        0 <= i < policy.rules.len(),
        policy.rules[i].matches(cap),
        forall|k: int| 0 <= k < i ==> !(#[trigger] policy.rules[k]).matches(cap),
    ensures
        policy.decide(cap) == policy.act(policy.rules[i].action, cap),
{
    lemma_skip(policy, cap, 0, i);
}

/// What no rule applies to is denied, for that reason.
pub proof fn law_default_deny(policy: PolicyView, cap: Seq<char>)
    requires
        forall|k: int| 0 <= k < policy.rules.len() ==> !(#[trigger] policy.rules[k]).matches(cap),
    ensures
        policy.decide(cap) == types::DecisionView::Deny(
            "no policy rule matches capability '"@ + cap + "'"@,
        ),
{
    lemma_skip(policy, cap, 0, policy.rules.len() as int);
}

/// A rule that denies decides nothing on a capability that one of its exceptions
/// takes: the decision is that of the same policy without the rule.
pub proof fn law_exceptions_are_not_denied(policy: PolicyView, cap: Seq<char>, i: int)
    requires
        0 <= i < policy.rules.len(),
        policy.rules[i].action == PolicyAction::Deny,
        some_takes(policy.rules[i].except, cap),
    ensures
        policy.decide(cap) == (PolicyView { rules: policy.rules.remove(i), ..policy }).decide(cap),
{
    let rest = PolicyView { rules: policy.rules.remove(i), ..policy };
    lemma_removed(policy, rest, cap, i, 0);
}

proof fn lemma_removed(policy: PolicyView, rest: PolicyView, cap: Seq<char>, i: int, from: int)
    requires
        0 <= i < policy.rules.len(),
        0 <= from <= rest.rules.len(),
        !policy.rules[i].matches(cap),
        rest == (PolicyView { rules: policy.rules.remove(i), ..policy }),
    ensures
        rest.decide_from(cap, from) == policy.decide_from(
            cap,
            if from <= i {
                from
            } else {
                from + 1
            },
        ),
    decreases rest.rules.len() - from,
{
    if from < rest.rules.len() {
        lemma_removed(policy, rest, cap, i, from + 1);
    }
    if from == i {
        assert(policy.decide_from(cap, i) == policy.decide_from(cap, i + 1));
    }
}

/// Nothing is allowed, and nothing is asked about, unless a rule with that
/// action applies to it.
pub proof fn law_nothing_without_a_rule(policy: PolicyView, cap: Seq<char>)
    ensures
        policy.decide(cap) is Allow ==> exists|i: int|
            0 <= i < policy.rules.len() && (#[trigger] policy.rules[i]).matches(cap)
                && policy.rules[i].action == PolicyAction::Allow,
        policy.decide(cap) is Ask ==> exists|i: int|
            0 <= i < policy.rules.len() && (#[trigger] policy.rules[i]).matches(cap)
                && policy.rules[i].action == PolicyAction::Ask,
{
    if exists|i: int| 0 <= i < policy.rules.len() && (#[trigger] policy.rules[i]).matches(cap) {
        lemma_decided_by(policy, cap, 0);
    } else {
        law_default_deny(policy, cap);
    }
}

/// A rule that allows some capabilities, put first, allows exactly what falls
/// under its patterns and leaves every other decision as it was.
pub proof fn law_prepended_allow(policy: PolicyView, patterns: Seq<Seq<char>>, cap: Seq<char>)
    ensures
        ({
            let extended = PolicyView {
                rules: seq![allow_rule(patterns)] + policy.rules,
                ..policy
            };
            extended.decide(cap) == if allow_rule(patterns).matches(cap) {
                types::DecisionView::Allow
            } else {
                policy.decide(cap)
            }
        }),
{
    let extended = PolicyView { rules: seq![allow_rule(patterns)] + policy.rules, ..policy };
    assert(extended.rules[0] == allow_rule(patterns));
    if !allow_rule(patterns).matches(cap) {
        lemma_shift(policy, extended, cap, 0);
    }
}

proof fn lemma_skip(policy: PolicyView, cap: Seq<char>, from: int, to: int)
    requires
        0 <= from <= to <= policy.rules.len(),
        forall|k: int| from <= k < to ==> !(#[trigger] policy.rules[k]).matches(cap),
    ensures
        policy.decide_from(cap, from) == policy.decide_from(cap, to),
    decreases to - from,
{
    if from < to {
        assert(!policy.rules[from].matches(cap));
        lemma_skip(policy, cap, from + 1, to);
    }
}

proof fn lemma_decided_by(policy: PolicyView, cap: Seq<char>, from: int)
    requires
        0 <= from <= policy.rules.len(),
        exists|i: int| from <= i < policy.rules.len() && (#[trigger] policy.rules[i]).matches(cap),
    ensures
        exists|i: int|
            from <= i < policy.rules.len() && (#[trigger] policy.rules[i]).matches(cap)
                && policy.decide_from(cap, from) == policy.act(policy.rules[i].action, cap),
    decreases policy.rules.len() - from,
{
    if !policy.rules[from].matches(cap) {
        lemma_decided_by(policy, cap, from + 1);
    }
}

proof fn lemma_shift(policy: PolicyView, extended: PolicyView, cap: Seq<char>, i: int)
    requires
        0 <= i <= policy.rules.len(),
        extended.rules.len() == policy.rules.len() + 1,
        extended.name == policy.name,
        forall|k: int| 0 <= k < policy.rules.len() ==> extended.rules[k + 1] == #[trigger] policy.rules[k],
    ensures
        extended.decide_from(cap, i + 1) == policy.decide_from(cap, i),
    decreases policy.rules.len() - i,
{
    if i < policy.rules.len() {
        assert(extended.rules[i + 1] == policy.rules[i]);
        lemma_shift(policy, extended, cap, i + 1);
    }
}

/// The first rule of a policy decides as its action says on every capability that
/// one of its patterns takes, unless it denies and has exceptions. A denial names
/// the policy and the capability.
pub proof fn law_actions_decide(policy: PolicyView, cap: Seq<char>, k: int)
    requires
        policy.rules.len() > 0,
        0 <= k < policy.rules[0].match_capabilities.len(),
        types::capability_matches(cap, policy.rules[0].match_capabilities[k]),
    ensures
        policy.rules[0].action == PolicyAction::Allow ==> policy.decide(cap)
            == types::DecisionView::Allow,
        policy.rules[0].action == PolicyAction::Ask ==> policy.decide(cap)
            == types::DecisionView::Ask,
        policy.rules[0].action == PolicyAction::Deny && policy.rules[0].except.len() == 0
            ==> policy.decide(cap) == types::DecisionView::Deny(
            "policy '"@ + policy.name + "' denies capability '"@ + cap + "'"@,
        ),
{
    assert(some_takes(policy.rules[0].match_capabilities, cap));
}

/// A rule that takes a capability by none of its patterns leaves the decision to
/// the rules behind it.
pub proof fn law_other_rules_are_passed_over(policy: PolicyView, cap: Seq<char>)
    requires
        policy.rules.len() > 0,
        forall|k: int|
            0 <= k < policy.rules[0].match_capabilities.len() ==> !types::capability_matches(
                cap,
                #[trigger] policy.rules[0].match_capabilities[k],
            ),
    ensures
        policy.decide(cap) == (PolicyView { rules: policy.rules.skip(1), ..policy }).decide(cap),
{
    let rest = PolicyView { rules: policy.rules.skip(1), ..policy };
    assert forall|k: int| 0 <= k < rest.rules.len() implies policy.rules[k + 1]
        == #[trigger] rest.rules[k] by {}
    lemma_shift(rest, policy, cap, 0);
}

/// The rule that allows some patterns allows each of them, and has no scope and no
/// exception.
pub proof fn law_an_allow_rule_allows(patterns: Seq<Seq<char>>)
    ensures
        allow_rule(patterns).match_capabilities == patterns,
        allow_rule(patterns).action == PolicyAction::Allow,
        allow_rule(patterns).scope_paths.len() == 0,
        allow_rule(patterns).scope_commands.len() == 0,
        allow_rule(patterns).except.len() == 0,
{
}

} // verus!
