use agent_kernel::policy::{prepend_allow_rule, Policy, PolicyAction, PolicyRule};
use agent_kernel::settings::{default_policy, DistributionSettings, Settings};
use agent_kernel::manifest::FrontendKind;
use agent_kernel::types::{Capability, Decision};

fn rule(patterns: &[&str], action: PolicyAction) -> PolicyRule {
    PolicyRule {
        match_capabilities: patterns.iter().map(|p| p.to_string()).collect(),
        action,
        scope_paths: Vec::new(),
        scope_commands: Vec::new(),
        except: Vec::new(),
    }
}

fn policy(name: &str, rules: Vec<PolicyRule>) -> Policy {
    Policy { version: 1, name: name.to_string(), rules, resource_budgets: None }
}

fn test_policy() -> Policy {
    policy(
        "test",
        vec![
            rule(&["fs:read"], PolicyAction::Allow),
            rule(&["fs:write"], PolicyAction::Ask),
            rule(&["net:*"], PolicyAction::Deny),
            rule(&["shell:exec"], PolicyAction::Ask),
        ],
    )
}

fn policy_asking_shell() -> Policy {
    policy("test", vec![rule(&["shell:exec"], PolicyAction::Ask)])
}

#[test]
fn policy_allows_fs_read() {
    let policy = test_policy();
    let decision = policy.evaluate(&Capability::new("fs:read"));
    assert_eq!(decision, Decision::Allow);
}

#[test]
fn policy_asks_for_fs_write() {
    let policy = test_policy();
    let decision = policy.evaluate(&Capability::new("fs:write"));
    assert_eq!(decision, Decision::Ask);
}

#[test]
fn policy_denies_network() {
    let policy = test_policy();
    let decision = policy.evaluate(&Capability::new("net:api.github.com"));
    assert!(matches!(decision, Decision::Deny(_)));
}

#[test]
fn policy_denies_unknown_capability() {
    let policy = test_policy();
    let decision = policy.evaluate(&Capability::new("unknown:something"));
    assert!(matches!(decision, Decision::Deny(_)));
    assert_eq!(
        decision,
        Decision::Deny("no policy rule matches capability 'unknown:something'".to_string())
    );
}

#[test]
fn first_matching_rule_wins() {
    let policy = test_policy();
    assert_eq!(policy.evaluate(&Capability::new("fs:read")), Decision::Allow);
}

#[test]
fn an_earlier_deny_goes_before_a_later_allow() {
    let policy = policy(
        "order",
        vec![rule(&["fs:*"], PolicyAction::Deny), rule(&["fs:read"], PolicyAction::Allow)],
    );
    assert!(matches!(policy.evaluate(&Capability::new("fs:read")), Decision::Deny(_)));
}

#[test]
fn main_prepend_allow_rule_shadows_later_ask() {
    let mut policy = policy_asking_shell();
    assert_eq!(policy.evaluate(&Capability::new("shell:exec")), Decision::Ask);
    prepend_allow_rule(&mut policy, vec!["shell:exec".to_string()]);
    assert_eq!(policy.evaluate(&Capability::new("shell:exec")), Decision::Allow);
    assert_eq!(policy.rules.len(), 2);
    assert_eq!(policy.rules[0].action, PolicyAction::Allow);
    assert_eq!(policy.rules[0].match_capabilities, vec!["shell:exec"]);
}

#[test]
fn main_prepend_allow_rule_preserves_other_capabilities() {
    let mut policy = policy_asking_shell();
    prepend_allow_rule(&mut policy, vec!["net:api.github.com".to_string()]);
    assert_eq!(policy.evaluate(&Capability::new("shell:exec")), Decision::Ask);
    assert_eq!(policy.evaluate(&Capability::new("net:api.github.com")), Decision::Allow);
}

#[test]
fn prepend_allow_rule_shadows_later_ask() {
    let mut policy = policy_asking_shell();
    assert_eq!(policy.evaluate(&Capability::new("shell:exec")), Decision::Ask);
    prepend_allow_rule(&mut policy, vec!["shell:exec".to_string()]);
    assert_eq!(policy.evaluate(&Capability::new("shell:exec")), Decision::Allow);
    assert_eq!(policy.rules.len(), 2);
    assert_eq!(policy.rules[0].action, PolicyAction::Allow);
    assert_eq!(policy.rules[0].match_capabilities, vec!["shell:exec"]);
}

#[test]
fn prepend_allow_rule_preserves_other_capabilities() {
    let mut policy = policy_asking_shell();
    prepend_allow_rule(&mut policy, vec!["net:api.github.com".to_string()]);
    assert_eq!(policy.evaluate(&Capability::new("shell:exec")), Decision::Ask);
    assert_eq!(policy.evaluate(&Capability::new("net:api.github.com")), Decision::Allow);
}

#[test]
fn capability_exact_match() {
    let cap = Capability::new("fs:read");
    let pattern = Capability::new("fs:read");
    assert!(cap.matches(&pattern));
}

#[test]
fn capability_wildcard_match() {
    let cap = Capability::new("net:api.github.com");
    let wildcard = Capability::new("net:*");
    assert!(cap.matches(&wildcard));
}

#[test]
fn capability_no_match() {
    let cap = Capability::new("fs:read");
    let pattern = Capability::new("fs:write");
    assert!(!cap.matches(&pattern));
}

#[test]
fn capability_wildcard_does_not_cross_categories() {
    let cap = Capability::new("shell:exec");
    let wildcard = Capability::new("net:*");
    assert!(!cap.matches(&wildcard));
}

#[test]
fn the_default_policy_frees_files_and_asks_for_the_rest() {
    let policy = default_policy();
    assert_eq!(policy.name, "default-permissive");
    assert_eq!(policy.evaluate(&Capability::new("fs:write")), Decision::Allow);
    assert_eq!(policy.evaluate(&Capability::new("shell:exec")), Decision::Ask);
    assert_eq!(policy.evaluate(&Capability::new("net:example.com")), Decision::Ask);
}

#[test]
fn settings_without_a_manifest() {
    let settings = Settings::deprecated_defaults();
    assert_eq!(settings.manifest.distribution.name, "code-agent");
    assert_eq!(settings.manifest.distribution.version, "0.1.0");
    assert_eq!(settings.frontend, FrontendKind::Tui);
    assert!(settings.manifest.toolsets.is_empty());
    let distribution = DistributionSettings::deprecated_defaults();
    assert!(distribution.enabled_tools.is_none());
    assert_eq!(distribution.policy.rules.len(), 2);
}

#[test]
fn exceptions_are_not_denied() {
    let mut deny = rule(&["net:*"], PolicyAction::Deny);
    deny.except = vec!["net:api.github.com".to_string(), "net:local*".to_string()];
    let p = policy("t", vec![deny, rule(&["net:*"], PolicyAction::Allow)]);
    assert_eq!(p.evaluate(&Capability::new("net:api.github.com")), Decision::Allow);
    assert!(matches!(p.evaluate(&Capability::new("net:example.com")), Decision::Deny(_)));
    assert!(matches!(p.evaluate(&Capability::new("net:localhost")), Decision::Deny(_)));
}

#[test]
fn exceptions_matter_to_deny_rules_only() {
    let mut allow = rule(&["net:*"], PolicyAction::Allow);
    allow.except = vec!["net:*".to_string()];
    let p = policy("t", vec![allow]);
    assert_eq!(p.evaluate(&Capability::new("net:example.com")), Decision::Allow);
}
