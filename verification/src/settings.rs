//! The settings that an agent runs with: those of a manifest, or defaults.

use crate::manifest;
use crate::manifest::{
    manifest_dir, DistributionManifest, DistributionMeta, FrontendKind, ProviderConfig,
};
use crate::paths;
use crate::policy;
use crate::policy::{plain_rule, Policy, PolicyAction, PolicyRule};
use crate::text::same;
use crate::types;
use vstd::prelude::*;
use vstd::string::*;

verus! {

/// A rule without scopes and exceptions.
pub open spec fn rule(patterns: Seq<Seq<char>>, action: PolicyAction) -> policy::PolicyRuleView {
    policy::PolicyRuleView { action, ..policy::allow_rule(patterns) }
}

/// The policy where no other is given: files are free, commands and the network
/// are asked for.
pub open spec fn default_policy_view() -> policy::PolicyView {
    policy::PolicyView {
        version: 1,
        name: "default-permissive"@,
        rules: seq![
            rule(seq!["fs:read"@, "fs:write"@], PolicyAction::Allow),
            rule(seq!["shell:exec"@, "net:*"@], PolicyAction::Ask),
        ],
        resource_budgets: None,
    }
}

fn pair(a: &str, b: &str) -> (r: Vec<String>)
    ensures
        r.deep_view() == seq![a@, b@],
{
    let mut r: Vec<String> = Vec::new();
    r.push(a.to_owned());
    r.push(b.to_owned());
    assert(r.deep_view() =~= seq![a@, b@]);
    r
}

/// The policy where no other is given.
pub fn default_policy() -> (r: Policy)
    ensures
        r.deep_view() == default_policy_view(),
{
    let mut rules: Vec<PolicyRule> = Vec::new();
    rules.push(plain_rule(pair("fs:read", "fs:write"), PolicyAction::Allow));
    rules.push(plain_rule(pair("shell:exec", "net:*"), PolicyAction::Ask));
    assert(rules.deep_view() =~= default_policy_view().rules);
    Policy { version: 1, name: "default-permissive".to_owned(), rules, resource_budgets: None }
}

/// The settings of an agent.
#[derive(Debug)]
pub struct Settings {
    pub manifest: DistributionManifest,
    pub policy: Policy,
    pub frontend: FrontendKind,
}

impl Settings {
    /// The settings without a manifest.
    pub fn deprecated_defaults() -> (r: Self)
        ensures
            r.manifest.distribution.name@ == "code-agent"@,
            r.manifest.distribution.version@ == "0.1.0"@,
            r.manifest.provider is Echo,
            r.manifest.policy is None,
            r.manifest.frontend is None,
            r.manifest.toolsets@.len() == 0,
            r.policy.deep_view() == default_policy_view(),
            r.frontend == FrontendKind::Tui,
    {
        Settings {
            manifest: DistributionManifest {
                distribution: DistributionMeta {
                    name: "code-agent".to_owned(),
                    version: "0.1.0".to_owned(),
                },
                provider: ProviderConfig::Echo,
                policy: None,
                frontend: None,
                toolsets: Vec::new(),
            },
            policy: default_policy(),
            frontend: FrontendKind::Tui,
        }
    }

    /// The settings of a manifest, with the policy that it names. Without a
    /// frontend the terminal interface is used.
    pub fn of(manifest: DistributionManifest, policy: Policy) -> (r: Self)
        ensures
            r.manifest == manifest,
            r.policy == policy,
            r.frontend == (match manifest.frontend {
                Some(f) => f.kind,
                None => FrontendKind::Tui,
            }),
    {
        let frontend = match &manifest.frontend {
            Some(f) => f.kind,
            None => FrontendKind::Tui,
        };
        Settings { manifest, policy, frontend }
    }
}

/// The file that holds the policy of a manifest. A manifest without a policy is
/// refused.
pub fn policy_path(manifest: &DistributionManifest, manifest_path: &str) -> (r: Result<
    String,
    String,
>)
    ensures
        match manifest.policy {
            Some(config) => r matches Ok(path) && path@ == paths::join(
                manifest::dir_of_manifest(manifest_path@),
                config.file@,
            ),
            None => r matches Err(e) && e@ == "manifest has no [policy] section"@,
        },
{
    match &manifest.policy {
        Some(config) => {
            let dir = manifest_dir(manifest_path);
            Ok(config.resolve(dir.as_str()))
        },
        None => Err("manifest has no [policy] section".to_owned()),
    }
}

/// The settings of the code-agent distribution.
#[derive(Debug)]
pub struct DistributionSettings {
    pub policy: Policy,
    /// The tools to enable; without a list, all.
    pub enabled_tools: Option<Vec<String>>,
}

impl DistributionSettings {
    /// The settings without a manifest.
    pub fn deprecated_defaults() -> (r: Self)
        ensures
            r.policy.deep_view() == default_policy_view(),
            r.enabled_tools is None,
    {
        DistributionSettings { policy: default_policy(), enabled_tools: None }
    }
}

// ---------------------------------------------------------------------------
// Arguments
// ---------------------------------------------------------------------------

/// Where the first argument `name` stands, from position `from` on.
pub open spec fn argument_from(args: Seq<Seq<char>>, name: Seq<char>, from: int) -> int
    decreases args.len() - from,
{
    if from < 0 || from >= args.len() {
        -1
    } else if args[from] == name {
        from
    } else {
        argument_from(args, name, from + 1)
    }
}

/// Where the first argument `name` stands.
pub fn argument_position(args: &Vec<String>, name: &str) -> (r: Option<usize>)
    ensures
        match r {
            Some(i) => argument_from(args.deep_view(), name@, 0) == i && i < args@.len(),
            None => argument_from(args.deep_view(), name@, 0) == -1,
        },
{
    let ghost all = args.deep_view();
    let mut i: usize = 0;
    while i < args.len()
        invariant
            all == args.deep_view(),
            i <= args@.len() == all.len(),
            argument_from(all, name@, 0) == argument_from(all, name@, i as int),
        decreases args@.len() - i,
    {
        if same(args[i].as_str(), name) {
            return Some(i);
        }
        i += 1;
    }
    None
}

/// The argument behind the first `name`.
pub open spec fn option_in(args: Seq<Seq<char>>, name: Seq<char>) -> Option<Seq<char>> {
    let i = argument_from(args, name, 0);
    if i >= 0 && i + 1 < args.len() {
        Some(args[i + 1])
    } else {
        None
    }
}

/// The argument behind the first `name`.
pub fn option_value(args: &Vec<String>, name: &str) -> (r: Option<String>)
    ensures
        r.deep_view() == option_in(args.deep_view(), name@),
{
    match argument_position(args, name) {
        Some(i) => {
            let n: usize = args.len();
            if n - i > 1 {
                Some(args[i + 1].clone())
            } else {
                None
            }
        },
        None => None,
    }
}

/// The manifest that the arguments name: by `--manifest`, or else by `--distro`.
pub open spec fn manifest_in(args: Seq<Seq<char>>) -> Option<Seq<char>> {
    if argument_from(args, "--manifest"@, 0) >= 0 {
        option_in(args, "--manifest"@)
    } else {
        option_in(args, "--distro"@)
    }
}

/// The manifest that the arguments name: by `--manifest`, or else by `--distro`.
pub fn manifest_argument(args: &Vec<String>) -> (r: Option<String>)
    ensures
        r.deep_view() == manifest_in(args.deep_view()),
{
    match argument_position(args, "--manifest") {
        Some(_) => option_value(args, "--manifest"),
        None => option_value(args, "--distro"),
    }
}

/// The frontend to run: `--repl` goes before what the settings say.
pub open spec fn frontend_in(args: Seq<Seq<char>>, settings: FrontendKind) -> FrontendKind {
    if argument_from(args, "--repl"@, 0) >= 0 {
        FrontendKind::Repl
    } else {
        settings
    }
}

/// The frontend to run: `--repl` goes before what the settings say.
pub fn frontend_argument(args: &Vec<String>, settings: FrontendKind) -> (r: FrontendKind)
    ensures
        r == frontend_in(args.deep_view(), settings),
{
    match argument_position(args, "--repl") {
        Some(_) => FrontendKind::Repl,
        None => settings,
    }
}

// ---------------------------------------------------------------------------
// Laws
// ---------------------------------------------------------------------------

/// Where no policy is given, files may be read and written, commands and all of
/// the network are asked about, and everything else is denied.
pub proof fn law_the_default_policy(cap: Seq<char>)
    ensures
        default_policy_view().decide("fs:read"@) is Allow,
        default_policy_view().decide("fs:write"@) is Allow,
        default_policy_view().decide("shell:exec"@) is Ask,
        cap.len() >= 4 && cap.subrange(0, 4) == "net:"@ ==> default_policy_view().decide(cap)
            is Ask,
        cap != "fs:read"@ && cap != "fs:write"@ && cap != "shell:exec"@ && !(cap.len() >= 4
            && cap.subrange(0, 4) == "net:"@) ==> default_policy_view().decide(cap) is Deny,
{
    reveal_strlit("fs:read");
    reveal_strlit("fs:write");
    reveal_strlit("shell:exec");
    reveal_strlit("net:*");
    reveal_strlit("net:");
    let p = default_policy_view();
    let files = seq!["fs:read"@, "fs:write"@];
    let rest = seq!["shell:exec"@, "net:*"@];
    assert(p.rules[0].match_capabilities =~= files);
    assert(p.rules[1].match_capabilities =~= rest);
    assert("net:*"@.drop_last() =~= "net:"@);
    assert("fs:read"@.len() == 7 && "fs:read"@.last() == 'd');
    assert("fs:write"@.len() == 8 && "fs:write"@.last() == 'e');
    assert("shell:exec"@.len() == 10 && "shell:exec"@.last() == 'c');
    assert("shell:exec"@[0] == 's');
    assert forall|c: Seq<char>| #[trigger] policy::some_takes(files, c) <==> c == "fs:read"@ || c
        == "fs:write"@ by {
        if c == "fs:read"@ {
            assert(types::capability_matches(c, files[0]));
        }
        if c == "fs:write"@ {
            assert(types::capability_matches(c, files[1]));
        }
        if policy::some_takes(files, c) {
            let i = choose|i: int|
                0 <= i < files.len() && types::capability_matches(c, #[trigger] files[i]);
            assert(i == 0 || i == 1);
        }
    }
    assert forall|c: Seq<char>| #[trigger] policy::some_takes(rest, c) <==> c == "shell:exec"@ || (
    c.len() >= 4 && c.subrange(0, 4) == "net:"@) by {
        if c == "shell:exec"@ {
            assert(types::capability_matches(c, rest[0]));
        }
        if c.len() >= 4 && c.subrange(0, 4) == "net:"@ {
            assert(types::capability_matches(c, rest[1]));
        }
        if policy::some_takes(rest, c) {
            let i = choose|i: int|
                0 <= i < rest.len() && types::capability_matches(c, #[trigger] rest[i]);
            assert(i == 0 || i == 1);
        }
    }
    reveal_with_fuel(policy::PolicyView::decide_from, 3);
    assert(policy::some_takes(files, "fs:read"@));
    assert(policy::some_takes(files, "fs:write"@));
    assert(policy::some_takes(rest, "shell:exec"@));
    assert(!policy::some_takes(files, "shell:exec"@));
    if cap.len() >= 4 && cap.subrange(0, 4) == "net:"@ {
        assert("net:"@[0] == 'n');
        assert(cap[0] == cap.subrange(0, 4)[0]);
        assert("fs:read"@[0] == 'f');
        assert("fs:write"@[0] == 'f');
        assert(!policy::some_takes(files, cap));
        assert(policy::some_takes(rest, cap));
    }
    assert(policy::some_takes(files, cap) || policy::some_takes(rest, cap) || p.decide(cap)
        is Deny);
}

/// An option is what stands behind the first argument of its name. There is none
/// where nothing stands there, or the name is not given.
pub proof fn law_options_stand_behind_their_name(
    args: Seq<Seq<char>>,
    name: Seq<char>,
    i: int,
)
    requires
        0 <= i < args.len(),
        args[i] == name,
        forall|k: int| 0 <= k < i ==> args[k] != name,
    ensures
        argument_from(args, name, 0) == i,
        i + 1 < args.len() ==> option_in(args, name) == Some(args[i + 1]),
        i + 1 == args.len() ==> option_in(args, name) is None,
{
    lemma_argument(args, name, i, 0);
}

proof fn lemma_argument(args: Seq<Seq<char>>, name: Seq<char>, i: int, from: int)
    requires
        0 <= from <= i < args.len(),
        args[i] == name,
        forall|k: int| from <= k < i ==> args[k] != name,
    ensures
        argument_from(args, name, from) == i,
    decreases i - from,
{
    if from < i {
        lemma_argument(args, name, i, from + 1);
    }
}

/// An argument that is not given is not found.
pub proof fn law_missing_arguments_are_not_found(
    args: Seq<Seq<char>>,
    name: Seq<char>,
    from: int,
)
    requires
        0 <= from,
        forall|k: int| from <= k < args.len() ==> args[k] != name,
    ensures
        argument_from(args, name, from) == -1,
        from == 0 ==> option_in(args, name) is None,
    decreases args.len() - from,
{
    if from < args.len() {
        law_missing_arguments_are_not_found(args, name, from + 1);
    }
}

/// A manifest is named behind its argument, and the newer argument goes before the
/// older. The line interface runs where it is asked for, and otherwise the
/// interface of the settings does.
pub proof fn law_arguments_say_what_runs(
    args: Seq<Seq<char>>,
    i: int,
    settings: FrontendKind,
)
    requires
        0 <= i < args.len(),
        forall|k: int| 0 <= k < i ==> args[k] != args[i],
    ensures
        args[i] == "--manifest"@ && i + 1 < args.len() ==> manifest_in(args) == Some(args[i + 1]),
        args[i] == "--distro"@ && i + 1 < args.len() && (forall|k: int|
            0 <= k < args.len() ==> args[k] != "--manifest"@) ==> manifest_in(args) == Some(
            args[i + 1],
        ),
        args[i] == "--repl"@ ==> frontend_in(args, settings) == FrontendKind::Repl,
        (forall|k: int| 0 <= k < args.len() ==> args[k] != "--repl"@) ==> frontend_in(
            args,
            settings,
        ) == settings,
{
    law_options_stand_behind_their_name(args, args[i], i);
    if forall|k: int| 0 <= k < args.len() ==> args[k] != "--manifest"@ {
        law_missing_arguments_are_not_found(args, "--manifest"@, 0);
    }
    if forall|k: int| 0 <= k < args.len() ==> args[k] != "--repl"@ {
        law_missing_arguments_are_not_found(args, "--repl"@, 0);
    }
}

} // verus!
