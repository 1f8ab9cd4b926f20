//! The distribution manifest: which provider, policy, toolsets and frontend
//! the kernel runs with.

use crate::json;
use crate::json::Json;
use crate::paths;
use crate::text::same;
use vstd::prelude::*;
use vstd::string::*;

verus! {

#[derive(Debug)]
pub struct DistributionManifest {
    pub distribution: DistributionMeta,
    pub provider: ProviderConfig,
    pub policy: Option<PolicyConfig>,
    pub frontend: Option<FrontendConfig>,
    /// Each entry names a kind of toolset and holds what that kind needs.
    pub toolsets: Vec<ToolsetEntry>,
}

#[derive(Debug)]
pub struct DistributionMeta {
    pub name: String,
    pub version: String,
}

#[derive(Debug)]
pub enum ProviderConfig {
    Anthropic { model: String, api_key_env: String, fallback: Option<ProviderFallback> },
    Echo,
}

#[derive(Debug, Clone, Copy, PartialEq, Eq, Structural)]
pub enum ProviderFallback {
    Echo,
}

#[derive(Debug)]
pub struct PolicyConfig {
    /// Path of a YAML policy file, relative to the manifest's directory unless
    /// it is absolute.
    pub file: String,
}

#[derive(Debug, Clone, Copy, PartialEq, Eq, Structural)]
pub enum FrontendKind {
    Tui,
    Repl,
}

#[derive(Debug)]
pub struct FrontendConfig {
    pub kind: FrontendKind,
}

/// One toolset of the manifest.
#[derive(Debug)]
pub struct ToolsetEntry {
    /// Says which factory builds the toolset.
    pub kind: String,
    /// Where there is none, the factory picks one.
    pub id: Option<String>,
    /// What the factory needs.
    pub config: Toml,
}

// ---------------------------------------------------------------------------
// TOML
// ---------------------------------------------------------------------------

/// A TOML value.
#[derive(Debug)]
pub enum Toml {
    Str(String),
    Integer(i64),
    /// As a JSON number, where JSON has one for it.
    Float(Option<serde_json::Number>),
    Boolean(bool),
    /// As TOML writes it.
    Datetime(String),
    Array(Vec<Toml>),
    /// The members; of two members with one key the later counts.
    Table(Vec<(String, Toml)>),
}

/// The JSON document of a TOML value: an integer, a text, a truth value, an
/// array or a table is itself, a date a text, and a float that JSON has no
/// number for is null.
pub open spec fn toml_json(v: Toml) -> json::JsonView
    decreases v,
{
    match v {
        Toml::Str(s) => json::JsonView::Str(s@),
        Toml::Integer(i) => json::json_int(i),
        Toml::Float(Some(n)) => json::JsonView::Number(json::number_contents(n)),
        Toml::Float(None) => json::JsonView::Null,
        Toml::Boolean(b) => json::JsonView::Bool(b),
        Toml::Datetime(s) => json::JsonView::Str(s@),
        Toml::Array(items) => json::JsonView::Array(toml_items(items@)),
        Toml::Table(members) => json::JsonView::Object(toml_members(members@)),
    }
}

/// The JSON documents of some TOML values.
pub open spec fn toml_items(items: Seq<Toml>) -> Seq<json::JsonView>
    decreases items,
{
    if items.len() == 0 {
        Seq::empty()
    } else {
        toml_items(items.drop_last()).push(toml_json(items.last()))
    }
}

/// The members of a JSON object for those of a TOML table.
pub open spec fn toml_members(members: Seq<(String, Toml)>) -> Map<Seq<char>, json::JsonView>
    decreases members,
{
    if members.len() == 0 {
        Map::empty()
    } else {
        toml_members(members.drop_last()).insert(
            members.last().0@,
            toml_json(members.last().1),
        )
    }
}

impl Toml {
    /// The member `key` of a table.
    pub open spec fn member(self, key: Seq<char>) -> Option<Toml> {
        match self {
            Toml::Table(members) => find_member(members@, key),
            _ => None,
        }
    }

    /// The texts among the items of an array; another value has none.
    pub open spec fn texts(self) -> Seq<Seq<char>> {
        match self {
            Toml::Array(items) => texts_among(items@),
            _ => Seq::empty(),
        }
    }

    /// The member `key` of a table.
    pub fn get(&self, key: &str) -> (r: Option<&Toml>)
        ensures
            match r {
                Some(v) => self.member(key@) == Some(*v),
                None => self.member(key@) is None,
            },
    {
        match self {
            Toml::Table(members) => {
                let mut i: usize = members.len();
                assert(members@.take(i as int) =~= members@);
                while i > 0
                    invariant
                        i <= members@.len(),
                        *self == Toml::Table(*members),
                        find_member(members@, key@) == find_member(members@.take(i as int), key@),
                    decreases i,
                {
                    assert(members@.take(i as int).drop_last() =~= members@.take(i - 1));
                    i -= 1;
                    if same(members[i].0.as_str(), key) {
                        return Some(&members[i].1);
                    }
                }
                None
            },
            _ => None,
        }
    }

    /// The text of a text.
    pub fn as_str(&self) -> (r: Option<&str>)
        ensures
            match r {
                Some(s) => self matches Toml::Str(t) && s@ == t@,
                None => !(self is Str),
            },
    {
        match self {
            Toml::Str(s) => Some(s.as_str()),
            _ => None,
        }
    }

    /// The texts among the items of an array; another value has none.
    pub fn text_items(&self) -> (r: Vec<String>)
        ensures
            r.deep_view() == self.texts(),
    {
        let mut r: Vec<String> = Vec::new();
        assert(r.deep_view() =~= Seq::empty());
        match self {
            Toml::Array(items) => {
                let mut i: usize = 0;
                assert(items@.take(0) =~= Seq::empty());
                while i < items.len()
                    invariant
                        i <= items@.len(),
                        r.deep_view() == texts_among(items@.take(i as int)),
                    decreases items@.len() - i,
                {
                    let ghost before = r.deep_view();
                    assert(items@.take(i + 1).drop_last() =~= items@.take(i as int));
                    match &items[i] {
                        Toml::Str(s) => {
                            r.push(s.clone());
                            assert(r.deep_view() =~= before.push(s@));
                        },
                        _ => {},
                    }
                    i += 1;
                }
                assert(items@.take(i as int) =~= items@);
            },
            _ => {},
        }
        r
    }
}

/// The last member with the given key.
pub open spec fn find_member(members: Seq<(String, Toml)>, key: Seq<char>) -> Option<Toml>
    decreases members.len(),
{
    if members.len() == 0 {
        None
    } else if members.last().0@ == key {
        Some(members.last().1)
    } else {
        find_member(members.drop_last(), key)
    }
}

/// The texts among some values.
pub open spec fn texts_among(items: Seq<Toml>) -> Seq<Seq<char>>
    decreases items.len(),
{
    if items.len() == 0 {
        Seq::empty()
    } else {
        let rest = texts_among(items.drop_last());
        match items.last() {
            Toml::Str(s) => rest.push(s@),
            _ => rest,
        }
    }
}

/// The JSON document of a TOML value.
pub fn toml_to_json(v: &Toml) -> (r: Json)
    ensures
        r.deep_view() == toml_json(*v),
    decreases v,
{
    match v {
        Toml::Str(s) => Json::Str(s.clone()),
        Toml::Integer(i) => Json::integer(*i),
        Toml::Float(Some(n)) => Json::Number(n.clone()),
        Toml::Float(None) => Json::Null,
        Toml::Boolean(b) => Json::Bool(*b),
        Toml::Datetime(s) => Json::Str(s.clone()),
        Toml::Array(items) => {
            let mut docs: Vec<Json> = Vec::new();
            let mut i: usize = 0;
            assert(items@.take(0) =~= Seq::empty());
            while i < items.len()
                invariant
                    i <= items@.len(),
                    *v == Toml::Array(*items),
                    json::json_items(docs@) == toml_items(items@.take(i as int)),
                decreases items@.len() - i,
            {
                assert(decreases_to!(*v => v->Array_0));
                assert(decreases_to!(items => items@));
                assert(decreases_to!(items@ => items@[i as int]));
                let ghost before = docs@;
                docs.push(toml_to_json(&items[i]));
                assert(docs@.subrange(0, docs@.len() - 1) =~= before);
                assert(items@.take(i + 1).drop_last() =~= items@.take(i as int));
                i += 1;
            }
            assert(items@.take(i as int) =~= items@);
            Json::Array(docs)
        },
        Toml::Table(members) => {
            let mut docs: Vec<(String, Json)> = Vec::new();
            let mut i: usize = 0;
            assert(members@.take(0) =~= Seq::empty());
            while i < members.len()
                invariant
                    i <= members@.len(),
                    *v == Toml::Table(*members),
                    json::json_members(docs@) == toml_members(members@.take(i as int)),
                decreases members@.len() - i,
            {
                assert(decreases_to!(*v => v->Table_0));
                assert(decreases_to!(members => members@));
                assert(decreases_to!(members@ => members@[i as int]));
                assert(decreases_to!(members@[i as int] => members@[i as int].1));
                let ghost before = docs@;
                let doc = toml_to_json(&members[i].1);
                docs.push((members[i].0.clone(), doc));
                assert(docs@.subrange(0, docs@.len() - 1) =~= before);
                assert(members@.take(i + 1).drop_last() =~= members@.take(i as int));
                i += 1;
            }
            assert(members@.take(i as int) =~= members@);
            Json::Object(docs)
        },
    }
}

// ---------------------------------------------------------------------------
// Paths
// ---------------------------------------------------------------------------

impl PolicyConfig {
    /// The policy file's path, seen from the manifest's directory. An absolute
    /// path is itself.
    pub fn resolve(&self, manifest_dir: &str) -> (r: String)
        ensures
            r@ == paths::join(manifest_dir@, self.file@),
    {
        paths::joined(manifest_dir, self.file.as_str())
    }
}

/// The directory of a manifest: that which holds it, or the current one where
/// its path is a bare name.
pub open spec fn dir_of_manifest(path: Seq<char>) -> Seq<char> {
    match paths::parent(path) {
        Some(dir) => if dir.len() == 0 {
            "."@
        } else {
            dir
        },
        None => "."@,
    }
}

/// The directory of a manifest, from which relative paths in it are seen.
pub fn manifest_dir(manifest_path: &str) -> (r: String)
    ensures
        r@ == dir_of_manifest(manifest_path@),
{
    match paths::parent_of(manifest_path) {
        Some(dir) => if dir.as_str().unicode_len() == 0 {
            ".".to_owned()
        } else {
            dir
        },
        None => ".".to_owned(),
    }
}

// ---------------------------------------------------------------------------
// Providers
// ---------------------------------------------------------------------------

/// The provider to run with.
#[derive(Debug)]
pub enum ProviderChoice {
    Echo,
    /// The echo provider, since the variable of this name is not set.
    FallbackEcho { api_key_env: String },
    Anthropic { api_key: String, model: String },
}

#[verifier::ext_equal]
pub ghost enum ProviderChoiceView {
    Echo,
    FallbackEcho { api_key_env: Seq<char> },
    Anthropic { api_key: Seq<char>, model: Seq<char> },
}

impl DeepView for ProviderChoice {
    type V = ProviderChoiceView;

    open spec fn deep_view(&self) -> ProviderChoiceView {
        match self {
            ProviderChoice::Echo => ProviderChoiceView::Echo,
            ProviderChoice::FallbackEcho { api_key_env } => ProviderChoiceView::FallbackEcho {
                api_key_env: api_key_env@,
            },
            ProviderChoice::Anthropic { api_key, model } => ProviderChoiceView::Anthropic {
                api_key: api_key@,
                model: model@,
            },
        }
    }
}

/// The provider to run with, given the key if its variable is set.
pub open spec fn chosen(config: ProviderConfig, key: Option<Seq<char>>) -> Result<
    ProviderChoiceView,
    Seq<char>,
> {
    match config {
        ProviderConfig::Echo => Ok(ProviderChoiceView::Echo),
        ProviderConfig::Anthropic { model, api_key_env, fallback } => match (key, fallback) {
            (Some(k), _) => Ok(ProviderChoiceView::Anthropic { api_key: k, model: model@ }),
            (None, Some(ProviderFallback::Echo)) => Ok(
                ProviderChoiceView::FallbackEcho { api_key_env: api_key_env@ },
            ),
            (None, None) => Err(
                "manifest declares anthropic provider but env var "@ + api_key_env@
                    + " is not set and no fallback is configured"@,
            ),
        },
    }
}

impl ProviderConfig {
    /// The environment variable that holds the key, where the provider needs
    /// one.
    pub fn key_variable(&self) -> (r: Option<&str>)
        ensures
            match r {
                Some(name) => self matches ProviderConfig::Anthropic { api_key_env, .. } && name@
                    == api_key_env@,
                None => self is Echo,
            },
    {
        match self {
            ProviderConfig::Echo => None,
            ProviderConfig::Anthropic { api_key_env, .. } => Some(api_key_env.as_str()),
        }
    }

    /// The provider to run with, given the key if its variable is set. Without
    /// a key the fallback is taken, and without a fallback there is an error:
    /// at the start, not in the first turn.
    pub fn provider_for(&self, key: Option<String>) -> (r: Result<ProviderChoice, String>)
        ensures
            match r {
                Ok(c) => chosen(*self, key.deep_view()) == Ok::<ProviderChoiceView, Seq<char>>(
                    c.deep_view(),
                ),
                Err(e) => chosen(*self, key.deep_view()) == Err::<ProviderChoiceView, Seq<char>>(
                    e@,
                ),
            },
    {
        match self {
            ProviderConfig::Echo => Ok(ProviderChoice::Echo),
            ProviderConfig::Anthropic { model, api_key_env, fallback } => match (key, fallback) {
                (Some(api_key), _) => Ok(
                    ProviderChoice::Anthropic { api_key, model: model.clone() },
                ),
                (None, Some(ProviderFallback::Echo)) => Ok(
                    ProviderChoice::FallbackEcho { api_key_env: api_key_env.clone() },
                ),
                (None, None) => {
                    let mut e = "manifest declares anthropic provider but env var ".to_owned();
                    e.push_str(api_key_env.as_str());
                    e.push_str(" is not set and no fallback is configured");
                    Err(e)
                },
            },
        }
    }
}

// ---------------------------------------------------------------------------
// Laws
// ---------------------------------------------------------------------------

/// Configuration goes over to JSON as it is: texts, integers and truth values are
/// themselves, arrays keep their items in order, and tables keep their members.
pub proof fn law_configuration_is_carried_over(
    s: String,
    n: i64,
    b: bool,
    items: Vec<Toml>,
    members: Vec<(String, Toml)>,
)
    ensures
        toml_json(Toml::Str(s)) == json::JsonView::Str(s@),
        toml_json(Toml::Datetime(s)) == json::JsonView::Str(s@),
        toml_json(Toml::Integer(n)).as_i64() == Some(n),
        toml_json(Toml::Boolean(b)) == json::JsonView::Bool(b),
        toml_json(Toml::Float(None)) == json::JsonView::Null,
        toml_json(Toml::Array(items)) matches json::JsonView::Array(docs) && docs.len()
            == items@.len() && forall|i: int|
            0 <= i < docs.len() ==> #[trigger] docs[i] == toml_json(items@[i]),
        forall|key: Seq<char>|
            #[trigger] toml_json(Toml::Table(members)).get(key) == (match Toml::Table(
                members,
            ).member(key) {
                Some(v) => Some(toml_json(v)),
                None => None,
            }),
{
    lemma_items(items@);
    assert forall|key: Seq<char>|
        #[trigger] toml_json(Toml::Table(members)).get(key) == (match Toml::Table(members).member(
            key,
        ) {
            Some(v) => Some(toml_json(v)),
            None => None,
        }) by {
        lemma_members(members@, key);
    }
}

proof fn lemma_items(items: Seq<Toml>)
    ensures
        toml_items(items).len() == items.len(),
        forall|i: int|
            0 <= i < items.len() ==> #[trigger] toml_items(items)[i] == toml_json(items[i]),
    decreases items.len(),
{
    if items.len() > 0 {
        lemma_items(items.drop_last());
        assert forall|i: int| 0 <= i < items.len() implies #[trigger] toml_items(items)[i]
            == toml_json(items[i]) by {
            if i < items.len() - 1 {
                assert(items.drop_last()[i] == items[i]);
                assert(toml_items(items)[i] == toml_items(items.drop_last())[i]);
            }
        }
    }
}

proof fn lemma_members(members: Seq<(String, Toml)>, key: Seq<char>)
    ensures
        toml_members(members).contains_key(key) <==> find_member(members, key) is Some,
        find_member(members, key) matches Some(v) ==> toml_members(members)[key] == toml_json(v),
    decreases members.len(),
{
    if members.len() > 0 {
        lemma_members(members.drop_last(), key);
    }
}

/// The member that is found has the name that was asked for, and is the last that
/// has it.
pub proof fn law_the_last_member_counts(
    members: Seq<(String, Toml)>,
    more: (String, Toml),
    key: Seq<char>,
)
    ensures
        more.0@ == key ==> find_member(members.push(more), key) == Some(more.1),
        more.0@ != key ==> find_member(members.push(more), key) == find_member(members, key),
        find_member(Seq::empty(), key) is None,
{
    assert(members.push(more).drop_last() =~= members);
}

/// The texts of an array keep their order, and what is no text is passed over.
pub proof fn law_texts_keep_their_order(items: Seq<Toml>, more: Toml)
    ensures
        texts_among(items.push(more)) == (match more {
            Toml::Str(s) => texts_among(items).push(s@),
            _ => texts_among(items),
        }),
        texts_among(Seq::empty()).len() == 0,
{
    assert(items.push(more).drop_last() =~= items);
}

/// The directory of a manifest that stands in a directory is that directory, and
/// that of a bare name is the current one.
pub proof fn law_a_manifest_stands_in_its_directory(dir: Seq<char>, name: Seq<char>)
    requires
        dir.len() > 0,
        dir.last() != '/',
        dir.last() != '.',
        name.len() > 0,
        name != seq!['.'],
        forall|i: int| 0 <= i < name.len() ==> name[i] != '/',
    ensures
        dir_of_manifest(paths::join(dir, name)) == dir,
        dir_of_manifest(name) == "."@,
{
    paths::law_the_parent_holds_the_file(dir, name);
}

/// With a key the provider that is configured runs, on the configured model and
/// with that key. Without one the fallback does, and without a fallback there is
/// none, which is told with the variable that is missing. The echo provider needs
/// no key.
pub proof fn law_the_configured_provider_runs(
    model: String,
    api_key_env: String,
    fallback: Option<ProviderFallback>,
    key: Seq<char>,
)
    ensures
        ({
            let config = ProviderConfig::Anthropic { model, api_key_env, fallback };
            &&& chosen(config, Some(key)) matches Ok(ProviderChoiceView::Anthropic {
                api_key,
                model: m,
            }) && api_key == key && m == model@
            &&& fallback is Some ==> (chosen(config, None) matches Ok(
                ProviderChoiceView::FallbackEcho { api_key_env: name },
            ) && name == api_key_env@)
            &&& fallback is None ==> (chosen(config, None) matches Err(e) && e
                == "manifest declares anthropic provider but env var "@ + api_key_env@
                + " is not set and no fallback is configured"@)
        }),
        chosen(ProviderConfig::Echo, None) == Ok::<ProviderChoiceView, Seq<char>>(
            ProviderChoiceView::Echo,
        ),
        chosen(ProviderConfig::Echo, Some(key)) == Ok::<ProviderChoiceView, Seq<char>>(
            ProviderChoiceView::Echo,
        ),
{
}

} // verus!
