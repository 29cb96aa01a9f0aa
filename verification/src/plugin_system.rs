//! Plugin identifiers and the registry of known plugins.
//!
//! A plugin is identified by its type prefix and a short name, e.g. `hive.runner.docker`:
//!
//! | type | prefix |
//! |------|--------|
//! | parse | `hive.parse.` |
//! | runner | `hive.runner.` |
//! | env | `hive.env.` |
//! | health | `hive.health.` |
//! | rollout | `hive.rollout.` |
//! | proxy.ssl | `hive.proxy.ssl.` |
//! | proxy.auth | `hive.proxy.auth.` |
//! | proxy | `hive.proxy.` |
//! | obs | `hive.obs.` |

use vstd::prelude::*;
use crate::assoc::{assoc_find, assoc_keys, assoc_view, lemma_assoc_push, lemma_assoc_replace};
use crate::text::{chars_of, has_prefix, str_eq, str_starts_with};

verus! {

/// The kind of work a plugin does.
#[derive(Clone, Copy, Debug, PartialEq, Eq, Hash, Structural)]
pub enum PluginType {
    /// Interpolation while the configuration is read.
    Parse,
    /// Runs services.
    Runner,
    /// Provides environment variables.
    Env,
    /// Checks that a service is ready.
    Health,
    /// Decides how a new version replaces the old one.
    Rollout,
    /// TLS termination in the proxy.
    ProxySsl,
    /// Authentication in the proxy.
    ProxyAuth,
    /// Other proxy middleware.
    Proxy,
    /// Observability.
    Obs,
}

/// The identifier prefix of a plugin type.
pub open spec fn type_prefix(t: PluginType) -> Seq<char> {
    match t {
        PluginType::Parse => "hive.parse."@,
        PluginType::Runner => "hive.runner."@,
        PluginType::Env => "hive.env."@,
        PluginType::Health => "hive.health."@,
        PluginType::Rollout => "hive.rollout."@,
        PluginType::ProxySsl => "hive.proxy.ssl."@,
        PluginType::ProxyAuth => "hive.proxy.auth."@,
        PluginType::Proxy => "hive.proxy."@,
        PluginType::Obs => "hive.obs."@,
    }
}

/// The order in which identifiers are matched against the prefixes: the longer proxy
/// prefixes before `hive.proxy.`.
pub open spec fn match_order() -> Seq<PluginType> {
    seq![
        PluginType::ProxySsl,
        PluginType::ProxyAuth,
        PluginType::Proxy,
        PluginType::Parse,
        PluginType::Runner,
        PluginType::Env,
        PluginType::Health,
        PluginType::Rollout,
        PluginType::Obs,
    ]
}

/// The type and short name of the identifier `id`: the first prefix of `match_order`,
/// from position `k` on, that `id` starts with, and what follows it.
pub open spec fn parse_id_from(id: Seq<char>, k: nat) -> Option<(PluginType, Seq<char>)>
    decreases match_order().len() - k,
{
    if k >= match_order().len() {
        None
    } else if has_prefix(id, type_prefix(match_order()[k as int])) {
        Some((match_order()[k as int], id.skip(type_prefix(match_order()[k as int]).len() as int)))
    } else {
        parse_id_from(id, k + 1)
    }
}

/// The type and short name of a plugin identifier, if it has a known prefix.
pub open spec fn parse_id(id: Seq<char>) -> Option<(PluginType, Seq<char>)> {
    parse_id_from(id, 0)
}

/// Where two type prefixes first differ (for two proxy prefixes other than the plain one,
/// after `hive.proxy.`; for `parse`/`proxy` and `runner`/`rollout`, at their second
/// letter; otherwise at their first).
spec fn differ_at(a: PluginType, b: PluginType) -> int {
    let proxyish = |t: PluginType| t == PluginType::ProxySsl || t == PluginType::ProxyAuth || t == PluginType::Proxy;
    if proxyish(a) && proxyish(b) {
        11
    } else if (proxyish(a) || a == PluginType::Parse) && (proxyish(b) || b == PluginType::Parse) {
        6
    } else if (a == PluginType::Runner || a == PluginType::Rollout) && (b == PluginType::Runner || b == PluginType::Rollout) {
        6
    } else {
        5
    }
}

proof fn lemma_reveal_prefixes()
    ensures
        type_prefix(PluginType::Parse) =~= seq!['h', 'i', 'v', 'e', '.', 'p', 'a', 'r', 's', 'e', '.'],
        type_prefix(PluginType::Runner) =~= seq!['h', 'i', 'v', 'e', '.', 'r', 'u', 'n', 'n', 'e', 'r', '.'],
        type_prefix(PluginType::Env) =~= seq!['h', 'i', 'v', 'e', '.', 'e', 'n', 'v', '.'],
        type_prefix(PluginType::Health) =~= seq!['h', 'i', 'v', 'e', '.', 'h', 'e', 'a', 'l', 't', 'h', '.'],
        type_prefix(PluginType::Rollout) =~= seq!['h', 'i', 'v', 'e', '.', 'r', 'o', 'l', 'l', 'o', 'u', 't', '.'],
        type_prefix(PluginType::ProxySsl) =~= seq!['h', 'i', 'v', 'e', '.', 'p', 'r', 'o', 'x', 'y', '.', 's', 's', 'l', '.'],
        type_prefix(PluginType::ProxyAuth) =~= seq!['h', 'i', 'v', 'e', '.', 'p', 'r', 'o', 'x', 'y', '.', 'a', 'u', 't', 'h', '.'],
        type_prefix(PluginType::Proxy) =~= seq!['h', 'i', 'v', 'e', '.', 'p', 'r', 'o', 'x', 'y', '.'],
        type_prefix(PluginType::Obs) =~= seq!['h', 'i', 'v', 'e', '.', 'o', 'b', 's', '.'],
{
    reveal_strlit("hive.parse.");
    reveal_strlit("hive.runner.");
    reveal_strlit("hive.env.");
    reveal_strlit("hive.health.");
    reveal_strlit("hive.rollout.");
    reveal_strlit("hive.proxy.ssl.");
    reveal_strlit("hive.proxy.auth.");
    reveal_strlit("hive.proxy.");
    reveal_strlit("hive.obs.");
}

/// An identifier built on one type's prefix does not start with another type's prefix,
/// except that a plain proxy name starting with `ssl.` or `auth.` reads as the longer
/// proxy prefix, and that the longer proxy prefixes start with the plain one.
proof fn lemma_other_prefix(t: PluginType, u: PluginType, s: Seq<char>)
    requires
        t != u,
        !(u == PluginType::Proxy && (t == PluginType::ProxySsl || t == PluginType::ProxyAuth)),
        t == PluginType::Proxy ==> !has_prefix(s, "ssl."@) && !has_prefix(s, "auth."@),
    ensures
        !has_prefix(type_prefix(t) + s, type_prefix(u)),
{
    lemma_reveal_prefixes();
    reveal_strlit("ssl.");
    reveal_strlit("auth.");
    let id = type_prefix(t) + s;
    let p = type_prefix(u);
    if has_prefix(id, p) {
        if t == PluginType::Proxy && (u == PluginType::ProxySsl || u == PluginType::ProxyAuth) {
            let tail = p.skip(11);
            assert(id.take(p.len() as int) == p);
            assert(s.take(tail.len() as int) =~= tail) by {
                assert forall|i: int| 0 <= i < tail.len() implies s.take(tail.len() as int)[i] == tail[i] by {
                    assert(id[11 + i] == s[i]);
                    assert(id.take(p.len() as int)[11 + i] == p[11 + i]);
                }
            }
            if u == PluginType::ProxySsl {
                assert(tail =~= "ssl."@);
            } else {
                assert(tail =~= "auth."@);
            }
        } else {
            let i = differ_at(t, u);
            assert(id.take(p.len() as int)[i] == p[i]);
            assert(id[i] == type_prefix(t)[i]);
        }
    }
}

/// Reading back an identifier built from a type and a name gives that type and name,
/// unless the type is plain proxy and the name starts with `ssl.` or `auth.` (it then
/// reads as a TLS or authentication proxy plugin).
pub proof fn lemma_plugin_id_round_trip(t: PluginType, s: Seq<char>)
    requires
        t == PluginType::Proxy ==> !has_prefix(s, "ssl."@) && !has_prefix(s, "auth."@),
    ensures
        parse_id(type_prefix(t) + s) == Some((t, s)),
{
    let id = type_prefix(t) + s;
    assert(has_prefix(id, type_prefix(t))) by {
        assert(id.take(type_prefix(t).len() as int) =~= type_prefix(t));
    }
    assert(id.skip(type_prefix(t).len() as int) =~= s);
    assert forall|u: PluginType|
        u != t && !(u == PluginType::Proxy && (t == PluginType::ProxySsl || t == PluginType::ProxyAuth))
        implies !has_prefix(id, #[trigger] type_prefix(u)) by {
        lemma_other_prefix(t, u, s);
    }
    reveal_with_fuel(parse_id_from, 10);
}

impl PluginType {
    /// The identifier prefix of this type.
    pub fn prefix(&self) -> (r: &'static str)
        ensures
            r@ == type_prefix(*self),
    {
        match self {
            PluginType::Parse => "hive.parse.",
            PluginType::Runner => "hive.runner.",
            PluginType::Env => "hive.env.",
            PluginType::Health => "hive.health.",
            PluginType::Rollout => "hive.rollout.",
            PluginType::ProxySsl => "hive.proxy.ssl.",
            PluginType::ProxyAuth => "hive.proxy.auth.",
            PluginType::Proxy => "hive.proxy.",
            PluginType::Obs => "hive.obs.",
        }
    }

    /// The identifier of the plugin of type `plugin_type` called `type_str`.
    pub fn from_type_string(plugin_type: PluginType, type_str: &str) -> (r: String)
        ensures
            r@ == type_prefix(plugin_type) + type_str@,
    {
        let mut s = plugin_type.prefix().to_owned();
        s.append(type_str);
        s
    }

    /// The type and short name of a plugin identifier.
    pub fn from_plugin_id(plugin_id: &str) -> (r: Option<(PluginType, &str)>)
        ensures
            match r {
                Some((t, name)) => parse_id(plugin_id@) == Some((t, name@)),
                None => parse_id(plugin_id@) is None,
            },
    {
        let order: [PluginType; 9] = [
            PluginType::ProxySsl,
            PluginType::ProxyAuth,
            PluginType::Proxy,
            PluginType::Parse,
            PluginType::Runner,
            PluginType::Env,
            PluginType::Health,
            PluginType::Rollout,
            PluginType::Obs,
        ];
        assert(order@ =~= match_order());
        let mut k: usize = 0;
        while k < 9
            invariant
                k <= 9,
                order@ == match_order(),
                parse_id(plugin_id@) == parse_id_from(plugin_id@, k as nat),
            decreases 9 - k,
        {
            let t = order[k];
            let p = t.prefix();
            if str_starts_with(plugin_id, p) {
                let from = p.unicode_len();
                let to = plugin_id.unicode_len();
                let name = plugin_id.substring_char(from, to);
                assert(name@ =~= plugin_id@.skip(type_prefix(t).len() as int));
                return Some((t, name));
            }
            k = k + 1;
        }
        None
    }
}

/// The identifier of the plugin of type `t` called `s`: `s` itself when it already is
/// an identifier (starts with `hive.`).
pub open spec fn resolved_id(t: PluginType, s: Seq<char>) -> Seq<char> {
    if has_prefix(s, "hive."@) {
        s
    } else {
        type_prefix(t) + s
    }
}

/// The full identifier for a plugin type and a type string.
pub fn resolve_plugin_id(plugin_type: PluginType, type_str: &str) -> (r: String)
    ensures
        r@ == resolved_id(plugin_type, type_str@),
{
    if str_starts_with(type_str, "hive.") {
        return type_str.to_owned();
    }
    PluginType::from_type_string(plugin_type, type_str)
}

/// The plugins built into the core: `env` and `service` interpolation, `static`
/// environment, `cmd` health checks and the `recreate` rollout.
pub open spec fn core_plugin(t: PluginType, s: Seq<char>) -> bool {
    match t {
        PluginType::Parse => s == "env"@ || s == "service"@,
        PluginType::Env => s == "static"@,
        PluginType::Health => s == "cmd"@,
        PluginType::Rollout => s == "recreate"@,
        _ => false,
    }
}

/// Whether the plugin of type `plugin_type` called `type_str` is built into the core
/// (needs no installation).
pub fn is_core_plugin(plugin_type: PluginType, type_str: &str) -> (r: bool)
    ensures
        r == core_plugin(plugin_type, type_str@),
{
    match plugin_type {
        PluginType::Parse => str_eq(type_str, "env") || str_eq(type_str, "service"),
        PluginType::Env => str_eq(type_str, "static"),
        PluginType::Health => str_eq(type_str, "cmd"),
        PluginType::Rollout => str_eq(type_str, "recreate"),
        _ => false,
    }
}

/// Another name for `is_core_plugin`.
pub fn is_builtin_plugin(plugin_type: PluginType, type_str: &str) -> (r: bool)
    ensures
        r == core_plugin(plugin_type, type_str@),
{
    is_core_plugin(plugin_type, type_str)
}

// ---------------------------------------------------------------------------
// The registry
// ---------------------------------------------------------------------------

/// Whether a plugin can be used.
#[derive(Debug)]
pub enum PluginStatus {
    /// Compiled in.
    Bundled,
    /// Installed separately.
    Installed,
    NotInstalled,
    /// Installation failed, with the reason.
    Failed(String),
}

/// A known plugin.
#[derive(Debug)]
pub struct PluginInfo {
    /// Full identifier, e.g. `hive.runner.docker`.
    pub id: String,
    pub plugin_type: PluginType,
    /// Short name, e.g. `docker`.
    pub name: String,
    pub status: PluginStatus,
    pub description: Option<String>,
}

/// The plugin can be used: bundled or installed.
pub open spec fn usable(p: PluginInfo) -> bool {
    p.status is Bundled || p.status is Installed
}

fn copy_info(p: &PluginInfo) -> (r: PluginInfo)
    ensures
        r == *p,
{
    PluginInfo {
        id: p.id.clone(),
        plugin_type: p.plugin_type,
        name: p.name.clone(),
        status: match &p.status {
            PluginStatus::Bundled => PluginStatus::Bundled,
            PluginStatus::Installed => PluginStatus::Installed,
            PluginStatus::NotInstalled => PluginStatus::NotInstalled,
            PluginStatus::Failed(m) => PluginStatus::Failed(m.clone()),
        },
        description: match &p.description {
            Some(d) => Some(d.clone()),
            None => None,
        },
    }
}

/// The identifiers of the plugins built into the core.
pub open spec fn builtin_ids() -> Seq<Seq<char>> {
    seq!["hive.parse.env"@, "hive.parse.service"@, "hive.env.static"@, "hive.health.cmd"@, "hive.rollout.recreate"@]
}

/// The type, short name and description of a plugin built into the core.
pub open spec fn builtin_details(id: Seq<char>) -> (PluginType, Seq<char>, Seq<char>) {
    if id == "hive.parse.env"@ {
        (PluginType::Parse, "env"@, "Environment variable interpolation"@)
    } else if id == "hive.parse.service"@ {
        (PluginType::Parse, "service"@, "Service name interpolation"@)
    } else if id == "hive.env.static"@ {
        (PluginType::Env, "static"@, "Static key-value environment variables"@)
    } else if id == "hive.health.cmd"@ {
        (PluginType::Health, "cmd"@, "Command execution health check"@)
    } else {
        (PluginType::Rollout, "recreate"@, "Stop-then-start deployment"@)
    }
}

/// The known plugins, by identifier.
#[derive(Debug)]
pub struct PluginRegistry {
    pub plugins: Vec<(String, PluginInfo)>,
    pub auto_install_enabled: bool,
}

/// The entries of `s` whose plugin has type `t`, in order.
pub open spec fn infos_of_type(s: Seq<(String, PluginInfo)>, t: PluginType) -> Seq<PluginInfo>
    decreases s.len(),
{
    if s.len() == 0 {
        Seq::empty()
    } else {
        infos_of_type(s.drop_last(), t) + if s.last().1.plugin_type == t {
            seq![s.last().1]
        } else {
            Seq::empty()
        }
    }
}

/// What `ensure_available` found the registry needs to do.
#[derive(Debug)]
pub enum EnsureStep {
    /// The plugin is usable.
    Ready,
    /// The plugin is not usable and may not be installed automatically.
    Refused(PluginError),
    /// The plugin is to be installed.
    Install,
}

/// How an installation went.
#[derive(Debug)]
pub enum InstallOutcome {
    Succeeded,
    /// The installer ran and failed, printing `stderr`.
    Failed { stderr: String },
    /// The installer could not be started.
    NotRun,
}

/// Why a plugin cannot be used.
#[derive(Debug)]
pub enum PluginError {
    /// Not installed, and automatic installation is off.
    AutoInstallDisabled { plugin_id: String },
    /// The identifier has no known type prefix.
    InvalidId { plugin_id: String },
    /// The installer ran and failed.
    InstallFailed { message: String },
    /// The installer is not available.
    NotAvailable { plugin_id: String },
}

/// The message of a failed installation.
pub open spec fn install_failed_text(stderr: Seq<char>) -> Seq<char> {
    "Plugin installation failed: "@ + stderr
}

impl PluginError {
    /// The error message.
    pub fn message(&self) -> (r: String)
        ensures
            r@ == (match self {
                PluginError::AutoInstallDisabled { plugin_id } => "Plugin '"@ + plugin_id@
                    + "' is not installed and auto-install is disabled. Install it manually with: adi plugin install "@
                    + plugin_id@,
                PluginError::InvalidId { plugin_id } => "Invalid plugin ID format: "@ + plugin_id@,
                PluginError::InstallFailed { message } => message@,
                PluginError::NotAvailable { plugin_id } => "Plugin '"@ + plugin_id@
                    + "' is not available. Install it with: adi plugin install "@ + plugin_id@,
            }),
    {
        match self {
            PluginError::AutoInstallDisabled { plugin_id } => {
                let mut s = "Plugin '".to_owned();
                s.append(plugin_id.as_str());
                s.append("' is not installed and auto-install is disabled. Install it manually with: adi plugin install ");
                s.append(plugin_id.as_str());
                s
            },
            PluginError::InvalidId { plugin_id } => {
                let mut s = "Invalid plugin ID format: ".to_owned();
                s.append(plugin_id.as_str());
                s
            },
            PluginError::InstallFailed { message } => message.clone(),
            PluginError::NotAvailable { plugin_id } => {
                let mut s = "Plugin '".to_owned();
                s.append(plugin_id.as_str());
                s.append("' is not available. Install it with: adi plugin install ");
                s.append(plugin_id.as_str());
                s
            },
        }
    }
}

impl PluginRegistry {
    /// The known plugins, by identifier.
    pub open spec fn view_map(&self) -> Map<Seq<char>, PluginInfo> {
        assoc_view(self.plugins@)
    }

    /// Each identifier is listed once.
    pub open spec fn wf(&self) -> bool {
        assoc_keys(self.plugins@).no_duplicates()
    }

    /// Whether the plugin `id` is known and usable.
    pub open spec fn available(&self, id: Seq<char>) -> bool {
        self.view_map().contains_key(id) && usable(self.view_map()[id])
    }

    fn builtin(id: &str, t: PluginType, name: &str, description: &str) -> (r: (String, PluginInfo))
        ensures
            r.0@ == id@,
            r.1.id@ == id@,
            r.1.plugin_type == t,
            r.1.name@ == name@,
            r.1.status is Bundled,
            r.1.description matches Some(d) && d@ == description@,
    {
        (id.to_owned(), PluginInfo {
            id: id.to_owned(),
            plugin_type: t,
            name: name.to_owned(),
            status: PluginStatus::Bundled,
            description: Some(description.to_owned()),
        })
    }

    /// A registry that knows the plugins built into the core, all bundled.
    pub fn new(auto_install_enabled: bool) -> (r: Self)
        ensures
            r.wf(),
            r.auto_install_enabled == auto_install_enabled,
            forall|id: Seq<char>| #[trigger] r.view_map().contains_key(id) <==> builtin_ids().contains(id),
            forall|id: Seq<char>| #[trigger] r.view_map().contains_key(id) ==> r.view_map()[id].status is Bundled
                && r.view_map()[id].id@ == id && r.view_map()[id].plugin_type == builtin_details(id).0
                && r.view_map()[id].name@ == builtin_details(id).1
                && (r.view_map()[id].description matches Some(d) && d@ == builtin_details(id).2),
    {
        let mut r = PluginRegistry { plugins: Vec::new(), auto_install_enabled };
        assert(r.view_map() =~= Map::<Seq<char>, PluginInfo>::empty());
        let ghost m0 = r.view_map();
        let (k, v) = PluginRegistry::builtin("hive.parse.env", PluginType::Parse, "env", "Environment variable interpolation");
        r.insert(k, v);
        let (k, v) = PluginRegistry::builtin("hive.parse.service", PluginType::Parse, "service", "Service name interpolation");
        r.insert(k, v);
        let (k, v) = PluginRegistry::builtin("hive.env.static", PluginType::Env, "static", "Static key-value environment variables");
        r.insert(k, v);
        let (k, v) = PluginRegistry::builtin("hive.health.cmd", PluginType::Health, "cmd", "Command execution health check");
        r.insert(k, v);
        let (k, v) = PluginRegistry::builtin("hive.rollout.recreate", PluginType::Rollout, "recreate", "Stop-then-start deployment");
        r.insert(k, v);
        proof {
            let ids = builtin_ids();
            assert(ids[0] == "hive.parse.env"@);
            assert(ids[1] == "hive.parse.service"@);
            assert(ids[2] == "hive.env.static"@);
            assert(ids[3] == "hive.health.cmd"@);
            assert(ids[4] == "hive.rollout.recreate"@);
            reveal_strlit("hive.parse.env");
            reveal_strlit("hive.parse.service");
            reveal_strlit("hive.env.static");
            reveal_strlit("hive.health.cmd");
            reveal_strlit("hive.rollout.recreate");
            assert forall|id: Seq<char>| #[trigger] r.view_map().contains_key(id) <==> builtin_ids().contains(id) by {
                if builtin_ids().contains(id) {
                    let j = choose|j: int| 0 <= j < ids.len() && ids[j] == id;
                    assert(j == 0 || j == 1 || j == 2 || j == 3 || j == 4);
                }
                if r.view_map().contains_key(id) {
                    assert(id == ids[0] || id == ids[1] || id == ids[2] || id == ids[3] || id == ids[4]);
                }
            }
            assert forall|id: Seq<char>| #[trigger] r.view_map().contains_key(id) implies r.view_map()[id].status is Bundled
                && r.view_map()[id].id@ == id && r.view_map()[id].plugin_type == builtin_details(id).0
                && r.view_map()[id].name@ == builtin_details(id).1
                && (r.view_map()[id].description matches Some(d) && d@ == builtin_details(id).2) by {
                assert(id == ids[0] || id == ids[1] || id == ids[2] || id == ids[3] || id == ids[4]);
                assert(ids[2][5] != ids[3][5]);
                assert(ids[0].len() != ids[1].len() && ids[0].len() != ids[2].len() && ids[0].len() != ids[3].len() && ids[0].len() != ids[4].len());
                assert(ids[1].len() != ids[2].len() && ids[1].len() != ids[3].len() && ids[1].len() != ids[4].len());
                assert(ids[2].len() != ids[4].len() && ids[3].len() != ids[4].len());
                if id == ids[0] {
                } else if id == ids[1] {
                } else if id == ids[2] {
                } else if id == ids[3] {
                } else {
                }
            }
        }
        r
    }

    /// Whether the plugin `plugin_id` is known and bundled or installed.
    pub fn is_available(&self, plugin_id: &str) -> (r: bool)
        ensures
            r == self.available(plugin_id@),
    {
        match assoc_find(&self.plugins, &chars_of(plugin_id)) {
            Some(j) => match self.plugins[j].1.status {
                PluginStatus::Bundled => true,
                PluginStatus::Installed => true,
                _ => false,
            },
            None => false,
        }
    }

    /// Whether the plugin `plugin_id` is known and bundled.
    pub fn is_bundled(&self, plugin_id: &str) -> (r: bool)
        ensures
            r == (self.view_map().contains_key(plugin_id@) && self.view_map()[plugin_id@].status is Bundled),
    {
        match assoc_find(&self.plugins, &chars_of(plugin_id)) {
            Some(j) => match self.plugins[j].1.status {
                PluginStatus::Bundled => true,
                _ => false,
            },
            None => false,
        }
    }

    /// Another name for `is_bundled`.
    pub fn is_builtin(&self, plugin_id: &str) -> (r: bool)
        ensures
            r == (self.view_map().contains_key(plugin_id@) && self.view_map()[plugin_id@].status is Bundled),
    {
        self.is_bundled(plugin_id)
    }

    /// The plugin `plugin_id`, if known.
    pub fn get(&self, plugin_id: &str) -> (r: Option<PluginInfo>)
        ensures
            r == (if self.view_map().contains_key(plugin_id@) {
                Some(self.view_map()[plugin_id@])
            } else {
                None
            }),
    {
        match assoc_find(&self.plugins, &chars_of(plugin_id)) {
            Some(j) => Some(copy_info(&self.plugins[j].1)),
            None => None,
        }
    }

    /// The known plugins of type `plugin_type`.
    pub fn list_by_type(&self, plugin_type: PluginType) -> (r: Vec<PluginInfo>)
        ensures
            r@ == infos_of_type(self.plugins@, plugin_type),
    {
        let mut r: Vec<PluginInfo> = Vec::new();
        let mut i: usize = 0;
        while i < self.plugins.len()
            invariant
                i <= self.plugins@.len(),
                r@ == infos_of_type(self.plugins@.take(i as int), plugin_type),
            decreases self.plugins.len() - i,
        {
            assert(self.plugins@.take(i + 1).drop_last() =~= self.plugins@.take(i as int));
            if self.plugins[i].1.plugin_type == plugin_type {
                r.push(copy_info(&self.plugins[i].1));
            }
            assert(r@ =~= infos_of_type(self.plugins@.take(i + 1), plugin_type));
            i = i + 1;
        }
        assert(self.plugins@.take(self.plugins@.len() as int) =~= self.plugins@);
        r
    }

    /// Records `info` under `id`, replacing what was known of it.
    fn insert(&mut self, id: String, info: PluginInfo)
        requires
            old(self).wf(),
        ensures
            final(self).wf(),
            final(self).view_map() == old(self).view_map().insert(id@, info),
            final(self).auto_install_enabled == old(self).auto_install_enabled,
    {
        match assoc_find(&self.plugins, &chars_of(id.as_str())) {
            Some(j) => {
                proof {
                    lemma_assoc_replace(self.plugins@, j as int, (id, info));
                }
                self.plugins.set(j, (id, info));
            },
            None => {
                let ghost e = (id, info);
                proof {
                    lemma_assoc_push(self.plugins@, e);
                    assert(assoc_keys(self.plugins@.push(e)) =~= assoc_keys(self.plugins@).push(id@));
                    assert(!assoc_keys(self.plugins@).contains(id@)) by {
                        if assoc_keys(self.plugins@).contains(id@) {
                            let k = choose|k: int| 0 <= k < assoc_keys(self.plugins@).len() && assoc_keys(self.plugins@)[k] == id@;
                            assert(self.plugins@[k].0@ == id@);
                            crate::assoc::lemma_assoc_has_key(self.plugins@, k);
                        }
                    }
                }
                self.plugins.push((id, info));
            },
        }
    }

    /// What making `plugin_id` usable takes: nothing when it is usable; otherwise an
    /// installation, when automatic installation is on.
    pub fn ensure_step(&self, plugin_id: &str) -> (r: EnsureStep)
        ensures
            self.available(plugin_id@) ==> r is Ready,
            !self.available(plugin_id@) && !self.auto_install_enabled ==> (r matches EnsureStep::Refused(
                PluginError::AutoInstallDisabled { plugin_id: id },
            ) && id@ == plugin_id@),
            !self.available(plugin_id@) && self.auto_install_enabled ==> r is Install,
    {
        if self.is_available(plugin_id) {
            return EnsureStep::Ready;
        }
        if !self.auto_install_enabled {
            return EnsureStep::Refused(PluginError::AutoInstallDisabled { plugin_id: plugin_id.to_owned() });
        }
        EnsureStep::Install
    }

    /// The type and short name an installation of `plugin_id` registers.
    pub fn install_target(plugin_id: &str) -> (r: Result<(PluginType, String), PluginError>)
        ensures
            match r {
                Ok((t, name)) => parse_id(plugin_id@) == Some((t, name@)),
                Err(e) => parse_id(plugin_id@) is None && (e matches PluginError::InvalidId { plugin_id: id } && id@ == plugin_id@),
            },
    {
        match PluginType::from_plugin_id(plugin_id) {
            Some((t, name)) => Ok((t, name.to_owned())),
            None => Err(PluginError::InvalidId { plugin_id: plugin_id.to_owned() }),
        }
    }

    /// Records how the installation of `plugin_id` (of type `plugin_type`, called `name`)
    /// went: installed, or failed with the installer's output. When the installer could not
    /// be started nothing is recorded.
    pub fn record_install(&mut self, plugin_id: &str, plugin_type: PluginType, name: &str, outcome: InstallOutcome) -> (r: Result<(), PluginError>)
        requires
            old(self).wf(),
        ensures
            final(self).wf(),
            final(self).auto_install_enabled == old(self).auto_install_enabled,
            match outcome {
                InstallOutcome::Succeeded => r is Ok && final(self).view_map().contains_key(plugin_id@)
                    && final(self).view_map() == old(self).view_map().insert(plugin_id@, final(self).view_map()[plugin_id@])
                    && final(self).view_map()[plugin_id@].status is Installed
                    && final(self).view_map()[plugin_id@].id@ == plugin_id@
                    && final(self).view_map()[plugin_id@].plugin_type == plugin_type
                    && final(self).view_map()[plugin_id@].name@ == name@
                    && final(self).view_map()[plugin_id@].description is None,
                InstallOutcome::Failed { stderr } => final(self).view_map().contains_key(plugin_id@)
                    && final(self).view_map() == old(self).view_map().insert(plugin_id@, final(self).view_map()[plugin_id@])
                    && (final(self).view_map()[plugin_id@].status matches PluginStatus::Failed(m)
                    && m@ == install_failed_text(stderr@))
                    && final(self).view_map()[plugin_id@].id@ == plugin_id@
                    && final(self).view_map()[plugin_id@].plugin_type == plugin_type
                    && final(self).view_map()[plugin_id@].name@ == name@
                    && (r matches Err(PluginError::InstallFailed { message }) && message@ == install_failed_text(stderr@)),
                InstallOutcome::NotRun => final(self).view_map() == old(self).view_map()
                    && (r matches Err(PluginError::NotAvailable { plugin_id: id }) && id@ == plugin_id@),
            },
    {
        match outcome {
            InstallOutcome::Succeeded => {
                let info = PluginInfo {
                    id: plugin_id.to_owned(),
                    plugin_type,
                    name: name.to_owned(),
                    status: PluginStatus::Installed,
                    description: None,
                };
                self.insert(plugin_id.to_owned(), info);
                Ok(())
            },
            InstallOutcome::Failed { stderr } => {
                let mut m = "Plugin installation failed: ".to_owned();
                m.append(stderr.as_str());
                let info = PluginInfo {
                    id: plugin_id.to_owned(),
                    plugin_type,
                    name: name.to_owned(),
                    status: PluginStatus::Failed(m.clone()),
                    description: None,
                };
                self.insert(plugin_id.to_owned(), info);
                Err(PluginError::InstallFailed { message: m })
            },
            InstallOutcome::NotRun => Err(PluginError::NotAvailable { plugin_id: plugin_id.to_owned() }),
        }
    }

    /// Records the plugin `plugin_id` as installed; an identifier without a known type
    /// prefix is ignored.
    pub fn register_installed(&mut self, plugin_id: &str, description: Option<String>)
        requires
            old(self).wf(),
        ensures
            final(self).wf(),
            final(self).auto_install_enabled == old(self).auto_install_enabled,
            match parse_id(plugin_id@) {
                None => final(self).view_map() == old(self).view_map(),
                Some((t, name)) => final(self).view_map() == old(self).view_map().insert(
                    plugin_id@,
                    final(self).view_map()[plugin_id@],
                ) && final(self).view_map()[plugin_id@].status is Installed
                    && final(self).view_map()[plugin_id@].id@ == plugin_id@
                    && final(self).view_map()[plugin_id@].plugin_type == t
                    && final(self).view_map()[plugin_id@].name@ == name
                    && final(self).view_map()[plugin_id@].description == description,
            },
    {
        match PluginType::from_plugin_id(plugin_id) {
            Some((t, name)) => {
                let info = PluginInfo {
                    id: plugin_id.to_owned(),
                    plugin_type: t,
                    name: name.to_owned(),
                    status: PluginStatus::Installed,
                    description,
                };
                self.insert(plugin_id.to_owned(), info);
            },
            None => {},
        }
    }
}

} // verus!
