//! Checks of a service configuration: what is wrong (errors) and what looks doubtful
//! (warnings), each at a dotted path into the configuration.

use vstd::prelude::*;
use crate::config::{
    health_checks, proxy_endpoints, section_fields, ConfigSection, ExposeConfig, HealthCheck,
    HealthCheckConfig, ProxyEndpoint, RolloutConfig, RunnerConfig, ServiceConfig,
    ServiceProxyConfig, UsesConfig,
};
use crate::text::{chars_of, decimal, has_prefix, is_digit, is_lower, str_eq, str_starts_with, string_of, texts, u64_decimal};

verus! {

/// A finding: where in the configuration, and what.
#[derive(Debug)]
pub struct ValidationError {
    pub path: String,
    pub message: String,
}

/// A finding as plain text: `(path, message)`.
pub type Issue = (Seq<char>, Seq<char>);

/// The findings of a list, as plain text.
pub open spec fn issues(v: Seq<ValidationError>) -> Seq<Issue> {
    v.map_values(|e: ValidationError| (e.path@, e.message@))
}

impl ValidationError {
    /// `path: message`
    pub fn to_text(&self) -> (r: String)
        ensures
            r@ == self.path@ + ": "@ + self.message@,
    {
        let mut s = self.path.clone();
        s.append(": ");
        s.append(self.message.as_str());
        s
    }
}

/// The errors and warnings found so far.
#[derive(Debug)]
pub struct ValidationResult {
    pub errors: Vec<ValidationError>,
    pub warnings: Vec<ValidationError>,
}

impl ValidationResult {
    /// The errors, as plain text.
    pub open spec fn errors_view(&self) -> Seq<Issue> {
        issues(self.errors@)
    }

    /// The warnings, as plain text.
    pub open spec fn warnings_view(&self) -> Seq<Issue> {
        issues(self.warnings@)
    }

    /// No findings.
    pub fn new() -> (r: Self)
        ensures
            r.errors_view() == Seq::<Issue>::empty(),
            r.warnings_view() == Seq::<Issue>::empty(),
    {
        let r = ValidationResult { errors: Vec::new(), warnings: Vec::new() };
        assert(r.errors_view() =~= Seq::<Issue>::empty());
        assert(r.warnings_view() =~= Seq::<Issue>::empty());
        r
    }

    /// The configuration is valid when nothing is wrong (warnings do not count).
    pub fn is_valid(&self) -> (r: bool)
        ensures
            r == (self.errors_view().len() == 0),
    {
        self.errors.len() == 0
    }

    /// Records an error.
    pub fn add_error(&mut self, path: &str, message: &str)
        ensures
            final(self).errors_view() == old(self).errors_view().push((path@, message@)),
            final(self).warnings_view() == old(self).warnings_view(),
    {
        self.errors.push(ValidationError { path: path.to_owned(), message: message.to_owned() });
        assert(self.errors_view() =~= old(self).errors_view().push((path@, message@)));
    }

    /// Records a warning.
    pub fn add_warning(&mut self, path: &str, message: &str)
        ensures
            final(self).warnings_view() == old(self).warnings_view().push((path@, message@)),
            final(self).errors_view() == old(self).errors_view(),
    {
        self.warnings.push(ValidationError { path: path.to_owned(), message: message.to_owned() });
        assert(self.warnings_view() =~= old(self).warnings_view().push((path@, message@)));
    }
}

impl Default for ValidationResult {
    fn default() -> (r: Self)
        ensures
            r.errors_view() == Seq::<Issue>::empty(),
            r.warnings_view() == Seq::<Issue>::empty(),
    {
        ValidationResult::new()
    }
}

/// `a` followed by `b`.
fn join(a: &str, b: &str) -> (r: String)
    ensures
        r@ == a@ + b@,
{
    let mut s = a.to_owned();
    s.append(b);
    s
}

/// `p[i]`
pub open spec fn indexed(p: Seq<char>, i: nat) -> Seq<char> {
    p + "["@ + decimal(i) + "]"@
}

fn index_path(p: &str, i: usize) -> (r: String)
    ensures
        r@ == indexed(p@, i as nat),
{
    let mut s = join(p, "[");
    let d = string_of(&u64_decimal(i as u64));
    s.append(d.as_str());
    s.append("]");
    s
}

// ---------------------------------------------------------------------------
// Service names
// ---------------------------------------------------------------------------

/// A character allowed in a service name.
pub open spec fn name_char_ok(c: char) -> bool {
    is_lower(c) || is_digit(c) || c == '-' || c == '_'
}

/// `services.<name>`
pub open spec fn service_path(name: Seq<char>) -> Seq<char> {
    "services."@ + name
}

/// The errors about a service name: it must be non-empty, start with a lowercase letter
/// and hold only lowercase letters, digits, `-` and `_`.
pub open spec fn name_errors(name: Seq<char>) -> Seq<Issue> {
    if name.len() == 0 {
        seq![("services"@, "Service name cannot be empty"@)]
    } else {
        (if !is_lower(name[0]) {
            seq![(service_path(name), "Service name must start with a lowercase letter"@)]
        } else {
            Seq::empty()
        }) + (if exists|i: int| 0 <= i < name.len() && !name_char_ok(#[trigger] name[i]) {
            seq![
                (
                    service_path(name),
                    "Service name must contain only lowercase letters, numbers, hyphens, and underscores"@,
                ),
            ]
        } else {
            Seq::empty()
        })
    }
}

/// Records the errors about a service name.
pub fn validate_service_name(name: &str, result: &mut ValidationResult)
    ensures
        final(result).errors_view() == old(result).errors_view() + name_errors(name@),
        final(result).warnings_view() == old(result).warnings_view(),
{
    let n = chars_of(name);
    if n.len() == 0 {
        result.add_error("services", "Service name cannot be empty");
        assert(result.errors_view() =~= old(result).errors_view() + name_errors(name@));
        return ;
    }
    let path = join("services.", name);
    let ghost e0 = result.errors_view();
    let first = n[0];
    if !('a' <= first && first <= 'z') {
        result.add_error(path.as_str(), "Service name must start with a lowercase letter");
    }
    let ghost e1 = result.errors_view();
    let mut i: usize = 0;
    let mut bad = false;
    while i < n.len()
        invariant
            i <= n@.len(),
            n@ == name@,
            bad <==> exists|k: int| 0 <= k < i && !name_char_ok(#[trigger] n@[k]),
        decreases n.len() - i,
    {
        let c = n[i];
        if !(('a' <= c && c <= 'z') || ('0' <= c && c <= '9') || c == '-' || c == '_') {
            bad = true;
        }
        i = i + 1;
    }
    if bad {
        result.add_error(
            path.as_str(),
            "Service name must contain only lowercase letters, numbers, hyphens, and underscores",
        );
    }
    assert(result.errors_view() =~= old(result).errors_view() + name_errors(name@));
}

// ---------------------------------------------------------------------------
// Plugin sections
// ---------------------------------------------------------------------------

proof fn lemma_section_skip(cfg: Seq<ConfigSection>, key: Seq<char>, i: int)
    requires
        0 <= i <= cfg.len(),
        forall|j: int| 0 <= j < i ==> (#[trigger] cfg[j]).key@ != key,
    ensures
        section_fields(cfg, key) == section_fields(cfg.skip(i), key),
    decreases i,
{
    if i > 0 {
        assert(cfg[0].key@ != key);
        assert(cfg.drop_first().skip(i - 1) =~= cfg.skip(i));
        assert forall|j: int| 0 <= j < i - 1 implies (#[trigger] cfg.drop_first()[j]).key@ != key by {
            assert(cfg.drop_first()[j] == cfg[j + 1]);
        }
        lemma_section_skip(cfg.drop_first(), key, i - 1);
    } else {
        assert(cfg.skip(0) =~= cfg);
    }
}

/// The first section called `key`.
fn find_section<'a>(cfg: &'a [ConfigSection], key: &str) -> (r: Option<&'a ConfigSection>)
    ensures
        match r {
            None => section_fields(cfg@, key@) is None,
            Some(s) => section_fields(cfg@, key@) == Some(texts(s.fields@)),
        },
{
    let mut i: usize = 0;
    while i < cfg.len()
        invariant
            i <= cfg@.len(),
            forall|j: int| 0 <= j < i ==> (#[trigger] cfg@[j]).key@ != key@,
        decreases cfg.len() - i,
    {
        if str_eq(cfg[i].key.as_str(), key) {
            proof {
                lemma_section_skip(cfg@, key@, i as int);
                assert(cfg@.skip(i as int)[0] == cfg@[i as int]);
            }
            return Some(&cfg[i]);
        }
        i = i + 1;
    }
    proof {
        lemma_section_skip(cfg@, key@, i as int);
    }
    None
}

/// Whether `fields` holds `f`.
fn has_field(fields: &[String], f: &str) -> (r: bool)
    ensures
        r == texts(fields@).contains(f@),
{
    let mut i: usize = 0;
    while i < fields.len()
        invariant
            i <= fields@.len(),
            forall|j: int| 0 <= j < i ==> (#[trigger] fields@[j])@ != f@,
        decreases fields.len() - i,
    {
        if str_eq(fields[i].as_str(), f) {
            assert(texts(fields@)[i as int] == f@);
            return true;
        }
        i = i + 1;
    }
    proof {
        if texts(fields@).contains(f@) {
            let j = choose|j: int| 0 <= j < fields@.len() && #[trigger] texts(fields@)[j] == f@;
            assert(fields@[j]@ == f@);
        }
    }
    false
}

/// The errors about a built-in plugin section: missing (at `p`), or without its required
/// field (at `p.section.field`).
pub open spec fn section_errors(
    p: Seq<char>,
    cfg: Seq<ConfigSection>,
    section: Seq<char>,
    field: Seq<char>,
    missing: Seq<char>,
    no_field: Seq<char>,
) -> Seq<Issue> {
    match section_fields(cfg, section) {
        None => seq![(p, missing)],
        Some(fs) => if fs.contains(field) {
            Seq::empty()
        } else {
            seq![(p + "."@ + section + "."@ + field, no_field)]
        },
    }
}

/// Records the errors about a built-in plugin section.
fn check_section(
    p: &str,
    cfg: &[ConfigSection],
    section: &str,
    field: &str,
    missing: &str,
    no_field: &str,
    result: &mut ValidationResult,
)
    ensures
        final(result).errors_view() == old(result).errors_view() + section_errors(p@, cfg@, section@, field@, missing@, no_field@),
        final(result).warnings_view() == old(result).warnings_view(),
{
    match find_section(cfg, section) {
        None => {
            result.add_error(p, missing);
        },
        Some(s) => {
            if !has_field(&s.fields, field) {
                let mut fp = join(p, ".");
                fp.append(section);
                fp.append(".");
                fp.append(field);
                result.add_error(fp.as_str(), no_field);
            }
        },
    }
    assert(result.errors_view() =~= old(result).errors_view() + section_errors(p@, cfg@, section@, field@, missing@, no_field@));
}

/// The errors about how a service runs.
pub open spec fn runner_errors(p: Seq<char>, r: RunnerConfig) -> Seq<Issue> {
    let t = r.runner_type@;
    if t.len() == 0 {
        seq![(p + ".type"@, "Runner type is required"@)]
    } else if t == "script"@ {
        section_errors(p, r.config@, "script"@, "run"@, "Missing 'script' configuration for script runner"@, "'run' is required"@)
    } else if t == "docker"@ {
        section_errors(p, r.config@, "docker"@, "image"@, "Missing 'docker' configuration for docker runner"@, "'image' is required"@)
    } else if t == "compose"@ {
        if section_fields(r.config@, "compose"@) is None {
            seq![(p, "Missing 'compose' configuration for compose runner"@)]
        } else {
            Seq::empty()
        }
    } else {
        Seq::empty()
    }
}

/// The warnings about how a service runs: a plugin runner without its section.
pub open spec fn runner_warnings(p: Seq<char>, r: RunnerConfig) -> Seq<Issue> {
    let t = r.runner_type@;
    if t.len() != 0 && t != "script"@ && t != "docker"@ && t != "compose"@ && section_fields(r.config@, t) is None {
        seq![(p, "Missing '"@ + t + "' configuration for "@ + t + " runner (may be auto-installed)"@)]
    } else {
        Seq::empty()
    }
}

/// Records the findings about how a service runs.
pub fn validate_runner(path: &str, runner: &RunnerConfig, result: &mut ValidationResult)
    ensures
        final(result).errors_view() == old(result).errors_view() + runner_errors(path@, *runner),
        final(result).warnings_view() == old(result).warnings_view() + runner_warnings(path@, *runner),
{
    let t = runner.runner_type.as_str();
    if chars_of(t).len() == 0 {
        let p = join(path, ".type");
        result.add_error(p.as_str(), "Runner type is required");
        assert(result.errors_view() =~= old(result).errors_view() + runner_errors(path@, *runner));
        assert(result.warnings_view() =~= old(result).warnings_view() + runner_warnings(path@, *runner));
        return ;
    }
    if str_eq(t, "script") {
        check_section(path, &runner.config, "script", "run", "Missing 'script' configuration for script runner", "'run' is required", result);
    } else if str_eq(t, "docker") {
        check_section(path, &runner.config, "docker", "image", "Missing 'docker' configuration for docker runner", "'image' is required", result);
    } else if str_eq(t, "compose") {
        if find_section(&runner.config, "compose").is_none() {
            result.add_error(path, "Missing 'compose' configuration for compose runner");
        }
    } else {
        if find_section(&runner.config, t).is_none() {
            let mut m = join("Missing '", t);
            m.append("' configuration for ");
            m.append(t);
            m.append(" runner (may be auto-installed)");
            result.add_warning(path, m.as_str());
        }
    }
    assert(result.errors_view() =~= old(result).errors_view() + runner_errors(path@, *runner));
    assert(result.warnings_view() =~= old(result).warnings_view() + runner_warnings(path@, *runner));
}

/// The errors about how a service rolls out.
pub open spec fn rollout_errors(p: Seq<char>, r: RolloutConfig) -> Seq<Issue> {
    let t = r.rollout_type@;
    if t.len() == 0 {
        seq![(p + ".type"@, "Rollout type is required"@)]
    } else if t == "recreate"@ {
        section_errors(p, r.config@, "recreate"@, "ports"@, "Missing 'recreate' configuration"@, "'ports' is required"@)
    } else if t == "blue-green"@ {
        section_errors(p, r.config@, "blue-green"@, "ports"@, "Missing 'blue-green' configuration"@, "'ports' is required"@)
    } else {
        Seq::empty()
    }
}

/// The warnings about how a service rolls out: a plugin rollout without its section.
pub open spec fn rollout_warnings(p: Seq<char>, r: RolloutConfig) -> Seq<Issue> {
    let t = r.rollout_type@;
    if t.len() != 0 && t != "recreate"@ && t != "blue-green"@ && section_fields(r.config@, t) is None {
        seq![(p, "Missing '"@ + t + "' configuration for "@ + t + " rollout"@)]
    } else {
        Seq::empty()
    }
}

/// Records the findings about how a service rolls out.
pub fn validate_rollout(path: &str, rollout: &RolloutConfig, result: &mut ValidationResult)
    ensures
        final(result).errors_view() == old(result).errors_view() + rollout_errors(path@, *rollout),
        final(result).warnings_view() == old(result).warnings_view() + rollout_warnings(path@, *rollout),
{
    let t = rollout.rollout_type.as_str();
    if chars_of(t).len() == 0 {
        let p = join(path, ".type");
        result.add_error(p.as_str(), "Rollout type is required");
        assert(result.errors_view() =~= old(result).errors_view() + rollout_errors(path@, *rollout));
        assert(result.warnings_view() =~= old(result).warnings_view() + rollout_warnings(path@, *rollout));
        return ;
    }
    if str_eq(t, crate::config::ROLLOUT_TYPE_RECREATE) {
        check_section(path, &rollout.config, "recreate", "ports", "Missing 'recreate' configuration", "'ports' is required", result);
    } else if str_eq(t, crate::config::ROLLOUT_TYPE_BLUE_GREEN) {
        check_section(path, &rollout.config, "blue-green", "ports", "Missing 'blue-green' configuration", "'ports' is required", result);
    } else {
        if find_section(&rollout.config, t).is_none() {
            let mut m = join("Missing '", t);
            m.append("' configuration for ");
            m.append(t);
            m.append(" rollout");
            result.add_warning(path, m.as_str());
        }
    }
    assert(result.errors_view() =~= old(result).errors_view() + rollout_errors(path@, *rollout));
    assert(result.warnings_view() =~= old(result).warnings_view() + rollout_warnings(path@, *rollout));
}

// ---------------------------------------------------------------------------
// Proxy endpoints and health checks
// ---------------------------------------------------------------------------

/// The path of entry `i` of a list that may have been written as a single entry.
pub open spec fn entry_path(p: Seq<char>, multiple: bool, i: nat) -> Seq<char> {
    if multiple { indexed(p, i) } else { p }
}

fn entry_path_of(p: &str, multiple: bool, i: usize) -> (r: String)
    ensures
        r@ == entry_path(p@, multiple, i as nat),
{
    if multiple { index_path(p, i) } else { p.to_owned() }
}

/// The errors about one proxy endpoint at path `ep`.
pub open spec fn endpoint_errors(ep: Seq<char>, e: ProxyEndpoint) -> Seq<Issue> {
    (if e.path@.len() == 0 {
        seq![(ep + ".path"@, "Path is required"@)]
    } else if e.path@[0] != '/' {
        seq![(ep + ".path"@, "Path must start with '/'"@)]
    } else {
        Seq::empty()
    }) + (match e.host {
        Some(h) => if has_prefix(h@, "http://"@) || has_prefix(h@, "https://"@) {
            seq![(ep + ".host"@, "Host must not include protocol (no http:// or https://)"@)]
        } else {
            Seq::empty()
        },
        None => Seq::empty(),
    })
}

/// The errors about the first `n` endpoints of a proxy configuration.
pub open spec fn proxy_errors_upto(p: Seq<char>, proxy: ServiceProxyConfig, n: nat) -> Seq<Issue>
    decreases n,
{
    if n == 0 {
        Seq::empty()
    } else {
        proxy_errors_upto(p, proxy, (n - 1) as nat) + endpoint_errors(
            entry_path(p, proxy is Multiple, (n - 1) as nat),
            proxy_endpoints(proxy)[n - 1],
        )
    }
}

/// The errors about a proxy configuration: each endpoint needs a path starting with `/`,
/// and a host without a protocol.
pub open spec fn proxy_errors(p: Seq<char>, proxy: ServiceProxyConfig) -> Seq<Issue> {
    proxy_errors_upto(p, proxy, proxy_endpoints(proxy).len())
}

/// The endpoints of a proxy configuration.
fn endpoints_of(proxy: &ServiceProxyConfig) -> (r: Vec<&ProxyEndpoint>)
    ensures
        r@.len() == proxy_endpoints(*proxy).len(),
        forall|i: int| 0 <= i < r@.len() ==> *(#[trigger] r@[i]) == proxy_endpoints(*proxy)[i],
{
    match proxy {
        ServiceProxyConfig::Single(e) => vec![e],
        ServiceProxyConfig::Multiple(v) => {
            let mut r: Vec<&ProxyEndpoint> = Vec::new();
            let mut i: usize = 0;
            while i < v.len()
                invariant
                    i <= v@.len(),
                    r@.len() == i,
                    forall|j: int| 0 <= j < i ==> *(#[trigger] r@[j]) == v@[j],
                decreases v.len() - i,
            {
                r.push(&v[i]);
                i = i + 1;
            }
            r
        },
    }
}

/// Records the errors about a proxy configuration.
pub fn validate_proxy(path: &str, proxy: &ServiceProxyConfig, result: &mut ValidationResult)
    ensures
        final(result).errors_view() == old(result).errors_view() + proxy_errors(path@, *proxy),
        final(result).warnings_view() == old(result).warnings_view(),
{
    let eps = endpoints_of(proxy);
    let multiple = match proxy {
        ServiceProxyConfig::Multiple(_) => true,
        ServiceProxyConfig::Single(_) => false,
    };
    let mut i: usize = 0;
    while i < eps.len()
        invariant
            i <= eps@.len(),
            eps@.len() == proxy_endpoints(*proxy).len(),
            forall|j: int| 0 <= j < eps@.len() ==> *(#[trigger] eps@[j]) == proxy_endpoints(*proxy)[j],
            multiple == (*proxy is Multiple),
            result.errors_view() == old(result).errors_view() + proxy_errors_upto(path@, *proxy, i as nat),
            result.warnings_view() == old(result).warnings_view(),
        decreases eps.len() - i,
    {
        let ep = entry_path_of(path, multiple, i);
        let e = eps[i];
        let ghost before = result.errors_view();
        let pc = chars_of(e.path.as_str());
        if pc.len() == 0 {
            let p = join(ep.as_str(), ".path");
            result.add_error(p.as_str(), "Path is required");
        } else if pc[0] != '/' {
            let p = join(ep.as_str(), ".path");
            result.add_error(p.as_str(), "Path must start with '/'");
        }
        match &e.host {
            Some(h) => {
                if str_starts_with(h.as_str(), "http://") || str_starts_with(h.as_str(), "https://") {
                    let p = join(ep.as_str(), ".host");
                    result.add_error(p.as_str(), "Host must not include protocol (no http:// or https://)");
                }
            },
            None => {},
        }
        assert(result.errors_view() =~= before + endpoint_errors(ep@, *e));
        assert(result.errors_view() =~= old(result).errors_view() + proxy_errors_upto(path@, *proxy, (i + 1) as nat));
        i = i + 1;
    }
}

/// The errors about one health check at path `cp`.
pub open spec fn check_errors(cp: Seq<char>, c: HealthCheck) -> Seq<Issue> {
    let t = c.check_type@;
    if t.len() == 0 {
        seq![(cp + ".type"@, "Health check type is required"@)]
    } else if t == "http"@ {
        section_errors(cp, c.config@, "http"@, "port"@, "Missing 'http' configuration"@, "'port' is required"@)
    } else if t == "tcp"@ {
        section_errors(cp, c.config@, "tcp"@, "port"@, "Missing 'tcp' configuration"@, "'port' is required"@)
    } else if t == "cmd"@ {
        section_errors(cp, c.config@, "cmd"@, "command"@, "Missing 'cmd' configuration"@, "'command' is required"@)
    } else {
        Seq::empty()
    }
}

/// The warnings about one health check at path `cp`: a plugin check without its section.
pub open spec fn check_warnings(cp: Seq<char>, c: HealthCheck) -> Seq<Issue> {
    let t = c.check_type@;
    if t.len() != 0 && t != "http"@ && t != "tcp"@ && t != "cmd"@ && section_fields(c.config@, t) is None {
        seq![(cp, "Missing '"@ + t + "' configuration for "@ + t + " health check"@)]
    } else {
        Seq::empty()
    }
}

/// The errors about the first `n` checks of a health-check configuration.
pub open spec fn health_errors_upto(p: Seq<char>, h: HealthCheckConfig, n: nat) -> Seq<Issue>
    decreases n,
{
    if n == 0 {
        Seq::empty()
    } else {
        health_errors_upto(p, h, (n - 1) as nat) + check_errors(
            entry_path(p, h is Multiple, (n - 1) as nat),
            health_checks(h)[n - 1],
        )
    }
}

/// The warnings about the first `n` checks of a health-check configuration.
pub open spec fn health_warnings_upto(p: Seq<char>, h: HealthCheckConfig, n: nat) -> Seq<Issue>
    decreases n,
{
    if n == 0 {
        Seq::empty()
    } else {
        health_warnings_upto(p, h, (n - 1) as nat) + check_warnings(
            entry_path(p, h is Multiple, (n - 1) as nat),
            health_checks(h)[n - 1],
        )
    }
}

/// The errors about a health-check configuration.
pub open spec fn health_errors(p: Seq<char>, h: HealthCheckConfig) -> Seq<Issue> {
    health_errors_upto(p, h, health_checks(h).len())
}

/// The warnings about a health-check configuration.
pub open spec fn health_warnings(p: Seq<char>, h: HealthCheckConfig) -> Seq<Issue> {
    health_warnings_upto(p, h, health_checks(h).len())
}

/// The checks of a health-check configuration.
fn checks_of(h: &HealthCheckConfig) -> (r: Vec<&HealthCheck>)
    ensures
        r@.len() == health_checks(*h).len(),
        forall|i: int| 0 <= i < r@.len() ==> *(#[trigger] r@[i]) == health_checks(*h)[i],
{
    match h {
        HealthCheckConfig::Single(c) => vec![c],
        HealthCheckConfig::Multiple(v) => {
            let mut r: Vec<&HealthCheck> = Vec::new();
            let mut i: usize = 0;
            while i < v.len()
                invariant
                    i <= v@.len(),
                    r@.len() == i,
                    forall|j: int| 0 <= j < i ==> *(#[trigger] r@[j]) == v@[j],
                decreases v.len() - i,
            {
                r.push(&v[i]);
                i = i + 1;
            }
            r
        },
    }
}

/// Records the findings about one health check.
fn validate_check(cp: &str, c: &HealthCheck, result: &mut ValidationResult)
    ensures
        final(result).errors_view() == old(result).errors_view() + check_errors(cp@, *c),
        final(result).warnings_view() == old(result).warnings_view() + check_warnings(cp@, *c),
{
    let t = c.check_type.as_str();
    if chars_of(t).len() == 0 {
        let p = join(cp, ".type");
        result.add_error(p.as_str(), "Health check type is required");
    } else if str_eq(t, "http") {
        check_section(cp, &c.config, "http", "port", "Missing 'http' configuration", "'port' is required", result);
    } else if str_eq(t, "tcp") {
        check_section(cp, &c.config, "tcp", "port", "Missing 'tcp' configuration", "'port' is required", result);
    } else if str_eq(t, "cmd") {
        check_section(cp, &c.config, "cmd", "command", "Missing 'cmd' configuration", "'command' is required", result);
    } else {
        if find_section(&c.config, t).is_none() {
            let mut m = join("Missing '", t);
            m.append("' configuration for ");
            m.append(t);
            m.append(" health check");
            result.add_warning(cp, m.as_str());
        }
    }
    assert(result.errors_view() =~= old(result).errors_view() + check_errors(cp@, *c));
    assert(result.warnings_view() =~= old(result).warnings_view() + check_warnings(cp@, *c));
}

/// Records the findings about a health-check configuration.
pub fn validate_healthcheck(path: &str, healthcheck: &HealthCheckConfig, result: &mut ValidationResult)
    ensures
        final(result).errors_view() == old(result).errors_view() + health_errors(path@, *healthcheck),
        final(result).warnings_view() == old(result).warnings_view() + health_warnings(path@, *healthcheck),
{
    let checks = checks_of(healthcheck);
    let multiple = match healthcheck {
        HealthCheckConfig::Multiple(_) => true,
        HealthCheckConfig::Single(_) => false,
    };
    let mut i: usize = 0;
    while i < checks.len()
        invariant
            i <= checks@.len(),
            checks@.len() == health_checks(*healthcheck).len(),
            forall|j: int| 0 <= j < checks@.len() ==> *(#[trigger] checks@[j]) == health_checks(*healthcheck)[j],
            multiple == (*healthcheck is Multiple),
            result.errors_view() == old(result).errors_view() + health_errors_upto(path@, *healthcheck, i as nat),
            result.warnings_view() == old(result).warnings_view() + health_warnings_upto(path@, *healthcheck, i as nat),
        decreases checks.len() - i,
    {
        let cp = entry_path_of(path, multiple, i);
        validate_check(cp.as_str(), checks[i], result);
        assert(result.errors_view() =~= old(result).errors_view() + health_errors_upto(path@, *healthcheck, (i + 1) as nat));
        assert(result.warnings_view() =~= old(result).warnings_view() + health_warnings_upto(path@, *healthcheck, (i + 1) as nat));
        i = i + 1;
    }
}

// ---------------------------------------------------------------------------
// Exposure
// ---------------------------------------------------------------------------

/// The errors about what a service exposes: a name and at least one variable.
pub open spec fn expose_errors(p: Seq<char>, e: ExposeConfig) -> Seq<Issue> {
    (if e.name@.len() == 0 {
        seq![(p + ".name"@, "Expose name is required"@)]
    } else {
        Seq::empty()
    }) + (if e.vars@.len() == 0 {
        seq![(p + ".vars"@, "At least one variable is required"@)]
    } else {
        Seq::empty()
    })
}

/// Records the errors about what a service exposes.
pub fn validate_expose(path: &str, expose: &ExposeConfig, result: &mut ValidationResult)
    ensures
        final(result).errors_view() == old(result).errors_view() + expose_errors(path@, *expose),
        final(result).warnings_view() == old(result).warnings_view(),
{
    if chars_of(expose.name.as_str()).len() == 0 {
        let p = join(path, ".name");
        result.add_error(p.as_str(), "Expose name is required");
    }
    if expose.vars.len() == 0 {
        let p = join(path, ".vars");
        result.add_error(p.as_str(), "At least one variable is required");
    }
    assert(result.errors_view() =~= old(result).errors_view() + expose_errors(path@, *expose));
}

/// The errors about a dependency on an exposed service: it needs a name.
pub open spec fn uses_errors(p: Seq<char>, u: UsesConfig) -> Seq<Issue> {
    if u.name@.len() == 0 {
        seq![(p + ".name"@, "Uses name is required"@)]
    } else {
        Seq::empty()
    }
}

/// Records the errors about a dependency on an exposed service.
pub fn validate_uses(path: &str, uses: &UsesConfig, result: &mut ValidationResult)
    ensures
        final(result).errors_view() == old(result).errors_view() + uses_errors(path@, *uses),
        final(result).warnings_view() == old(result).warnings_view(),
{
    if chars_of(uses.name.as_str()).len() == 0 {
        let p = join(path, ".name");
        result.add_error(p.as_str(), "Uses name is required");
    }
    assert(result.errors_view() =~= old(result).errors_view() + uses_errors(path@, *uses));
}

// ---------------------------------------------------------------------------
// Services
// ---------------------------------------------------------------------------

/// The errors about one dependency `dep` of the service `name`, reported at `dp`.
pub open spec fn dep_errors(dp: Seq<char>, name: Seq<char>, dep: Seq<char>, all: Seq<Seq<char>>) -> Seq<Issue> {
    (if !all.contains(dep) {
        seq![(dp, "Unknown dependency: "@ + dep)]
    } else {
        Seq::empty()
    }) + (if dep == name {
        seq![(dp, "Service cannot depend on itself"@)]
    } else {
        Seq::empty()
    })
}

/// The errors about the first `n` dependencies.
pub open spec fn deps_errors_upto(dp: Seq<char>, name: Seq<char>, deps: Seq<String>, all: Seq<Seq<char>>, n: nat) -> Seq<Issue>
    decreases n,
{
    if n == 0 {
        Seq::empty()
    } else {
        deps_errors_upto(dp, name, deps, all, (n - 1) as nat) + dep_errors(dp, name, deps[n - 1]@, all)
    }
}

/// The errors about the first `n` dependencies on exposed services.
pub open spec fn all_uses_errors_upto(p: Seq<char>, uses: Seq<UsesConfig>, n: nat) -> Seq<Issue>
    decreases n,
{
    if n == 0 {
        Seq::empty()
    } else {
        all_uses_errors_upto(p, uses, (n - 1) as nat) + uses_errors(indexed(p + ".uses"@, (n - 1) as nat), uses[n - 1])
    }
}

/// The errors about how the service `name` runs, rolls out, is proxied and checked.
pub open spec fn service_setup_errors(name: Seq<char>, s: ServiceConfig) -> Seq<Issue> {
    let path = service_path(name);
    runner_errors(path + ".runner"@, s.runner)
        + (if (s.proxy is Some || s.healthcheck is Some) && s.rollout is None {
            seq![(path, "rollout is required when proxy or healthcheck is configured"@)]
        } else {
            Seq::empty()
        })
        + (match s.rollout {
            Some(r) => rollout_errors(path + ".rollout"@, r),
            None => Seq::empty(),
        })
        + (match s.proxy {
            Some(p) => proxy_errors(path + ".proxy"@, p),
            None => Seq::empty(),
        })
        + (match s.healthcheck {
            Some(h) => health_errors(path + ".healthcheck"@, h),
            None => Seq::empty(),
        })
}

/// The errors about what the service `name` depends on and exposes.
pub open spec fn service_link_errors(name: Seq<char>, s: ServiceConfig, all: Seq<Seq<char>>) -> Seq<Issue> {
    let path = service_path(name);
    deps_errors_upto(path + ".depends_on"@, name, s.depends_on@, all, s.depends_on@.len())
        + (match s.expose {
            Some(e) => expose_errors(path + ".expose"@, e),
            None => Seq::empty(),
        })
        + all_uses_errors_upto(path, s.uses@, s.uses@.len())
}

/// The errors about the service `name`, given the names of all services.
pub open spec fn service_errors(name: Seq<char>, s: ServiceConfig, all: Seq<Seq<char>>) -> Seq<Issue> {
    service_setup_errors(name, s) + service_link_errors(name, s, all)
}

/// The warnings about the service `name`.
pub open spec fn service_warnings(name: Seq<char>, s: ServiceConfig) -> Seq<Issue> {
    let path = service_path(name);
    runner_warnings(path + ".runner"@, s.runner)
        + (match s.rollout {
            Some(r) => rollout_warnings(path + ".rollout"@, r),
            None => Seq::empty(),
        })
        + (match s.healthcheck {
            Some(h) => health_warnings(path + ".healthcheck"@, h),
            None => Seq::empty(),
        })
}

/// Whether `names` holds `n`.
fn contains_name(names: &[String], n: &str) -> (r: bool)
    ensures
        r == texts(names@).contains(n@),
{
    let mut i: usize = 0;
    while i < names.len()
        invariant
            i <= names@.len(),
            forall|j: int| 0 <= j < i ==> (#[trigger] names@[j])@ != n@,
        decreases names.len() - i,
    {
        if str_eq(names[i].as_str(), n) {
            assert(texts(names@)[i as int] == n@);
            return true;
        }
        i = i + 1;
    }
    proof {
        if texts(names@).contains(n@) {
            let j = choose|j: int| 0 <= j < names@.len() && #[trigger] texts(names@)[j] == n@;
            assert(names@[j]@ == n@);
        }
    }
    false
}

/// Records the findings about how the service runs, rolls out, is proxied and checked.
fn validate_service_setup(path: &str, service: &ServiceConfig, result: &mut ValidationResult)
    requires
        exists|name: Seq<char>| path@ == service_path(name),
    ensures
        forall|name: Seq<char>| path@ == service_path(name) ==> final(result).errors_view() == old(result).errors_view() + service_setup_errors(name, *service),
        forall|name: Seq<char>| path@ == service_path(name) ==> final(result).warnings_view() == old(result).warnings_view() + service_warnings(name, *service),
{
    let ghost e0 = result.errors_view();
    let ghost w0 = result.warnings_view();
    let p = join(path, ".runner");
    validate_runner(p.as_str(), &service.runner, result);
    let ghost e1 = result.errors_view();
    let ghost w1 = result.warnings_view();
    if (service.proxy.is_some() || service.healthcheck.is_some()) && service.rollout.is_none() {
        result.add_error(path, "rollout is required when proxy or healthcheck is configured");
    }
    let ghost e2 = result.errors_view();
    match &service.rollout {
        Some(r) => {
            let p = join(path, ".rollout");
            validate_rollout(p.as_str(), r, result);
        },
        None => {},
    }
    let ghost e3 = result.errors_view();
    let ghost w3 = result.warnings_view();
    match &service.proxy {
        Some(px) => {
            let p = join(path, ".proxy");
            validate_proxy(p.as_str(), px, result);
        },
        None => {},
    }
    let ghost e4 = result.errors_view();
    match &service.healthcheck {
        Some(h) => {
            let p = join(path, ".healthcheck");
            validate_healthcheck(p.as_str(), h, result);
        },
        None => {},
    }
    proof {
        assert forall|name: Seq<char>| path@ == service_path(name) implies result.errors_view() == old(result).errors_view() + service_setup_errors(name, *service) by {
            let pa = service_path(name);
            let a = runner_errors(pa + ".runner"@, service.runner);
            let b = if (service.proxy is Some || service.healthcheck is Some) && service.rollout is None {
                seq![(pa, "rollout is required when proxy or healthcheck is configured"@)]
            } else {
                Seq::<Issue>::empty()
            };
            let c = match service.rollout { Some(r) => rollout_errors(pa + ".rollout"@, r), None => Seq::<Issue>::empty() };
            let d = match service.proxy { Some(x) => proxy_errors(pa + ".proxy"@, x), None => Seq::<Issue>::empty() };
            let f = match service.healthcheck { Some(h) => health_errors(pa + ".healthcheck"@, h), None => Seq::<Issue>::empty() };
            assert(e1 == e0 + a);
            assert(e2 =~= e1 + b);
            assert(e3 =~= e2 + c);
            assert(e4 =~= e3 + d);
            assert(result.errors_view() =~= e4 + f);
            assert(service_setup_errors(name, *service) == a + b + c + d + f);
            assert(result.errors_view() =~= e0 + (a + b + c + d + f));
        }
        assert forall|name: Seq<char>| path@ == service_path(name) implies result.warnings_view() == old(result).warnings_view() + service_warnings(name, *service) by {
            assert(result.warnings_view() =~= old(result).warnings_view() + service_warnings(name, *service));
        }
    }
}

/// Records the errors about what the service depends on and exposes.
fn validate_service_links(name: &str, path: &str, service: &ServiceConfig, all_services: &[String], result: &mut ValidationResult)
    requires
        path@ == service_path(name@),
    ensures
        final(result).errors_view() == old(result).errors_view() + service_link_errors(name@, *service, texts(all_services@)),
        final(result).warnings_view() == old(result).warnings_view(),
{
    let ghost e5 = result.errors_view();
    let dp = join(path, ".depends_on");
    let mut i: usize = 0;
    while i < service.depends_on.len()
        invariant
            i <= service.depends_on@.len(),
            dp@ == service_path(name@) + ".depends_on"@,
            result.errors_view() == e5 + deps_errors_upto(dp@, name@, service.depends_on@, texts(all_services@), i as nat),
            result.warnings_view() == old(result).warnings_view(),
        decreases service.depends_on.len() - i,
    {
        let dep = service.depends_on[i].as_str();
        let ghost before = result.errors_view();
        if !contains_name(all_services, dep) {
            let m = join("Unknown dependency: ", dep);
            result.add_error(dp.as_str(), m.as_str());
        }
        if str_eq(dep, name) {
            result.add_error(dp.as_str(), "Service cannot depend on itself");
        }
        assert(result.errors_view() =~= before + dep_errors(dp@, name@, service.depends_on@[i as int]@, texts(all_services@)));
        assert(result.errors_view() =~= e5 + deps_errors_upto(dp@, name@, service.depends_on@, texts(all_services@), (i + 1) as nat));
        i = i + 1;
    }
    let ghost e6 = result.errors_view();
    match &service.expose {
        Some(e) => {
            let p = join(path, ".expose");
            validate_expose(p.as_str(), e, result);
        },
        None => {},
    }
    let ghost e7 = result.errors_view();
    let up = join(path, ".uses");
    let mut k: usize = 0;
    while k < service.uses.len()
        invariant
            k <= service.uses@.len(),
            up@ == service_path(name@) + ".uses"@,
            result.errors_view() == e7 + all_uses_errors_upto(service_path(name@), service.uses@, k as nat),
            result.warnings_view() == old(result).warnings_view(),
        decreases service.uses.len() - k,
    {
        let p = index_path(up.as_str(), k);
        validate_uses(p.as_str(), &service.uses[k], result);
        assert(result.errors_view() =~= e7 + all_uses_errors_upto(service_path(name@), service.uses@, (k + 1) as nat));
        k = k + 1;
    }
    assert(result.errors_view() =~= old(result).errors_view() + service_link_errors(name@, *service, texts(all_services@)));
}

/// Records the findings about the service `name`; `all_services` are the names of all
/// services.
pub fn validate_service(name: &str, service: &ServiceConfig, all_services: &[String], result: &mut ValidationResult)
    ensures
        final(result).errors_view() == old(result).errors_view() + service_errors(name@, *service, texts(all_services@)),
        final(result).warnings_view() == old(result).warnings_view() + service_warnings(name@, *service),
{
    let path = join("services.", name);
    let ghost e0 = result.errors_view();
    validate_service_setup(path.as_str(), service, result);
    let ghost e1 = result.errors_view();
    validate_service_links(name, path.as_str(), service, all_services, result);
    assert(result.errors_view() =~= old(result).errors_view() + service_errors(name@, *service, texts(all_services@)));
}

} // verus!
